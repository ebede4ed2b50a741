//! Validation of `.thingd` schema sources and their stable hash: line
//! endings are normalised before hashing, so the same schema hashes the same
//! whether it was saved with CRLF or LF line endings.
use sha2::Digest;
use vstd::prelude::*;
use crate::error::{AppError, ErrorKind};
use crate::oenv::lines_seq;
use crate::parse::{trim_start_seq, trim_text};
use crate::text::{chars_of, owned, push_text, slice_chars, split_chars, split_seq, string_of};

verus! {

/// The outcome of validating a schema: its hash, where it was read from and
/// its normalised text.
#[derive(Debug, Clone)]
pub struct SchemaReport {
    pub hash: String,
    pub source_path: Option<String>,
    pub source: String,
}

/// `s` with every `\r\n` replaced by `\n`, scanning from the start.
pub open spec fn crlf_to_lf(s: Seq<char>) -> Seq<char>
    decreases s.len(),
{
    if s.len() == 0 {
        Seq::empty()
    } else if s.len() >= 2 && s[0] == '\r' && s[1] == '\n' {
        seq!['\n'] + crlf_to_lf(s.skip(2))
    } else {
        seq![s[0]] + crlf_to_lf(s.drop_first())
    }
}

/// `t` with every `\n` written as `\r\n`.
pub open spec fn lf_to_crlf(t: Seq<char>) -> Seq<char>
    decreases t.len(),
{
    if t.len() == 0 {
        Seq::empty()
    } else if t[0] == '\n' {
        seq!['\r', '\n'] + lf_to_crlf(t.drop_first())
    } else {
        seq![t[0]] + lf_to_crlf(t.drop_first())
    }
}

/// The SHA-256 digest of some bytes.
pub uninterp spec fn sha256_of(bytes: Seq<u8>) -> Seq<u8>;

/// Hashes bytes with `sha2::Sha256::digest`. Claimed: the result is
/// `sha256_of(bytes)`, 32 bytes long.
#[verifier::external_body]
fn sha256(bytes: &[u8]) -> (r: Vec<u8>)
    ensures
        r@ == sha256_of(bytes@),
        r@.len() == 32,
{
    sha2::Sha256::digest(bytes).to_vec()
}

/// A lower-case hexadecimal digit.
pub open spec fn hex_digit(n: int) -> char {
    if n < 10 {
        (n + 48) as char
    } else {
        (n + 87) as char
    }
}

/// Bytes in lower-case hexadecimal, two digits each.
pub open spec fn hex_lower(b: Seq<u8>) -> Seq<char>
    decreases b.len(),
{
    if b.len() == 0 {
        Seq::empty()
    } else {
        hex_lower(b.drop_last()) + seq![hex_digit(b.last() as int / 16), hex_digit(b.last() as int % 16)]
    }
}

/// Encodes bytes with `hex::encode`. Claimed, as the crate documents it:
/// two lower-case hexadecimal digits per byte, in order.
#[verifier::external_body]
fn hex_encode(bytes: &[u8]) -> (r: String)
    ensures
        r@ == hex_lower(bytes@),
{
    hex::encode(bytes)
}

/// The hash recorded for a normalised schema text.
pub open spec fn schema_hash(normalized: Seq<char>) -> Seq<char> {
    "sha256:"@ + hex_lower(sha256_of(vstd::utf8::encode_utf8(normalized)))
}

/// Some line declares a version: after its leading white space it starts
/// with `version `.
pub open spec fn declares_version(text: Seq<char>) -> bool {
    exists|k: int|
        0 <= k < lines_seq(text).len() && crate::scheduler::has_prefix(
            trim_start_seq(#[trigger] lines_seq(text)[k]),
            "version "@,
        )
}

/// Why a schema source is refused, if it is: it is blank, or no line of
/// its normalised text declares a version.
pub open spec fn schema_problem(source: Seq<char>) -> Option<Seq<char>> {
    if crate::parse::trim_seq(source).len() == 0 {
        Some("`.thingd` schema is empty"@)
    } else if !declares_version(crlf_to_lf(source)) {
        Some("`.thingd` schema must declare a version"@)
    } else {
        None
    }
}

/// Replaces every `\r\n` with `\n`.
pub fn normalize_line_endings(s: &str) -> (r: String)
    ensures
        r@ == crlf_to_lf(s@),
{
    let v = chars_of(s);
    let mut out: Vec<char> = Vec::new();
    let mut i: usize = 0;
    assert(v@.skip(0) =~= v@);
    while i < v.len()
        invariant
            i <= v.len(),
            out@ + crlf_to_lf(v@.skip(i as int)) == crlf_to_lf(v@),
        decreases v.len() - i,
    {
        if i + 1 < v.len() && v[i] == '\r' && v[i + 1] == '\n' {
            assert(v@.skip(i as int).skip(2) =~= v@.skip(i + 2));
            assert(v@.skip(i as int)[0] == '\r' && v@.skip(i as int)[1] == '\n');
            out.push('\n');
            assert(out@ + crlf_to_lf(v@.skip(i + 2)) =~= out@.drop_last() + (seq!['\n'] + crlf_to_lf(
                v@.skip(i + 2),
            )));
            i = i + 2;
        } else {
            let c = v[i];
            assert(v@.skip(i as int).drop_first() =~= v@.skip(i + 1));
            assert(v@.skip(i as int)[0] == c);
            out.push(c);
            assert(out@ + crlf_to_lf(v@.skip(i + 1)) =~= out@.drop_last() + (seq![c] + crlf_to_lf(
                v@.skip(i + 1),
            )));
            i = i + 1;
        }
    }
    assert(crlf_to_lf(v@.skip(i as int)) =~= Seq::<char>::empty());
    assert(out@ =~= crlf_to_lf(v@));
    string_of(&out)
}

fn line_declares_version(line: &[char]) -> (r: bool)
    ensures
        r == crate::scheduler::has_prefix(trim_start_seq(line@), "version "@),
{
    let t = crate::parse::trim_start_chars(line);
    let p = chars_of("version ");
    proof {
        reveal_strlit("version ");
    }
    if t.len() < p.len() {
        return false;
    }
    let head = slice_chars(&t, 0, p.len());
    assert(head@ =~= t@.take(p@.len() as int));
    crate::text::chars_eq(&head, &p)
}

/// Whether some line of `text` declares a version.
pub fn has_version_line(text: &str) -> (r: bool)
    ensures
        r == declares_version(text@),
{
    let v = chars_of(text);
    let parts = split_chars(&v, '\n');
    let ghost pieces = split_seq(v@, '\n');
    let ghost lines = lines_seq(text@);
    proof {
        crate::oenv::lemma_split_nonempty(v@, '\n');
    }
    let n = parts.len();
    let mut i: usize = 0;
    while i < n
        invariant
            n == parts@.len(),
            n >= 1,
            i <= n,
            pieces == split_seq(v@, '\n'),
            v@ == text@,
            lines == lines_seq(text@),
            parts@.len() == pieces.len(),
            forall|k: int| 0 <= k < parts@.len() ==> #[trigger] parts@[k]@ == pieces[k],
            forall|k: int| 0 <= k < i && k < lines.len() ==> !crate::scheduler::has_prefix(
                trim_start_seq(#[trigger] lines[k]),
                "version "@,
            ),
        decreases n - i,
    {
        let part = &parts[i];
        let line: Vec<char>;
        if i + 1 < n {
            if part.len() > 0 && part[part.len() - 1] == '\r' {
                line = slice_chars(part, 0, part.len() - 1);
                assert(line@ =~= part@.drop_last());
            } else {
                line = slice_chars(part, 0, part.len());
                assert(line@ =~= part@);
            }
            assert(line@ == lines[i as int]);
        } else {
            line = slice_chars(part, 0, part.len());
            assert(line@ =~= part@);
            if part.len() == 0 {
                return false;
            }
            assert(line@ == lines[i as int]);
        }
        if line_declares_version(&line) {
            return true;
        }
        i = i + 1;
    }
    false
}

/// Validates a schema source and reports its hash over the normalised text.
pub fn validate_source(source: &str, source_path: Option<&str>) -> (r: Result<SchemaReport, AppError>)
    ensures
        match schema_problem(source@) {
            Some(m) => r matches Err(e) && e.kind == ErrorKind::Validation && e.message@ == m,
            None => r matches Ok(rep) && rep.source@ == crlf_to_lf(source@) && rep.hash@ == schema_hash(
                crlf_to_lf(source@),
            ) && match source_path {
                Some(p) => rep.source_path matches Some(q) && q@ == p@,
                None => rep.source_path is None,
            },
        },
{
    let trimmed = trim_text(source);
    if trimmed.unicode_len() == 0 {
        return Err(AppError::new(ErrorKind::Validation, "`.thingd` schema is empty"));
    }
    let normalized = normalize_line_endings(source);
    if !has_version_line(normalized.as_str()) {
        return Err(AppError::new(ErrorKind::Validation, "`.thingd` schema must declare a version"));
    }
    let digest = sha256(normalized.as_str().as_bytes());
    let mut hash = owned("sha256:");
    let hex = hex_encode(&digest);
    push_text(&mut hash, hex.as_str());
    let path = match source_path {
        Some(p) => Some(owned(p)),
        None => None,
    };
    Ok(SchemaReport { hash, source_path: path, source: normalized })
}

/// A text without carriage returns, written with CRLF line endings,
/// normalises back to itself.
pub proof fn lemma_crlf_round_trip(t: Seq<char>)
    requires
        forall|i: int| 0 <= i < t.len() ==> t[i] != '\r',
    ensures
        crlf_to_lf(lf_to_crlf(t)) == t,
    decreases t.len(),
{
    if t.len() > 0 {
        let rest = t.drop_first();
        assert forall|i: int| 0 <= i < rest.len() implies rest[i] != '\r' by {
            assert(rest[i] == t[i + 1]);
        }
        lemma_crlf_round_trip(rest);
        let w = lf_to_crlf(t);
        if t[0] == '\n' {
            assert(w.skip(2) =~= lf_to_crlf(rest));
            assert(w[0] == '\r' && w[1] == '\n');
        } else {
            assert(w.drop_first() =~= lf_to_crlf(rest));
            assert(w[0] == t[0]);
        }
        assert(crlf_to_lf(w) =~= t);
    }
}

/// The hash of a schema does not depend on its line endings: a schema text
/// without carriage returns and the same text with CRLF line endings
/// normalise to the same text, and so are reported with the same hash.
pub proof fn lemma_hash_ignores_line_endings(t: Seq<char>)
    requires
        forall|i: int| 0 <= i < t.len() ==> t[i] != '\r',
    ensures
        crlf_to_lf(lf_to_crlf(t)) == crlf_to_lf(t),
        schema_hash(crlf_to_lf(lf_to_crlf(t))) == schema_hash(crlf_to_lf(t)),
{
    lemma_crlf_round_trip(t);
    lemma_no_cr_fixed(t);
}

/// A text without carriage returns is left as it is.
pub proof fn lemma_no_cr_fixed(t: Seq<char>)
    requires
        forall|i: int| 0 <= i < t.len() ==> t[i] != '\r',
    ensures
        crlf_to_lf(t) == t,
    decreases t.len(),
{
    if t.len() > 0 {
        let rest = t.drop_first();
        assert forall|i: int| 0 <= i < rest.len() implies rest[i] != '\r' by {
            assert(rest[i] == t[i + 1]);
        }
        lemma_no_cr_fixed(rest);
        assert(crlf_to_lf(t) =~= t);
    }
}

} // verus!

verus! {

/// A line declares a version: after its leading white space it starts with
/// `version `.
pub open spec fn line_declares_version_spec(line: Seq<char>) -> bool {
    crate::scheduler::has_prefix(trim_start_seq(line), "version "@)
}

/// A text that starts with the line `first` (before its line feed, a
/// carriage return at its end not counted) declares a version exactly when
/// that line does or the rest of the text does: every line is looked at,
/// not only the first.
pub proof fn lemma_version_in_any_line(first: Seq<char>, rest: Seq<char>)
    requires
        !first.contains('\n'),
    ensures
        declares_version(first + seq!['\n'] + rest) <==> (line_declares_version_spec(
            crate::oenv::strip_cr(first),
        ) || declares_version(rest)),
{
    let text = first + seq!['\n'] + rest;
    assert forall|j: int| 0 <= j < first.len() implies text[j] != '\n' by {
        assert(text[j] == first[j]);
        if first[j] == '\n' {
            assert(first.contains('\n'));
        }
    }
    crate::text::lemma_first_index_is(text, '\n', first.len() as int);
    assert(text.subrange(0, first.len() as int) =~= first);
    assert(text.subrange(first.len() as int + 1, text.len() as int) =~= rest);
    crate::oenv::lemma_split_nonempty(rest, '\n');
    let parts = split_seq(text, '\n');
    let rparts = split_seq(rest, '\n');
    assert(parts =~= seq![first] + rparts);
    let lines = lines_seq(text);
    let rlines = lines_seq(rest);
    assert(parts.drop_last() =~= seq![first] + rparts.drop_last());
    assert(parts.last() == rparts.last());
    assert(lines =~= seq![crate::oenv::strip_cr(first)] + rlines);
    if declares_version(text) {
        let k = choose|k: int| 0 <= k < lines.len() && crate::scheduler::has_prefix(
            trim_start_seq(#[trigger] lines[k]),
            "version "@,
        );
        if k > 0 {
            assert(lines[k] == rlines[k - 1]);
        }
    }
    if declares_version(rest) {
        let k = choose|k: int| 0 <= k < rlines.len() && crate::scheduler::has_prefix(
            trim_start_seq(#[trigger] rlines[k]),
            "version "@,
        );
        assert(lines[k + 1] == rlines[k]);
    }
    if line_declares_version_spec(crate::oenv::strip_cr(first)) {
        assert(lines[0] == crate::oenv::strip_cr(first));
    }
}

} // verus!
