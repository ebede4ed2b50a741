//! The rules of a migration from an embedded Thingd store to a Thingd HTTP
//! server: option checks, the snapshot spool's name and line format, the
//! checks on the destination's snapshot stream, and the report.
use vstd::prelude::*;
use crate::parse::{decimal_seq, push_decimal, trim_seq, trim_text};
use crate::text::{chars_of, owned, push_text, slice_chars, string_of};

verus! {

/// Objects, events or jobs read per page of the source.
pub const DEFAULT_BATCH_SIZE: usize = 100;

/// Settings of one migration.
#[derive(Debug, Clone)]
pub struct ThingdMigrationOptions {
    pub source_path: String,
    pub destination_url: String,
    pub destination_auth_token: Option<String>,
    pub dry_run: bool,
    pub resume: bool,
    pub include_replication: bool,
    pub batch_size: usize,
    /// Where the resumable JSONL spool is kept, if not beside the source.
    pub snapshot_path: Option<String>,
    /// Hex-encoded encryption key of an encrypted source.
    pub source_encryption_key: Option<String>,
}

impl Default for ThingdMigrationOptions {
    fn default() -> (r: Self)
        ensures
            r.source_path@.len() == 0,
            r.destination_url@.len() == 0,
            r.destination_auth_token is None,
            !r.dry_run,
            !r.resume,
            !r.include_replication,
            r.batch_size == 100,
            r.snapshot_path is None,
            r.source_encryption_key is None,
    {
        proof {
            reveal_strlit("");
        }
        ThingdMigrationOptions {
            source_path: owned(""),
            destination_url: owned(""),
            destination_auth_token: None,
            dry_run: false,
            resume: false,
            include_replication: false,
            batch_size: DEFAULT_BATCH_SIZE,
            snapshot_path: None,
            source_encryption_key: None,
        }
    }
}

/// Counts and settings reported by a migration.
#[derive(Debug, Clone, PartialEq, Eq)]
pub struct MigrationReport {
    pub objects: u64,
    pub events: u64,
    pub jobs: u64,
    pub indexes: u64,
    pub records: u64,
    pub dry_run: bool,
    pub resumed: bool,
    pub snapshot_path: Option<String>,
}

impl Default for MigrationReport {
    fn default() -> (r: Self)
        ensures
            r.objects == 0 && r.events == 0 && r.jobs == 0 && r.indexes == 0 && r.records == 0,
            !r.dry_run && !r.resumed && r.snapshot_path is None,
    {
        MigrationReport {
            objects: 0,
            events: 0,
            jobs: 0,
            indexes: 0,
            records: 0,
            dry_run: false,
            resumed: false,
            snapshot_path: None,
        }
    }
}

/// Why a migration stopped.
#[derive(Debug)]
pub enum MigrationError {
    MissingSource(String),
    InvalidSource(String),
    MissingDestination,
    NonEmptyDestination,
    /// The destination answered with a failure: its status code, the
    /// status as displayed (code and reason) and the response body.
    Destination { status: u16, status_text: String, message: String },
    Network(String),
    Io(String),
    MalformedRecord { record: u64, message: String },
    Thingd { kind: String, identifier: String, message: String },
    Encryption(String),
}

/// The display form of a migration error.
pub open spec fn migration_error_text(e: MigrationError) -> Seq<char> {
    match e {
        MigrationError::MissingSource(p) => "source path does not exist: "@ + p@,
        MigrationError::InvalidSource(m) => "source store is invalid or incompatible: "@ + m@,
        MigrationError::MissingDestination => "destination URL is required"@,
        MigrationError::NonEmptyDestination => "destination is not empty; migration requires an empty destination"@,
        MigrationError::Destination { status, status_text, message } => "destination request failed ("@ + status_text@
            + "): "@ + message@,
        MigrationError::Network(m) => "network interruption: "@ + m@,
        MigrationError::Io(m) => "migration snapshot I/O failed: "@ + m@,
        MigrationError::MalformedRecord { record, message } => "malformed migration record "@ + decimal_seq(
            record as nat,
        ) + ": "@ + message@,
        MigrationError::Thingd { kind, identifier, message } => "Thingd migration failed for "@ + kind@ + " "@
            + identifier@ + ": "@ + message@,
        MigrationError::Encryption(m) => "source encryption key is invalid: "@ + m@,
    }
}

impl MigrationError {
    /// The display form of the error.
    pub fn message(&self) -> (r: String)
        ensures
            r@ == migration_error_text(*self),
    {
        match self {
            MigrationError::MissingSource(p) => {
                let mut t = owned("source path does not exist: ");
                push_text(&mut t, p.as_str());
                t
            },
            MigrationError::InvalidSource(m) => {
                let mut t = owned("source store is invalid or incompatible: ");
                push_text(&mut t, m.as_str());
                t
            },
            MigrationError::MissingDestination => owned("destination URL is required"),
            MigrationError::NonEmptyDestination => owned(
                "destination is not empty; migration requires an empty destination",
            ),
            MigrationError::Destination { status, status_text, message } => {
                let mut t = owned("destination request failed (");
                push_text(&mut t, status_text.as_str());
                push_text(&mut t, "): ");
                push_text(&mut t, message.as_str());
                t
            },
            MigrationError::Network(m) => {
                let mut t = owned("network interruption: ");
                push_text(&mut t, m.as_str());
                t
            },
            MigrationError::Io(m) => {
                let mut t = owned("migration snapshot I/O failed: ");
                push_text(&mut t, m.as_str());
                t
            },
            MigrationError::MalformedRecord { record, message } => {
                let mut t = owned("malformed migration record ");
                push_decimal(&mut t, *record);
                push_text(&mut t, ": ");
                push_text(&mut t, message.as_str());
                t
            },
            MigrationError::Thingd { kind, identifier, message } => {
                let mut t = owned("Thingd migration failed for ");
                push_text(&mut t, kind.as_str());
                push_text(&mut t, " ");
                push_text(&mut t, identifier.as_str());
                push_text(&mut t, ": ");
                push_text(&mut t, message.as_str());
                t
            },
            MigrationError::Encryption(m) => {
                let mut t = owned("source encryption key is invalid: ");
                push_text(&mut t, m.as_str());
                t
            },
        }
    }
}

/// The error of a failed Thingd store operation on `kind` (the kind also
/// names the item).
pub fn thingd_error(kind: &str, message: &str) -> (r: MigrationError)
    ensures
        r matches MigrationError::Thingd { kind: k, identifier: i, message: m } && k@ == kind@ && i@ == kind@ && m@
            == message@,
{
    MigrationError::Thingd { kind: owned(kind), identifier: owned(kind), message: owned(message) }
}

/// The error of a failed Thingd store operation on the item `identifier`
/// of `kind`.
pub fn thingd_error_with_id(kind: &str, identifier: &str, message: &str) -> (r: MigrationError)
    ensures
        r matches MigrationError::Thingd { kind: k, identifier: i, message: m } && k@ == kind@ && i@ == identifier@
            && m@ == message@,
{
    MigrationError::Thingd { kind: owned(kind), identifier: owned(identifier), message: owned(message) }
}

/// Checks the options of a migration, given whether the source path
/// exists: the source must exist and the destination must be named. The
/// checked options read at least one item per page.
pub fn validate_options(options: &ThingdMigrationOptions, source_exists: bool) -> (r: Result<ThingdMigrationOptions, MigrationError>)
    ensures
        !source_exists ==> (r matches Err(MigrationError::MissingSource(p)) && p@ == options.source_path@),
        source_exists && trim_seq(options.destination_url@).len() == 0 ==> r matches Err(
            MigrationError::MissingDestination,
        ),
        source_exists && trim_seq(options.destination_url@).len() > 0 ==> (r matches Ok(o) && o.batch_size == (
        if options.batch_size == 0 {
            1
        } else {
            options.batch_size
        }) && o.source_path == options.source_path && o.destination_url == options.destination_url
            && o.destination_auth_token == options.destination_auth_token && o.dry_run == options.dry_run
            && o.resume == options.resume && o.include_replication == options.include_replication
            && o.snapshot_path == options.snapshot_path && o.source_encryption_key
            == options.source_encryption_key),
{
    if !source_exists {
        return Err(MigrationError::MissingSource(options.source_path.clone()));
    }
    let url = trim_text(options.destination_url.as_str());
    if url.unicode_len() == 0 {
        return Err(MigrationError::MissingDestination);
    }
    Ok(
        ThingdMigrationOptions {
            source_path: options.source_path.clone(),
            destination_url: options.destination_url.clone(),
            destination_auth_token: options.destination_auth_token.clone(),
            dry_run: options.dry_run,
            resume: options.resume,
            include_replication: options.include_replication,
            batch_size: if options.batch_size == 0 { 1 } else { options.batch_size },
            snapshot_path: options.snapshot_path.clone(),
            source_encryption_key: options.source_encryption_key.clone(),
        },
    )
}

/// The path `path` with its extension replaced by `extension`, as
/// `std::path::Path::with_extension` forms it.
pub uninterp spec fn path_with_extension(path: Seq<char>, extension: Seq<char>) -> Seq<char>;

/// Replaces a path's extension with `Path::with_extension`. Claimed: the
/// result is `path_with_extension(path, extension)`. The std function panics
/// when the extension holds a path separator, so such an extension is not
/// admitted.
#[verifier::external_body]
fn with_extension(path: &str, extension: &str) -> (r: String)
    requires
        !extension@.contains('/'),
        !extension@.contains('\\'),
    ensures
        r@ == path_with_extension(path@, extension@),
{
    std::path::Path::new(path).with_extension(extension).to_string_lossy().into_owned()
}

/// Where the snapshot spool is kept: the given path, else the source path
/// with the extension `arqen-migration.jsonl`.
pub fn snapshot_path(options: &ThingdMigrationOptions) -> (r: String)
    ensures
        match options.snapshot_path {
            Some(p) => r == p,
            None => r@ == path_with_extension(options.source_path@, "arqen-migration.jsonl"@),
        },
{
    match &options.snapshot_path {
        Some(p) => p.clone(),
        None => {
            let extension = "arqen-migration.jsonl";
            proof {
                reveal_strlit("arqen-migration.jsonl");
                assert(!extension@.contains('/'));
                assert(!extension@.contains('\\'));
            }
            with_extension(options.source_path.as_str(), extension)
        },
    }
}

/// `s` without any trailing `c`.
pub open spec fn trim_end_char(s: Seq<char>, c: char) -> Seq<char>
    decreases s.len(),
{
    if s.len() > 0 && s.last() == c {
        trim_end_char(s.drop_last(), c)
    } else {
        s
    }
}

/// `s` ends with `/v1`.
pub open spec fn ends_with_version(s: Seq<char>) -> bool {
    s.len() >= 3 && s[s.len() - 3] == '/' && s[s.len() - 2] == 'v' && s[s.len() - 1] == '1'
}

/// `s` without any trailing repetitions of `/v1`.
pub open spec fn trim_end_version(s: Seq<char>) -> Seq<char>
    decreases s.len(),
{
    if ends_with_version(s) {
        trim_end_version(s.take(s.len() - 3))
    } else {
        s
    }
}

/// The server address of a destination URL: without trailing slashes, then
/// without trailing `/v1`.
pub open spec fn base_url_spec(url: Seq<char>) -> Seq<char> {
    trim_end_version(trim_end_char(url, '/'))
}

/// The server address of a destination URL.
pub fn base_url(url: &str) -> (r: String)
    ensures
        r@ == base_url_spec(url@),
{
    let v = chars_of(url);
    let mut n: usize = v.len();
    assert(v@.take(v.len() as int) =~= v@);
    while n > 0 && v[n - 1] == '/'
        invariant
            n <= v.len(),
            trim_end_char(v@.take(n as int), '/') == trim_end_char(v@, '/'),
        decreases n,
    {
        assert(v@.take(n as int).drop_last() =~= v@.take(n - 1));
        n = n - 1;
    }
    assert(trim_end_char(v@.take(n as int), '/') == v@.take(n as int)) by {
        assert(v@.take(n as int).len() == n);
        if n > 0 {
            assert(v@.take(n as int).last() == v@[n - 1]);
        }
    }
    while n >= 3 && v[n - 3] == '/' && v[n - 2] == 'v' && v[n - 1] == '1'
        invariant
            n <= v.len(),
            trim_end_version(v@.take(n as int)) == trim_end_version(trim_end_char(v@, '/')),
        decreases n,
    {
        let ghost t = v@.take(n as int);
        assert(ends_with_version(t));
        assert(t.take(t.len() - 3) =~= v@.take(n - 3));
        n = n - 3;
    }
    assert(trim_end_version(v@.take(n as int)) == v@.take(n as int)) by {
        let t = v@.take(n as int);
        if n >= 3 {
            assert(t[n - 3] == v@[n - 3] && t[n - 2] == v@[n - 2] && t[n - 1] == v@[n - 1]);
        }
    }
    let kept = slice_chars(&v, 0, n);
    assert(kept@ =~= v@.take(n as int));
    string_of(&kept)
}

/// The destination's address for `route` (such as `/v1/snapshot`).
pub fn endpoint(url: &str, route: &str) -> (r: String)
    ensures
        r@ == base_url_spec(url@) + route@,
{
    let mut t = base_url(url);
    push_text(&mut t, route);
    t
}

/// The string field `field` of the JSON value that `bytes` hold, as
/// serde_json reads it: `None` when the value has no such string field, an
/// error message when the bytes are not JSON.
pub uninterp spec fn json_text_field(bytes: Seq<u8>, field: Seq<char>) -> Result<Option<Seq<char>>, Seq<char>>;

/// Reads a string field of a JSON value with `serde_json::from_slice`,
/// indexing and `Value::as_str`. Claimed: the outcome is
/// `json_text_field(bytes, field)`, an error carried as serde_json's
/// message.
#[verifier::external_body]
fn read_json_text_field(bytes: &[u8], field: &str) -> (r: Result<Option<String>, String>)
    ensures
        match r {
            Ok(Some(t)) => json_text_field(bytes@, field@) == Ok::<Option<Seq<char>>, Seq<char>>(Some(t@)),
            Ok(None) => json_text_field(bytes@, field@) == Ok::<Option<Seq<char>>, Seq<char>>(None),
            Err(m) => json_text_field(bytes@, field@) == Err::<Option<Seq<char>>, Seq<char>>(m@),
        },
{
    match serde_json::from_slice::<serde_json::Value>(bytes) {
        Ok(v) => match v[field].as_str() {
            Some(t) => Ok(Some(t.to_string())),
            None => Ok(None),
        },
        Err(e) => Err(e.to_string()),
    }
}

/// Whether a JSON line is the header of a version `2.0.0` snapshot.
pub open spec fn is_header(bytes: Seq<u8>) -> bool {
    json_text_field(bytes, "type"@) == Ok::<Option<Seq<char>>, Seq<char>>(Some("thingd.snapshot"@))
        && json_text_field(bytes, "version"@) == Ok::<Option<Seq<char>>, Seq<char>>(Some("2.0.0"@))
}

fn header_check(bytes: &[u8]) -> (r: Result<bool, String>)
    ensures
        match json_text_field(bytes@, "type"@) {
            Err(m) => r matches Err(e) && e@ == m,
            Ok(_) => r == Ok::<bool, String>(is_header(bytes@)),
        },
{
    proof {
        reveal_strlit("thingd.snapshot");
        reveal_strlit("2.0.0");
    }
    match read_json_text_field(bytes, "type") {
        Err(m) => Err(m),
        Ok(t) => {
            let type_ok = match &t {
                Some(x) => crate::text::text_eq(x.as_str(), "thingd.snapshot"),
                None => false,
            };
            if !type_ok {
                return Ok(false);
            }
            let version_ok = match read_json_text_field(bytes, "version") {
                Ok(Some(x)) => crate::text::text_eq(x.as_str(), "2.0.0"),
                _ => false,
            };
            Ok(version_ok)
        },
    }
}

/// Whether the first line of a spool is the header of a version `2.0.0`
/// snapshot; a line that is not JSON is malformed record 0.
pub fn valid_snapshot_header(first_line: &str) -> (r: Result<bool, MigrationError>)
    ensures
        match json_text_field(vstd::utf8::encode_utf8(first_line@), "type"@) {
            Err(m) => r matches Err(MigrationError::MalformedRecord { record, message }) && record == 0
                && message@ == m,
            Ok(_) => r matches Ok(b) && b == is_header(vstd::utf8::encode_utf8(first_line@)),
        },
{
    match header_check(first_line.as_bytes()) {
        Ok(b) => Ok(b),
        Err(m) => Err(MigrationError::MalformedRecord { record: 0, message: m }),
    }
}

/// What counting the lines of a spool yields so far.
pub enum SnapshotCount {
    Counts(nat, nat, nat),
    Malformed(int, Seq<char>),
}

/// Counts the object, event and job records among the first `n` lines of a
/// spool; blank lines and the header are skipped, and the first line that
/// is not JSON, has no type or has an unknown type stops the count.
pub open spec fn count_lines(lines: Seq<String>, n: int) -> SnapshotCount
    decreases n,
{
    if n <= 0 {
        SnapshotCount::Counts(0, 0, 0)
    } else {
        match count_lines(lines, n - 1) {
            SnapshotCount::Malformed(k, m) => SnapshotCount::Malformed(k, m),
            SnapshotCount::Counts(o, e, j) => {
                let line = lines[n - 1]@;
                if trim_seq(line).len() == 0 {
                    SnapshotCount::Counts(o, e, j)
                } else {
                    match json_text_field(vstd::utf8::encode_utf8(line), "type"@) {
                        Err(m) => SnapshotCount::Malformed(n - 1, m),
                        Ok(None) => SnapshotCount::Malformed(n - 1, "missing record type"@),
                        Ok(Some(t)) => if t == "object"@ {
                            SnapshotCount::Counts(o + 1, e, j)
                        } else if t == "event"@ {
                            SnapshotCount::Counts(o, e + 1, j)
                        } else if t == "queue"@ {
                            SnapshotCount::Counts(o, e, j + 1)
                        } else if t == "thingd.snapshot"@ {
                            SnapshotCount::Counts(o, e, j)
                        } else {
                            SnapshotCount::Malformed(n - 1, "unsupported snapshot record type '"@ + t + "'"@)
                        },
                    }
                }
            },
        }
    }
}

proof fn lemma_malformed_persists(lines: Seq<String>, n: int, m: int)
    requires
        0 <= n <= m,
        count_lines(lines, n) is Malformed,
    ensures
        count_lines(lines, m) == count_lines(lines, n),
    decreases m - n,
{
    if m > n {
        lemma_malformed_persists(lines, n, m - 1);
    }
}

proof fn lemma_counts_bounded(lines: Seq<String>, n: int)
    requires
        0 <= n <= lines.len(),
    ensures
        count_lines(lines, n) matches SnapshotCount::Counts(o, e, j) ==> o + e + j <= n,
    decreases n,
{
    if n > 0 {
        lemma_counts_bounded(lines, n - 1);
    }
}

/// Counts the records of a spool from its lines.
pub fn count_snapshot(lines: &Vec<String>) -> (r: Result<MigrationReport, MigrationError>)
    ensures
        match count_lines(lines@, lines@.len() as int) {
            SnapshotCount::Counts(o, e, j) => r matches Ok(rep) && rep.objects == o && rep.events == e && rep.jobs
                == j && rep.records == o + e + j && rep.indexes == 0 && !rep.dry_run && !rep.resumed
                && rep.snapshot_path is None,
            SnapshotCount::Malformed(k, m) => r matches Err(MigrationError::MalformedRecord { record, message })
                && record == k && message@ == m,
        },
{
    let mut objects: u64 = 0;
    let mut events: u64 = 0;
    let mut jobs: u64 = 0;
    let mut i: usize = 0;
    proof {
        reveal_strlit("object");
        reveal_strlit("event");
        reveal_strlit("queue");
        reveal_strlit("thingd.snapshot");
    }
    while i < lines.len()
        invariant
            i <= lines@.len(),
            count_lines(lines@, i as int) == SnapshotCount::Counts(objects as nat, events as nat, jobs as nat),
        decreases lines@.len() - i,
    {
        proof {
            lemma_counts_bounded(lines@, i as int);
        }
        let line = lines[i].as_str();
        let trimmed = trim_text(line);
        if trimmed.unicode_len() > 0 {
            match read_json_text_field(line.as_bytes(), "type") {
                Err(m) => {
                    proof {
                        lemma_malformed_persists(lines@, i + 1, lines@.len() as int);
                    }
                    return Err(MigrationError::MalformedRecord { record: i as u64, message: m });
                },
                Ok(None) => {
                    proof {
                        lemma_malformed_persists(lines@, i + 1, lines@.len() as int);
                    }
                    return Err(MigrationError::MalformedRecord { record: i as u64, message: owned("missing record type") });
                },
                Ok(Some(t)) => {
                    if crate::text::text_eq(t.as_str(), "object") {
                        objects = objects + 1;
                    } else if crate::text::text_eq(t.as_str(), "event") {
                        events = events + 1;
                    } else if crate::text::text_eq(t.as_str(), "queue") {
                        jobs = jobs + 1;
                    } else if !crate::text::text_eq(t.as_str(), "thingd.snapshot") {
                        let mut m = owned("unsupported snapshot record type '");
                        push_text(&mut m, t.as_str());
                        push_text(&mut m, "'");
                        proof {
                            lemma_malformed_persists(lines@, i + 1, lines@.len() as int);
                        }
                        return Err(MigrationError::MalformedRecord { record: i as u64, message: m });
                    }
                },
            }
        }
        i = i + 1;
    }
    proof {
        lemma_counts_bounded(lines@, i as int);
    }
    Ok(
        MigrationReport {
            objects,
            events,
            jobs,
            indexes: 0,
            records: objects + events + jobs,
            dry_run: false,
            resumed: false,
            snapshot_path: None,
        },
    )
}

/// A byte that `u8::is_ascii_whitespace` accepts: space, tab, line feed,
/// form feed or carriage return.
pub open spec fn is_ascii_ws(b: u8) -> bool {
    b == 0x20 || b == 0x09 || b == 0x0a || b == 0x0c || b == 0x0d
}

/// The state of reading the destination's snapshot stream line by line: it
/// must start with a version `2.0.0` header, and an empty destination sends
/// nothing after it but error records.
#[derive(Debug, Clone, Copy)]
pub struct DestinationScan {
    pub header_seen: bool,
}

impl DestinationScan {
    pub fn new() -> (r: Self)
        ensures
            !r.header_seen,
    {
        DestinationScan { header_seen: false }
    }

    /// Reads one line of the stream.
    pub fn on_line(&mut self, line: &[u8]) -> (r: Result<(), MigrationError>)
        ensures
            (forall|i: int| 0 <= i < line@.len() ==> is_ascii_ws(#[trigger] line@[i])) ==> (r is Ok && *final(self)
                == *old(self)),
            !(forall|i: int| 0 <= i < line@.len() ==> is_ascii_ws(#[trigger] line@[i])) ==> match json_text_field(
                line@,
                "type"@,
            ) {
                Err(m) => r matches Err(MigrationError::MalformedRecord { record, message }) && record == 0
                    && message@ == m,
                Ok(t) => if !old(self).header_seen {
                    if is_header(line@) {
                        r is Ok && final(self).header_seen
                    } else {
                        r matches Err(MigrationError::InvalidSource(m)) && m@
                            == "destination does not support Thingd snapshot 2.0.0"@
                    }
                } else if t == Some("error"@) {
                    r is Ok && final(self).header_seen
                } else {
                    r matches Err(MigrationError::NonEmptyDestination)
                },
            },
    {
        let mut i: usize = 0;
        let mut blank = true;
        while i < line.len()
            invariant
                i <= line@.len(),
                blank == forall|j: int| 0 <= j < i ==> is_ascii_ws(#[trigger] line@[j]),
            decreases line@.len() - i,
        {
            let b = line[i];
            if !(b == 0x20 || b == 0x09 || b == 0x0a || b == 0x0c || b == 0x0d) {
                blank = false;
            }
            i = i + 1;
        }
        if blank {
            return Ok(());
        }
        proof {
            reveal_strlit("error");
        }
        match header_check(line) {
            Err(m) => Err(MigrationError::MalformedRecord { record: 0, message: m }),
            Ok(header) => {
                if !self.header_seen {
                    if header {
                        self.header_seen = true;
                        Ok(())
                    } else {
                        Err(MigrationError::InvalidSource(owned("destination does not support Thingd snapshot 2.0.0")))
                    }
                } else {
                    let t = read_json_text_field(line, "type");
                    match t {
                        Ok(Some(x)) => if crate::text::text_eq(x.as_str(), "error") {
                            Ok(())
                        } else {
                            Err(MigrationError::NonEmptyDestination)
                        },
                        _ => Err(MigrationError::NonEmptyDestination),
                    }
                }
            },
        }
    }

    /// The end of the stream: a stream without a header is refused.
    pub fn finish(&self) -> (r: Result<(), MigrationError>)
        ensures
            self.header_seen ==> r is Ok,
            !self.header_seen ==> (r matches Err(MigrationError::InvalidSource(m)) && m@
                == "destination snapshot is missing its header"@),
    {
        if self.header_seen {
            Ok(())
        } else {
            Err(MigrationError::InvalidSource(owned("destination snapshot is missing its header")))
        }
    }
}

/// No byte of `s` is a line feed.
pub open spec fn no_newline(s: Seq<u8>) -> bool {
    forall|i: int| 0 <= i < s.len() ==> #[trigger] s[i] != 0x0a
}

/// The concatenation of some byte lines.
pub open spec fn concat_lines(lines: Seq<Vec<u8>>) -> Seq<u8>
    decreases lines.len(),
{
    if lines.len() == 0 {
        Seq::empty()
    } else {
        concat_lines(lines.drop_last()) + lines.last()@
    }
}

/// Appends a received chunk to the pending bytes and takes out every
/// complete line, each with its line feed; what follows the last line feed
/// stays pending.
pub fn take_lines(pending: &mut Vec<u8>, chunk: &[u8]) -> (r: Vec<Vec<u8>>)
    requires
        no_newline(old(pending)@),
    ensures
        concat_lines(r@) + final(pending)@ == old(pending)@ + chunk@,
        no_newline(final(pending)@),
        forall|k: int| 0 <= k < r@.len() ==> {
            &&& (#[trigger] r@[k])@.len() > 0
            &&& r@[k]@.last() == 0x0a
            &&& no_newline(r@[k]@.drop_last())
        },
{
    let mut out: Vec<Vec<u8>> = Vec::new();
    let mut current: Vec<u8> = Vec::new();
    let mut i: usize = 0;
    while i < pending.len()
        invariant
            i <= pending@.len(),
            current@ == pending@.take(i as int),
            pending@ == old(pending)@,
        decreases pending@.len() - i,
    {
        current.push(pending[i]);
        assert(current@ =~= pending@.take(i + 1));
        i = i + 1;
    }
    assert(pending@.take(i as int) =~= pending@);
    let mut j: usize = 0;
    while j < chunk.len()
        invariant
            j <= chunk@.len(),
            no_newline(current@),
            concat_lines(out@) + current@ == old(pending)@ + chunk@.take(j as int),
            forall|k: int| 0 <= k < out@.len() ==> {
                &&& (#[trigger] out@[k])@.len() > 0
                &&& out@[k]@.last() == 0x0a
                &&& no_newline(out@[k]@.drop_last())
            },
        decreases chunk@.len() - j,
    {
        let b = chunk[j];
        let ghost before = current@;
        current.push(b);
        assert(chunk@.take(j + 1) =~= chunk@.take(j as int).push(b));
        assert((concat_lines(out@) + before).push(b) =~= concat_lines(out@) + before.push(b));
        assert((old(pending)@ + chunk@.take(j as int)).push(b) =~= old(pending)@ + chunk@.take(j as int).push(b));
        assert(concat_lines(out@) + current@ =~= old(pending)@ + chunk@.take(j + 1));
        if b == 0x0a {
            let line = current;
            current = Vec::new();
            let ghost prev = out@;
            out.push(line);
            proof {
                assert(out@.drop_last() =~= prev);
                assert(line@.drop_last() =~= before);
                assert(concat_lines(out@) + current@ =~= concat_lines(prev) + line@);
            }
        }
        j = j + 1;
    }
    assert(chunk@.take(j as int) =~= chunk@);
    *pending = current;
    out
}

/// Takes the destination's counts of an import into the report: each count
/// that the destination sent replaces the one counted locally.
pub fn apply_import_counts(
    report: &mut MigrationReport,
    records: Option<u64>,
    objects: Option<u64>,
    events: Option<u64>,
    queues: Option<u64>,
)
    ensures
        final(report).records == (match records { Some(v) => v, None => old(report).records }),
        final(report).objects == (match objects { Some(v) => v, None => old(report).objects }),
        final(report).events == (match events { Some(v) => v, None => old(report).events }),
        final(report).jobs == (match queues { Some(v) => v, None => old(report).jobs }),
        final(report).indexes == old(report).indexes,
        final(report).dry_run == old(report).dry_run,
        final(report).resumed == old(report).resumed,
        final(report).snapshot_path == old(report).snapshot_path,
{
    if let Some(v) = records {
        report.records = v;
    }
    if let Some(v) = objects {
        report.objects = v;
    }
    if let Some(v) = events {
        report.events = v;
    }
    if let Some(v) = queues {
        report.jobs = v;
    }
}

/// A source collection or queue is copied unless it is one of Thingd's own
/// replication ones (`__thingd…`) and those were not asked for.
pub fn copies_named(include_replication: bool, name: &str) -> (r: bool)
    ensures
        r == (include_replication || !crate::scheduler::has_prefix(name@, "__thingd"@)),
{
    if include_replication {
        return true;
    }
    let v = chars_of(name);
    let p = chars_of("__thingd");
    proof {
        reveal_strlit("__thingd");
    }
    if v.len() < p.len() {
        return true;
    }
    let head = slice_chars(&v, 0, p.len());
    assert(head@ =~= v@.take(p@.len() as int));
    !crate::text::chars_eq(&head, &p)
}

/// Paging through events stops after a short page, or when the page did
/// not move past the previous sequence number.
pub fn events_done(page_len: usize, batch_size: usize, from_sequence: u64, previous_sequence: u64) -> (r: bool)
    ensures
        r == (page_len < batch_size || from_sequence <= previous_sequence),
{
    page_len < batch_size || from_sequence <= previous_sequence
}

/// The summary line of a migration run.
pub fn summary_line(report: &MigrationReport, checked: bool) -> (r: String)
    ensures
        r@ == "Thingd migration "@ + (if checked { "checked"@ } else { "complete"@ }) + ": "@ + decimal_seq(
            report.objects as nat,
        ) + " objects, "@ + decimal_seq(report.events as nat) + " events, "@ + decimal_seq(report.jobs as nat)
            + " jobs, "@ + decimal_seq(report.indexes as nat) + " indexes"@ + match report.snapshot_path {
            Some(p) => " (snapshot: "@ + p@ + ")"@,
            None => Seq::empty(),
        },
{
    let mut t = owned("Thingd migration ");
    push_text(&mut t, if checked { "checked" } else { "complete" });
    push_text(&mut t, ": ");
    push_decimal(&mut t, report.objects);
    push_text(&mut t, " objects, ");
    push_decimal(&mut t, report.events);
    push_text(&mut t, " events, ");
    push_decimal(&mut t, report.jobs);
    push_text(&mut t, " jobs, ");
    push_decimal(&mut t, report.indexes);
    push_text(&mut t, " indexes");
    match &report.snapshot_path {
        Some(p) => {
            push_text(&mut t, " (snapshot: ");
            push_text(&mut t, p.as_str());
            push_text(&mut t, ")");
        },
        None => {},
    }
    t
}

} // verus!
