//! Secrets from open-envault's `oenv` command: its configuration, how the
//! `env` listing it prints becomes a set of secret variables, and when a
//! failure to load them is fatal.
use vstd::prelude::*;
use crate::config::{EnvVars, lookup_pairs};
use crate::error::{AppError, ErrorKind};
use crate::text::{owned, chars_of, push_text, split_chars, split_once_chars, split_once_seq, split_seq, string_of, slice_chars, lemma_first_index_bounds};

verus! {

/// Settings of the open-envault integration.
#[derive(Debug, Clone)]
pub struct OenvConfig {
    pub enabled: bool,
    pub environment: String,
    pub project_file: String,
    pub required: bool,
    pub executable: String,
}

/// The environment loaded when none is named: `dev`.
pub fn default_environment() -> (r: String)
    ensures
        r@ == "dev"@,
{
    owned("dev")
}

/// The project file looked for by default: `open-envault.yaml`.
pub fn default_project_file() -> (r: String)
    ensures
        r@ == "open-envault.yaml"@,
{
    owned("open-envault.yaml")
}

/// The command run by default: `oenv`.
pub fn default_executable() -> (r: String)
    ensures
        r@ == "oenv"@,
{
    owned("oenv")
}

impl Default for OenvConfig {
    fn default() -> (r: Self)
        ensures
            !r.enabled,
            !r.required,
            r.environment@ == "dev"@,
            r.project_file@ == "open-envault.yaml"@,
            r.executable@ == "oenv"@,
    {
        OenvConfig {
            enabled: false,
            environment: default_environment(),
            project_file: default_project_file(),
            required: false,
            executable: default_executable(),
        }
    }
}

impl OenvConfig {
    /// An enabled integration whose failure to load is fatal.
    pub fn required(environment: &str) -> (r: Self)
        ensures
            r.enabled,
            r.required,
            r.environment@ == environment@,
            r.project_file@ == "open-envault.yaml"@,
            r.executable@ == "oenv"@,
    {
        OenvConfig {
            enabled: true,
            environment: owned(environment),
            project_file: default_project_file(),
            required: true,
            executable: default_executable(),
        }
    }
}

/// A line without the carriage return that may precede its newline.
pub open spec fn strip_cr(line: Seq<char>) -> Seq<char> {
    if line.len() > 0 && line.last() == '\r' {
        line.drop_last()
    } else {
        line
    }
}

/// The lines of `text` as `str::lines` yields them: each piece that a
/// newline ends, without one carriage return before the newline, and a
/// last piece that no newline ends when it is not empty.
pub open spec fn lines_seq(text: Seq<char>) -> Seq<Seq<char>> {
    let parts = split_seq(text, '\n');
    let ended = parts.drop_last().map_values(|p: Seq<char>| strip_cr(p));
    if parts.last().len() == 0 {
        ended
    } else {
        ended.push(parts.last())
    }
}

/// The `NAME=value` pairs among `lines`, split at the first `=`; lines
/// without one are skipped.
pub open spec fn line_pairs(lines: Seq<Seq<char>>) -> Seq<(Seq<char>, Seq<char>)>
    decreases lines.len(),
{
    if lines.len() == 0 {
        Seq::empty()
    } else {
        let rest = line_pairs(lines.drop_last());
        match split_once_seq(lines.last(), '=') {
            Some(kv) => rest.push(kv),
            None => rest,
        }
    }
}

/// The variables that `pairs` set, a later pair overriding an earlier one
/// of the same name.
pub open spec fn pairs_map(pairs: Seq<(Seq<char>, Seq<char>)>) -> Map<Seq<char>, Seq<char>>
    decreases pairs.len(),
{
    if pairs.len() == 0 {
        Map::empty()
    } else {
        pairs_map(pairs.drop_last()).insert(pairs.last().0, pairs.last().1)
    }
}

/// Views of owned name/value pairs.
pub open spec fn pair_views(entries: Seq<(String, String)>) -> Seq<(Seq<char>, Seq<char>)> {
    entries.map_values(|e: (String, String)| (e.0@, e.1@))
}

/// No two pairs share a name.
pub open spec fn distinct_names(p: Seq<(Seq<char>, Seq<char>)>) -> bool {
    forall|i: int, j: int| 0 <= i < j < p.len() ==> (#[trigger] p[i]).0 != (#[trigger] p[j]).0
}

/// With distinct names, the map of the pairs holds exactly their names, each
/// with its own value.
pub proof fn lemma_pairs_map_distinct(p: Seq<(Seq<char>, Seq<char>)>, k: Seq<char>)
    requires
        distinct_names(p),
    ensures
        pairs_map(p).contains_key(k) <==> exists|i: int| 0 <= i < p.len() && (#[trigger] p[i]).0 == k,
        forall|i: int| 0 <= i < p.len() && (#[trigger] p[i]).0 == k ==> pairs_map(p)[k] == p[i].1,
    decreases p.len(),
{
    if p.len() > 0 {
        let q = p.drop_last();
        assert forall|i: int, j: int| 0 <= i < j < q.len() implies (#[trigger] q[i]).0 != (#[trigger] q[j]).0 by {
            assert(q[i] == p[i] && q[j] == p[j]);
        }
        lemma_pairs_map_distinct(q, k);
        if pairs_map(p).contains_key(k) && p.last().0 != k {
            let i = choose|i: int| 0 <= i < q.len() && (#[trigger] q[i]).0 == k;
            assert(p[i] == q[i]);
        }
        assert forall|i: int| 0 <= i < p.len() && (#[trigger] p[i]).0 == k implies pairs_map(p)[k] == p[i].1 by {
            if i < p.len() - 1 {
                assert(q[i] == p[i]);
                assert(p[i].0 != p[p.len() - 1].0);
            }
        }
        if exists|i: int| 0 <= i < p.len() && (#[trigger] p[i]).0 == k {
            let i = choose|i: int| 0 <= i < p.len() && (#[trigger] p[i]).0 == k;
            if i < p.len() - 1 {
                assert(q[i] == p[i]);
            }
        }
    }
}

/// The first pair named `k` is at `i`: `lookup_pairs` gives its value.
pub proof fn lemma_lookup_at(e: Seq<(String, String)>, k: Seq<char>, i: int)
    requires
        0 <= i < e.len(),
        e[i].0@ == k,
        forall|j: int| 0 <= j < i ==> (#[trigger] e[j]).0@ != k,
    ensures
        lookup_pairs(e, k) == Some(e[i].1@),
    decreases i,
{
    if i > 0 {
        assert forall|j: int| 0 <= j < i - 1 implies (#[trigger] e.drop_first()[j]).0@ != k by {
            assert(e.drop_first()[j] == e[j + 1]);
        }
        assert(e[0].0@ != k);
        lemma_lookup_at(e.drop_first(), k, i - 1);
    }
}

/// No pair is named `k`: `lookup_pairs` gives nothing.
pub proof fn lemma_lookup_absent(e: Seq<(String, String)>, k: Seq<char>)
    requires
        forall|j: int| 0 <= j < e.len() ==> (#[trigger] e[j]).0@ != k,
    ensures
        lookup_pairs(e, k) is None,
    decreases e.len(),
{
    if e.len() > 0 {
        assert forall|j: int| 0 <= j < e.len() - 1 implies (#[trigger] e.drop_first()[j]).0@ != k by {
            assert(e.drop_first()[j] == e[j + 1]);
        }
        assert(e[0].0@ != k);
        lemma_lookup_absent(e.drop_first(), k);
    }
}

/// Decrypted secret variables, held without a debug, display or
/// serialised form.
pub struct SecretEnvironment {
    entries: Vec<(String, String)>,
}

impl View for SecretEnvironment {
    type V = Map<Seq<char>, Seq<char>>;

    closed spec fn view(&self) -> Map<Seq<char>, Seq<char>> {
        pairs_map(pair_views(self.entries@))
    }
}

pub proof fn lemma_split_nonempty(s: Seq<char>, c: char)
    ensures
        split_seq(s, c).len() >= 1,
    decreases s.len(),
{
    lemma_first_index_bounds(s, c);
    match crate::text::first_index_of(s, c) {
        Some(i) => {
            lemma_split_nonempty(s.subrange(i + 1, s.len() as int), c);
        },
        None => {},
    }
}

impl SecretEnvironment {
    /// No two variables share a name.
    pub closed spec fn wf(&self) -> bool {
        distinct_names(pair_views(self.entries@))
    }

    /// The names of the variables.
    pub closed spec fn names(&self) -> Seq<Seq<char>> {
        self.entries@.map_values(|e: (String, String)| e.0@)
    }

    proof fn lemma_entries(&self, k: Seq<char>)
        requires
            self.wf(),
        ensures
            self@.contains_key(k) <==> exists|i: int| 0 <= i < self.entries@.len() && (#[trigger] self.entries@[i]).0@ == k,
            forall|i: int| 0 <= i < self.entries@.len() && (#[trigger] self.entries@[i]).0@ == k ==> self@[k] == self.entries@[i].1@,
            lookup_pairs(self.entries@, k) == (if self@.contains_key(k) { Some(self@[k]) } else { None }),
    {
        let p = pair_views(self.entries@);
        lemma_pairs_map_distinct(p, k);
        if exists|i: int| 0 <= i < self.entries@.len() && (#[trigger] self.entries@[i]).0@ == k {
            let i = choose|i: int| 0 <= i < self.entries@.len() && (#[trigger] self.entries@[i]).0@ == k;
            assert(p[i].0 == k);
            assert forall|j: int| 0 <= j < i implies (#[trigger] self.entries@[j]).0@ != k by {
                assert(p[j].0 != p[i].0);
            }
            lemma_lookup_at(self.entries@, k, i);
        } else {
            lemma_lookup_absent(self.entries@, k);
            if self@.contains_key(k) {
                let i = choose|i: int| 0 <= i < p.len() && (#[trigger] p[i]).0 == k;
                assert(self.entries@[i].0@ == k);
            }
        }
        assert forall|i: int| 0 <= i < self.entries@.len() && (#[trigger] self.entries@[i]).0@ == k implies self@[k]
            == self.entries@[i].1@ by {
            assert(p[i].0 == k);
        }
    }

    /// The secret environment with no variables.
    pub fn empty() -> (r: Self)
        ensures
            r.wf(),
            r@ == Map::<Seq<char>, Seq<char>>::empty(),
    {
        let r = SecretEnvironment { entries: Vec::new() };
        assert(pair_views(r.entries@) =~= Seq::empty());
        r
    }

    /// Sets a variable, replacing an earlier value of the same name.
    pub fn insert(&mut self, name: String, value: String)
        requires
            old(self).wf(),
        ensures
            final(self).wf(),
            final(self)@ == old(self)@.insert(name@, value@),
    {
        let mut i: usize = 0;
        while i < self.entries.len()
            invariant
                i <= self.entries@.len(),
                self.wf(),
                *self == *old(self),
                forall|j: int| 0 <= j < i ==> (#[trigger] self.entries@[j]).0@ != name@,
            decreases self.entries@.len() - i,
        {
            if crate::text::text_eq(self.entries[i].0.as_str(), name.as_str()) {
                let ghost before = *self;
                let ghost pb = pair_views(before.entries@);
                self.entries.set(i, (name, value));
                proof {
                    let pa = pair_views(self.entries@);
                    assert(pa =~= pb.update(i as int, (name@, value@)));
                    assert forall|a: int, b: int| 0 <= a < b < pa.len() implies (#[trigger] pa[a]).0 != (#[trigger] pa[b]).0 by {
                        assert(pb[a].0 != pb[b].0);
                    }
                    let target = before@.insert(name@, value@);
                    assert forall|k: Seq<char>| #[trigger] self@.dom().contains(k) == target.dom().contains(k)
                        && (self@.dom().contains(k) ==> self@[k] == target[k]) by {
                        self.lemma_entries(k);
                        before.lemma_entries(k);
                        if k != name@ {
                            if self@.contains_key(k) {
                                let j = choose|j: int| 0 <= j < self.entries@.len() && (#[trigger] self.entries@[j]).0@ == k;
                                assert(j != i);
                                assert(before.entries@[j] == self.entries@[j]);
                            }
                            if before@.contains_key(k) {
                                let j = choose|j: int| 0 <= j < before.entries@.len() && (#[trigger] before.entries@[j]).0@ == k;
                                assert(j != i);
                                assert(before.entries@[j] == self.entries@[j]);
                            }
                        } else {
                            assert(self.entries@[i as int].0@ == k);
                        }
                    }
                    assert(self@.dom() =~= target.dom());
                    assert(self@ =~= before@.insert(name@, value@));
                }
                return;
            }
            i = i + 1;
        }
        let ghost before = *self;
        self.entries.push((name, value));
        proof {
            before.lemma_entries(name@);
            let pa = pair_views(self.entries@);
            let pb = pair_views(before.entries@);
            assert(pa.drop_last() =~= pb);
            assert(pa.last() == (name@, value@));
            assert forall|a: int, b: int| 0 <= a < b < pa.len() implies (#[trigger] pa[a]).0 != (#[trigger] pa[b]).0 by {
                if b < pa.len() - 1 {
                    assert(pa[a] == pb[a] && pa[b] == pb[b]);
                } else {
                    assert(before.entries@[a] == self.entries@[a]);
                }
            }
        }
    }

    /// The variables of an `env` listing: each `NAME=value` line, split at
    /// the first `=`, a later line overriding an earlier one of the same
    /// name; other lines are skipped.
    pub fn from_env_output(text: &str) -> (r: Self)
        ensures
            r.wf(),
            r@ == pairs_map(line_pairs(lines_seq(text@))),
    {
        let v = chars_of(text);
        let parts = split_chars(&v, '\n');
        let ghost pieces = split_seq(v@, '\n');
        proof {
            lemma_split_nonempty(v@, '\n');
        }
        let mut env = SecretEnvironment::empty();
        let ghost mut lines: Seq<Seq<char>> = Seq::empty();
        let mut i: usize = 0;
        let n = parts.len();
        assert(pieces.take(0).map_values(|p: Seq<char>| strip_cr(p)) =~= Seq::<Seq<char>>::empty());
        assert(line_pairs(Seq::<Seq<char>>::empty()) =~= Seq::<(Seq<char>, Seq<char>)>::empty());
        while i < n
            invariant
                n == parts@.len(),
                n >= 1,
                i <= n,
                pieces == split_seq(v@, '\n'),
                v@ == text@,
                parts@.len() == pieces.len(),
                forall|k: int| 0 <= k < parts@.len() ==> #[trigger] parts@[k]@ == pieces[k],
                lines == (if i < n { pieces.take(i as int).map_values(|p: Seq<char>| strip_cr(p)) } else { lines_seq(text@) }),
                env.wf(),
                env@ == pairs_map(line_pairs(lines)),
            decreases n - i,
        {
            let part = &parts[i];
            let ghost piece = pieces[i as int];
            assert(part@ == piece);
            let line: Vec<char>;
            let keep: bool;
            if i + 1 < n {
                if part.len() > 0 && part[part.len() - 1] == '\r' {
                    line = slice_chars(part, 0, part.len() - 1);
                    assert(line@ =~= part@.drop_last());
                } else {
                    line = slice_chars(part, 0, part.len());
                    assert(line@ =~= part@);
                }
                assert(line@ == strip_cr(piece));
                keep = true;
            } else {
                line = slice_chars(part, 0, part.len());
                assert(line@ =~= part@);
                keep = part.len() > 0;
            }
            let ghost old_lines = lines;
            if keep {
                proof {
                    lines = lines.push(line@);
                    assert(lines.drop_last() =~= old_lines);
                    assert(lines.last() == line@);
                }
                match split_once_chars(&line, '=') {
                    Some((k, val)) => {
                        let ghost before = env@;
                        env.insert(string_of(&k), string_of(&val));
                        proof {
                            assert(line_pairs(lines) == line_pairs(old_lines).push((k@, val@)));
                            assert(line_pairs(lines).drop_last() =~= line_pairs(old_lines));
                        }
                    },
                    None => {
                        assert(line_pairs(lines) == line_pairs(old_lines));
                    },
                }
            }
            proof {
                if i + 1 < n {
                    assert(pieces.take(i + 1).map_values(|p: Seq<char>| strip_cr(p)) =~= old_lines.push(strip_cr(piece)));
                } else {
                    assert(pieces.drop_last() =~= pieces.take(i as int));
                    assert(pieces.last() == piece);
                }
            }
            i = i + 1;
        }
        env
    }

    /// The value of a variable, if it is set.
    pub fn get(&self, name: &str) -> (r: Option<&str>)
        requires
            self.wf(),
        ensures
            match r {
                Some(v) => self@.contains_key(name@) && self@[name@] == v@,
                None => !self@.contains_key(name@),
            },
    {
        proof {
            self.lemma_entries(name@);
        }
        let mut i: usize = 0;
        while i < self.entries.len()
            invariant
                i <= self.entries@.len(),
                self.wf(),
                forall|j: int| 0 <= j < i ==> (#[trigger] self.entries@[j]).0@ != name@,
            decreases self.entries@.len() - i,
        {
            if crate::text::text_eq(self.entries[i].0.as_str(), name) {
                assert(self.entries@[i as int].0@ == name@);
                proof {
                    self.lemma_entries(name@);
                }
                return Some(self.entries[i].1.as_str());
            }
            i = i + 1;
        }
        None
    }

    /// Adds the variables to `target`, each replacing a variable of the same
    /// name there.
    pub fn merge_into(&self, target: &mut EnvVars)
        requires
            self.wf(),
        ensures
            forall|name: Seq<char>| #[trigger] final(target).lookup(name) == (if self@.contains_key(name) {
                Some(self@[name])
            } else {
                old(target).lookup(name)
            }),
    {
        let mut vars: Vec<(String, String)> = Vec::new();
        let mut i: usize = 0;
        while i < self.entries.len()
            invariant
                i <= self.entries@.len(),
                vars@ == self.entries@.take(i as int),
            decreases self.entries@.len() - i,
        {
            let e = (self.entries[i].0.clone(), self.entries[i].1.clone());
            vars.push(e);
            assert(vars@ =~= self.entries@.take(i + 1));
            i = i + 1;
        }
        assert(self.entries@.take(i as int) =~= self.entries@);
        let mut j: usize = 0;
        while j < target.vars.len()
            invariant
                j <= target.vars@.len(),
                target == old(target),
                vars@ == self.entries@ + target.vars@.take(j as int),
            decreases target.vars@.len() - j,
        {
            let e = (target.vars[j].0.clone(), target.vars[j].1.clone());
            vars.push(e);
            assert(vars@ =~= self.entries@ + target.vars@.take(j + 1));
            j = j + 1;
        }
        let ghost old_vars = target.vars@;
        assert(old_vars.take(j as int) =~= old_vars);
        target.vars = vars;
        proof {
            assert forall|name: Seq<char>| #[trigger] target.lookup(name) == (if self@.contains_key(name) {
                Some(self@[name])
            } else {
                old(target).lookup(name)
            }) by {
                self.lemma_entries(name);
                lemma_lookup_concat(self.entries@, old_vars, name);
            }
        }
    }

    /// Number of variables.
    pub fn len(&self) -> (r: usize)
        ensures
            r == self.names().len(),
    {
        self.entries.len()
    }

    /// Whether there are no variables.
    pub fn is_empty(&self) -> (r: bool)
        ensures
            r == (self.names().len() == 0),
    {
        self.entries.len() == 0
    }
}

/// `lookup_pairs` over a concatenation looks in the first part first.
pub proof fn lemma_lookup_concat(a: Seq<(String, String)>, b: Seq<(String, String)>, name: Seq<char>)
    ensures
        lookup_pairs(a + b, name) == (if lookup_pairs(a, name) is Some {
            lookup_pairs(a, name)
        } else {
            lookup_pairs(b, name)
        }),
    decreases a.len(),
{
    if a.len() > 0 {
        assert((a + b).drop_first() =~= a.drop_first() + b);
        lemma_lookup_concat(a.drop_first(), b, name);
    } else {
        assert(a + b =~= b);
    }
}

/// Whether a secret provider can serve an environment.
#[derive(Debug, Clone)]
pub struct SecretProviderStatus {
    pub available: bool,
    pub environment: String,
    pub required: bool,
}

/// A source of secret environments.
pub trait SecretProvider {
    fn load(&self, environment: &str) -> Result<SecretEnvironment, AppError>;

    fn check(&self, environment: &str) -> Result<SecretProviderStatus, AppError>;
}

/// What running `oenv exec <environment> -- env` produced.
pub enum OenvRun {
    /// The command could not be started; the operating system's message.
    SpawnFailed(String),
    /// The command ran and reported failure.
    Failed,
    /// The command succeeded but its output is not UTF-8 text.
    NotText,
    /// The command succeeded with this `env` listing.
    Listing(String),
}

/// What running `oenv --version` produced.
pub enum OenvVersionRun {
    SpawnFailed(String),
    Failed,
    Succeeded,
}

/// The `oenv` command-line provider.
#[derive(Debug, Clone)]
pub struct OenvProvider {
    pub config: OenvConfig,
}

impl OenvProvider {
    /// A provider for the given settings.
    pub fn from_config(config: &OenvConfig) -> (r: Self)
        ensures
            r.config == *config,
    {
        OenvProvider {
            config: OenvConfig {
                enabled: config.enabled,
                environment: config.environment.clone(),
                project_file: config.project_file.clone(),
                required: config.required,
                executable: config.executable.clone(),
            },
        }
    }

    /// The arguments `oenv` is run with to print an environment:
    /// `exec <environment> -- env`.
    pub fn exec_args(&self, environment: &str) -> (r: Vec<String>)
        ensures
            r@.len() == 4,
            r@[0]@ == "exec"@,
            r@[1]@ == environment@,
            r@[2]@ == "--"@,
            r@[3]@ == "env"@,
    {
        let mut r: Vec<String> = Vec::new();
        r.push(owned("exec"));
        r.push(owned(environment));
        r.push(owned("--"));
        r.push(owned("env"));
        r
    }

    /// The secrets that a run of `oenv` yields, or the dependency error it
    /// amounts to.
    pub fn load_from(&self, run: OenvRun) -> (r: Result<SecretEnvironment, AppError>)
        ensures
            match run {
                OenvRun::SpawnFailed(m) => r matches Err(e) && e.kind == ErrorKind::Dependency && e.message@
                    == "failed to run oenv: "@ + m@,
                OenvRun::Failed => r matches Err(e) && e.kind == ErrorKind::Dependency && e.message@
                    == "oenv could not load the selected environment"@,
                OenvRun::NotText => r matches Err(e) && e.kind == ErrorKind::Dependency && e.message@
                    == "oenv returned invalid environment data"@,
                OenvRun::Listing(t) => r matches Ok(env) && env.wf() && env@ == pairs_map(
                    line_pairs(lines_seq(t@)),
                ),
            },
    {
        match run {
            OenvRun::SpawnFailed(m) => {
                let mut text = owned("failed to run oenv: ");
                push_text(&mut text, m.as_str());
                Err(AppError::from_message(ErrorKind::Dependency, text))
            },
            OenvRun::Failed => Err(AppError::new(ErrorKind::Dependency, "oenv could not load the selected environment")),
            OenvRun::NotText => Err(AppError::new(ErrorKind::Dependency, "oenv returned invalid environment data")),
            OenvRun::Listing(t) => Ok(SecretEnvironment::from_env_output(t.as_str())),
        }
    }

    /// The status that a run of `oenv --version` yields, or the dependency
    /// error it amounts to.
    pub fn check_from(&self, environment: &str, run: OenvVersionRun) -> (r: Result<SecretProviderStatus, AppError>)
        ensures
            match run {
                OenvVersionRun::SpawnFailed(m) => r matches Err(e) && e.kind == ErrorKind::Dependency && e.message@
                    == "oenv is unavailable: "@ + m@,
                OenvVersionRun::Failed => r matches Err(e) && e.kind == ErrorKind::Dependency && e.message@
                    == "oenv version check failed"@,
                OenvVersionRun::Succeeded => r matches Ok(st) && st.available && st.environment@ == environment@
                    && st.required == self.config.required,
            },
    {
        match run {
            OenvVersionRun::SpawnFailed(m) => {
                let mut text = owned("oenv is unavailable: ");
                push_text(&mut text, m.as_str());
                Err(AppError::from_message(ErrorKind::Dependency, text))
            },
            OenvVersionRun::Failed => Err(AppError::new(ErrorKind::Dependency, "oenv version check failed")),
            OenvVersionRun::Succeeded => Ok(
                SecretProviderStatus {
                    available: true,
                    environment: owned(environment),
                    required: self.config.required,
                },
            ),
        }
    }
}

/// The secrets an application starts with: none when the integration is
/// disabled; otherwise those loaded, or none when loading failed and the
/// integration is optional. `loaded` is the outcome of loading the
/// configured environment, present exactly when the integration is enabled.
pub fn load_configured(
    config: &OenvConfig,
    loaded: Option<Result<SecretEnvironment, AppError>>,
) -> (r: Result<Option<SecretEnvironment>, AppError>)
    requires
        loaded is Some <==> config.enabled,
    ensures
        !config.enabled ==> r matches Ok(None),
        config.enabled ==> match loaded {
            Some(Ok(v)) => r == Ok::<Option<SecretEnvironment>, AppError>(Some(v)),
            Some(Err(e)) => if config.required {
                r == Err::<Option<SecretEnvironment>, AppError>(e)
            } else {
                r matches Ok(None)
            },
            None => false,
        },
{
    match loaded {
        None => Ok(None),
        Some(Ok(values)) => Ok(Some(values)),
        Some(Err(error)) => if config.required {
            Err(error)
        } else {
            Ok(None)
        },
    }
}

} // verus!
