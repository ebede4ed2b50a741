//! Supervision of local development services (`arqen up`): which services
//! run, the console lines that report them, and how the supervisor reacts
//! to an interrupt or to a service that exits.
use vstd::prelude::*;
use crate::parse::{decimal_seq, push_decimal};
use crate::text::{owned, push_text};

verus! {

/// A single development service.
#[derive(Debug, Clone)]
pub struct DevService {
    /// Unique name used for logging and selection.
    pub name: String,
    /// Executable to run.
    pub command: String,
    /// Arguments passed to the executable.
    pub args: Vec<String>,
    /// Working directory of the process (the current one when absent).
    pub cwd: Option<String>,
    /// Extra environment variables of the process.
    pub env: Vec<(String, String)>,
    /// HTTP address polled until the service answers.
    pub ready_url: Option<String>,
    /// How long to poll `ready_url`, in seconds (60 when absent).
    pub ready_timeout_seconds: Option<u64>,
}

/// The `[dev]` table of a configuration file.
#[derive(Debug, Clone)]
pub struct DevSection {
    pub services: Vec<DevService>,
}

/// The development services of a configuration file.
#[derive(Debug, Clone)]
pub struct DevConfig {
    pub dev: DevSection,
}

impl Default for DevConfig {
    fn default() -> (r: Self)
        ensures
            r.dev.services@.len() == 0,
    {
        DevConfig { dev: DevSection { services: Vec::new() } }
    }
}

/// Index of the first service named `name`, if any.
pub open spec fn service_index(services: Seq<DevService>, name: Seq<char>) -> Option<int> {
    if exists|i: int| 0 <= i < services.len() && (#[trigger] services[i]).name@ == name {
        Some(
            choose|i: int|
                0 <= i < services.len() && (#[trigger] services[i]).name@ == name && forall|j: int|
                    0 <= j < i ==> (#[trigger] services[j]).name@ != name,
        )
    } else {
        None
    }
}

/// The selected names that no service has, in order.
pub open spec fn first_unknown(services: Seq<DevService>, selection: Seq<String>) -> Option<int> {
    if exists|k: int| 0 <= k < selection.len() && service_index(services, (#[trigger] selection[k])@) is None {
        Some(
            choose|k: int|
                0 <= k < selection.len() && service_index(services, (#[trigger] selection[k])@) is None
                    && forall|j: int| 0 <= j < k ==> service_index(services, (#[trigger] selection[j])@) is Some,
        )
    } else {
        None
    }
}

proof fn lemma_first_index_choice(services: Seq<DevService>, name: Seq<char>, i: int)
    requires
        0 <= i < services.len(),
        services[i].name@ == name,
        forall|j: int| 0 <= j < i ==> (#[trigger] services[j]).name@ != name,
    ensures
        service_index(services, name) == Some(i),
{
    let c = choose|c: int|
        0 <= c < services.len() && (#[trigger] services[c]).name@ == name && forall|j: int|
            0 <= j < c ==> (#[trigger] services[j]).name@ != name;
    assert(services[i].name@ == name);
    if c < i {
        assert(services[c].name@ != name);
    }
    if c > i {
        assert(services[i].name@ != name);
    }
}

proof fn lemma_first_unknown_choice(services: Seq<DevService>, selection: Seq<String>, k: int)
    requires
        0 <= k < selection.len(),
        service_index(services, selection[k]@) is None,
        forall|j: int| 0 <= j < k ==> service_index(services, (#[trigger] selection[j])@) is Some,
    ensures
        first_unknown(services, selection) == Some(k),
{
    let c = choose|c: int|
        0 <= c < selection.len() && service_index(services, (#[trigger] selection[c])@) is None && forall|j: int|
            0 <= j < c ==> service_index(services, (#[trigger] selection[j])@) is Some;
    assert(service_index(services, selection[k]@) is None);
    if c < k {
        assert(service_index(services, selection[c]@) is Some);
    }
    if c > k {
        assert(service_index(services, selection[k]@) is Some);
    }
}

fn find_service(services: &Vec<DevService>, name: &str) -> (r: Option<usize>)
    ensures
        match r {
            Some(i) => service_index(services@, name@) == Some(i as int) && i < services@.len(),
            None => service_index(services@, name@) is None,
        },
{
    let mut i: usize = 0;
    while i < services.len()
        invariant
            i <= services@.len(),
            forall|j: int| 0 <= j < i ==> (#[trigger] services@[j]).name@ != name@,
        decreases services@.len() - i,
    {
        if crate::text::text_eq(services[i].name.as_str(), name) {
            proof {
                lemma_first_index_choice(services@, name@, i as int);
            }
            return Some(i);
        }
        i = i + 1;
    }
    None
}

/// The services to run: all of them when nothing is selected, else the
/// first service of each selected name, in the order selected. An unknown
/// name is refused with `unknown dev service '<name>'`.
pub fn select_services<'a>(config: &'a DevConfig, selection: &Vec<String>) -> (r: Result<Vec<&'a DevService>, String>)
    ensures
        selection@.len() == 0 ==> (r matches Ok(v) && v@ == config.dev.services@.map_values(|s: DevService| &s)),
        selection@.len() > 0 ==> match first_unknown(config.dev.services@, selection@) {
            Some(k) => r matches Err(m) && m@ == "unknown dev service '"@ + selection@[k]@ + "'"@,
            None => r matches Ok(v) && v@.len() == selection@.len() && forall|k: int|
                0 <= k < v@.len() ==> (service_index(config.dev.services@, selection@[k]@) matches Some(i)
                    && *(#[trigger] v@[k]) == config.dev.services@[i]),
        },
{
    let services = &config.dev.services;
    if selection.len() == 0 {
        let mut all: Vec<&'a DevService> = Vec::new();
        let mut i: usize = 0;
        while i < services.len()
            invariant
                i <= services@.len(),
                services == &config.dev.services,
                all@ == services@.take(i as int).map_values(|s: DevService| &s),
            decreases services@.len() - i,
        {
            all.push(&services[i]);
            assert(all@ =~= services@.take(i + 1).map_values(|s: DevService| &s));
            i = i + 1;
        }
        assert(services@.take(i as int) =~= services@);
        return Ok(all);
    }
    let mut chosen: Vec<&'a DevService> = Vec::new();
    let mut k: usize = 0;
    while k < selection.len()
        invariant
            k <= selection@.len(),
            services == &config.dev.services,
            chosen@.len() == k,
            forall|j: int| 0 <= j < k ==> service_index(services@, (#[trigger] selection@[j])@) is Some,
            forall|j: int| 0 <= j < k ==> (service_index(services@, selection@[j]@) matches Some(i)
                && *(#[trigger] chosen@[j]) == services@[i]),
        decreases selection@.len() - k,
    {
        match find_service(services, selection[k].as_str()) {
            Some(i) => {
                chosen.push(&services[i]);
            },
            None => {
                proof {
                    lemma_first_unknown_choice(services@, selection@, k as int);
                }
                let mut m = owned("unknown dev service '");
                push_text(&mut m, selection[k].as_str());
                push_text(&mut m, "'");
                return Err(m);
            },
        }
        k = k + 1;
    }
    assert(first_unknown(services@, selection@) is None) by {
        if exists|k: int| 0 <= k < selection@.len() && service_index(services@, (#[trigger] selection@[k])@) is None {
            let k = choose|k: int| 0 <= k < selection@.len() && service_index(services@, (#[trigger] selection@[k])@) is None;
            assert(service_index(services@, selection@[k]@) is Some);
        }
    }
    Ok(chosen)
}

/// The readiness probes of the services: name, address and timeout in
/// seconds (60 when none is given), for each service with an address, in
/// order.
pub open spec fn readiness_of(services: Seq<&DevService>) -> Seq<(Seq<char>, Seq<char>, u64)>
    decreases services.len(),
{
    if services.len() == 0 {
        Seq::empty()
    } else {
        let rest = readiness_of(services.drop_last());
        let s = services.last();
        match s.ready_url {
            Some(url) => rest.push(
                (
                    s.name@,
                    url@,
                    match s.ready_timeout_seconds {
                        Some(t) => t,
                        None => 60u64,
                    },
                ),
            ),
            None => rest,
        }
    }
}

/// The readiness probes of the selected services.
pub fn readiness(services: &Vec<&DevService>) -> (r: Vec<(String, String, u64)>)
    ensures
        r@.len() == readiness_of(services@).len(),
        forall|k: int| 0 <= k < r@.len() ==> ((#[trigger] r@[k]).0@, r@[k].1@, r@[k].2) == readiness_of(services@)[k],
{
    let mut r: Vec<(String, String, u64)> = Vec::new();
    let mut i: usize = 0;
    while i < services.len()
        invariant
            i <= services@.len(),
            r@.len() == readiness_of(services@.take(i as int)).len(),
            forall|k: int| 0 <= k < r@.len() ==> ((#[trigger] r@[k]).0@, r@[k].1@, r@[k].2) == readiness_of(
                services@.take(i as int),
            )[k],
        decreases services@.len() - i,
    {
        let s = services[i];
        assert(services@.take(i + 1).drop_last() =~= services@.take(i as int));
        assert(services@.take(i + 1).last() == s);
        match &s.ready_url {
            Some(url) => {
                let t = match s.ready_timeout_seconds {
                    Some(t) => t,
                    None => 60,
                };
                r.push((owned(s.name.as_str()), owned(url.as_str()), t));
            },
            None => {},
        }
        i = i + 1;
    }
    assert(services@.take(i as int) =~= services@);
    r
}

/// The arguments of a service, separated by single spaces.
pub open spec fn spaced(args: Seq<String>) -> Seq<char>
    decreases args.len(),
{
    if args.len() == 0 {
        Seq::empty()
    } else if args.len() == 1 {
        args[0]@
    } else {
        spaced(args.drop_last()) + " "@ + args.last()@
    }
}

/// Joins the arguments of a service with single spaces.
pub fn join_args(args: &Vec<String>) -> (r: String)
    ensures
        r@ == spaced(args@),
{
    let mut t = owned("");
    proof {
        reveal_strlit("");
    }
    let mut i: usize = 0;
    while i < args.len()
        invariant
            i <= args@.len(),
            t@ == spaced(args@.take(i as int)),
        decreases args@.len() - i,
    {
        assert(args@.take(i + 1).drop_last() =~= args@.take(i as int));
        if i > 0 {
            push_text(&mut t, " ");
        }
        push_text(&mut t, args[i].as_str());
        i = i + 1;
    }
    assert(args@.take(i as int) =~= args@);
    t
}

/// Sum of the values of some bytes.
pub open spec fn byte_sum(b: Seq<u8>) -> int
    decreases b.len(),
{
    if b.len() == 0 {
        0
    } else {
        byte_sum(b.drop_last()) + b.last()
    }
}

/// The colour code of a service: one of five, chosen by the sum of the
/// bytes of its name.
pub open spec fn service_color(name: Seq<u8>) -> u8 {
    let k = byte_sum(name) % 5;
    if k == 0 {
        36
    } else if k == 1 {
        35
    } else if k == 2 {
        33
    } else if k == 3 {
        32
    } else {
        34
    }
}

/// `s` padded with spaces to at least `width` characters.
pub open spec fn pad_to(s: Seq<char>, width: nat) -> Seq<char> {
    if s.len() >= width {
        s
    } else {
        s + Seq::new((width - s.len()) as nat, |i: int| ' ')
    }
}

/// A console that colours its lines when standard output is a terminal.
#[derive(Debug, Clone, Copy)]
pub struct Console {
    pub color: bool,
}

/// `text` wrapped in the escape codes of colour `code`, when colouring.
pub open spec fn painted(color: bool, text: Seq<char>, code: u8) -> Seq<char> {
    if color {
        "\x1b["@ + decimal_seq(code as nat) + "m"@ + text + "\x1b[0m"@
    } else {
        text
    }
}

/// `text` dimmed, when colouring.
pub open spec fn dimmed(color: bool, text: Seq<char>) -> Seq<char> {
    if color {
        "\x1b[2m"@ + text + "\x1b[0m"@
    } else {
        text
    }
}

impl Console {
    /// `text` in colour `code`.
    pub fn paint(&self, text: &str, code: u8) -> (r: String)
        ensures
            r@ == painted(self.color, text@, code),
    {
        if self.color {
            let mut t = owned("\x1b[");
            push_decimal(&mut t, code as u64);
            push_text(&mut t, "m");
            push_text(&mut t, text);
            push_text(&mut t, "\x1b[0m");
            t
        } else {
            owned(text)
        }
    }

    /// `text` dimmed.
    pub fn dim(&self, text: &str) -> (r: String)
        ensures
            r@ == dimmed(self.color, text@),
    {
        if self.color {
            let mut t = owned("\x1b[2m");
            push_text(&mut t, text);
            push_text(&mut t, "\x1b[0m");
            t
        } else {
            owned(text)
        }
    }

    /// A service's name padded to twelve characters, in its colour.
    pub fn service(&self, name: &str) -> (r: String)
        ensures
            r@ == painted(self.color, pad_to(name@, 12), service_color(vstd::utf8::encode_utf8(name@))),
    {
        let bytes = name.as_bytes();
        let mut k: u8 = 0;
        let mut i: usize = 0;
        while i < bytes.len()
            invariant
                i <= bytes@.len(),
                bytes@ == vstd::utf8::encode_utf8(name@),
                k as int == byte_sum(bytes@.take(i as int)) % 5,
            decreases bytes@.len() - i,
        {
            let b = bytes[i];
            proof {
                assert(bytes@.take(i + 1).drop_last() =~= bytes@.take(i as int));
                let s = byte_sum(bytes@.take(i as int));
                vstd::arithmetic::div_mod::lemma_add_mod_noop(s, b as int, 5);
                vstd::arithmetic::div_mod::lemma_small_mod(k as nat, 5);
                vstd::arithmetic::div_mod::lemma_mod_twice(b as int, 5);
                vstd::arithmetic::div_mod::lemma_add_mod_noop(k as int, b as int, 5);
            }
            k = ((k as u16 + (b % 5) as u16) % 5) as u8;
            proof {
                vstd::arithmetic::div_mod::lemma_add_mod_noop(k as int, 0, 5);
            }
            i = i + 1;
        }
        assert(bytes@.take(i as int) =~= bytes@);
        let code: u8 = if k == 0 {
            36
        } else if k == 1 {
            35
        } else if k == 2 {
            33
        } else if k == 3 {
            32
        } else {
            34
        };
        let mut padded = owned(name);
        let n = name.unicode_len();
        if n < 12 {
            let mut j: usize = n;
            while j < 12
                invariant
                    n <= j <= 12,
                    n == name@.len(),
                    padded@ == name@ + Seq::new((j - n) as nat, |i: int| ' '),
                decreases 12 - j,
            {
                push_text(&mut padded, " ");
                proof {
                    reveal_strlit(" ");
                }
                assert(padded@ =~= name@ + Seq::new((j + 1 - n) as nat, |i: int| ' '));
                j = j + 1;
            }
        }
        self.paint(padded.as_str(), code)
    }

    /// The opening line: how many services are starting.
    pub fn header(&self, count: usize) -> (r: String)
        ensures
            r@ == painted(self.color, "◆"@, 36) + " arqen dev "@ + dimmed(self.color, ""@) + "· "@ + decimal_seq(
                count as nat,
            ) + " service"@ + (if count == 1 { ""@ } else { "s"@ }),
    {
        let mut t = self.paint("◆", 36);
        push_text(&mut t, " arqen dev ");
        let d = self.dim("");
        push_text(&mut t, d.as_str());
        push_text(&mut t, "· ");
        push_decimal(&mut t, count as u64);
        push_text(&mut t, " service");
        push_text(&mut t, if count == 1 { "" } else { "s" });
        t
    }

    /// The plan line of one service: its name, command line and working
    /// directory.
    pub fn plan(&self, name: &str, command: &str, args: &str, cwd: &str) -> (r: String)
        ensures
            r@ == "  "@ + painted(self.color, "│"@, 90) + " "@ + painted(
                self.color,
                pad_to(name@, 12),
                service_color(vstd::utf8::encode_utf8(name@)),
            ) + " "@ + (if args@.len() == 0 { command@ } else { command@ + " "@ + args@ }) + " "@ + dimmed(
                self.color,
                "· "@ + cwd@,
            ),
    {
        let mut t = owned("  ");
        let bar = self.paint("│", 90);
        push_text(&mut t, bar.as_str());
        push_text(&mut t, " ");
        let s = self.service(name);
        push_text(&mut t, s.as_str());
        push_text(&mut t, " ");
        push_text(&mut t, command);
        if args.unicode_len() > 0 {
            push_text(&mut t, " ");
            push_text(&mut t, args);
        }
        push_text(&mut t, " ");
        let mut place = owned("· ");
        push_text(&mut place, cwd);
        let d = self.dim(place.as_str());
        push_text(&mut t, d.as_str());
        t
    }

    /// The closing line of the plan.
    pub fn footer(&self) -> (r: String)
        ensures
            r@ == "  "@ + painted(self.color, "└"@, 90) + " "@ + dimmed(self.color, "Ctrl+C to stop"@),
    {
        let mut t = owned("  ");
        let corner = self.paint("└", 90);
        push_text(&mut t, corner.as_str());
        push_text(&mut t, " ");
        let d = self.dim("Ctrl+C to stop");
        push_text(&mut t, d.as_str());
        t
    }

    /// A line of a service's output, prefixed with its name.
    pub fn child_line(&self, name: &str, line: &str) -> (r: String)
        ensures
            r@ == painted(self.color, pad_to(name@, 12), service_color(vstd::utf8::encode_utf8(name@))) + " "@ + painted(
                self.color,
                "│"@,
                90,
            ) + " "@ + line@,
    {
        let mut t = self.service(name);
        push_text(&mut t, " ");
        let bar = self.paint("│", 90);
        push_text(&mut t, bar.as_str());
        push_text(&mut t, " ");
        push_text(&mut t, line);
        t
    }

    /// A message behind a coloured symbol.
    pub fn marked(&self, symbol: &str, code: u8, message: &str) -> (r: String)
        ensures
            r@ == painted(self.color, symbol@, code) + " "@ + message@,
    {
        let mut t = self.paint(symbol, code);
        push_text(&mut t, " ");
        push_text(&mut t, message);
        t
    }

    pub fn info(&self, message: &str) -> (r: String)
        ensures
            r@ == painted(self.color, "ℹ"@, 36) + " "@ + message@,
    {
        self.marked("ℹ", 36, message)
    }

    pub fn success(&self, message: &str) -> (r: String)
        ensures
            r@ == painted(self.color, "✓"@, 32) + " "@ + message@,
    {
        self.marked("✓", 32, message)
    }

    pub fn warn(&self, message: &str) -> (r: String)
        ensures
            r@ == painted(self.color, "!"@, 33) + " "@ + message@,
    {
        self.marked("!", 33, message)
    }

    pub fn error(&self, message: &str) -> (r: String)
        ensures
            r@ == painted(self.color, "×"@, 31) + " "@ + message@,
    {
        self.marked("×", 31, message)
    }
}

/// How a service's process ended, as far as it could be observed: `None`
/// when waiting for it failed.
#[derive(Debug, Clone, Copy)]
pub struct ExitStatusInfo {
    /// The exit code, when the process exited (not by a signal).
    pub code: Option<i32>,
    /// Whether the process reported success.
    pub success: bool,
}

/// The decimal text of a signed number.
pub open spec fn signed_decimal(n: int) -> Seq<char> {
    if n < 0 {
        "-"@ + decimal_seq((-n) as nat)
    } else {
        decimal_seq(n as nat)
    }
}

/// The console line that reports how a service ended.
pub open spec fn exit_report(color: bool, name: Seq<char>, status: Option<ExitStatusInfo>) -> Seq<char> {
    let code = match status {
        Some(s) => s.code,
        None => None,
    };
    match code {
        Some(0) => painted(color, "✓"@, 32) + " "@ + name + " exited cleanly"@,
        Some(c) => painted(color, "×"@, 31) + " "@ + name + " exited with code "@ + signed_decimal(c as int),
        None => painted(color, "×"@, 31) + " "@ + name + " terminated by signal"@,
    }
}

impl Console {
    /// The line that reports how a service ended.
    pub fn exit_line(&self, name: &str, status: Option<ExitStatusInfo>) -> (r: String)
        ensures
            r@ == exit_report(self.color, name@, status),
    {
        let code = match status {
            Some(s) => s.code,
            None => None,
        };
        match code {
            Some(0) => {
                let mut m = owned(name);
                push_text(&mut m, " exited cleanly");
                self.success(m.as_str())
            },
            Some(c) => {
                let mut m = owned(name);
                push_text(&mut m, " exited with code ");
                if c < 0 {
                    push_text(&mut m, "-");
                    let magnitude: u64 = (-(c as i64)) as u64;
                    push_decimal(&mut m, magnitude);
                } else {
                    push_decimal(&mut m, c as u64);
                }
                self.error(m.as_str())
            },
            None => {
                let mut m = owned(name);
                push_text(&mut m, " terminated by signal");
                self.error(m.as_str())
            },
        }
    }
}

/// The state of a running `arqen up`: whether the services were told to
/// stop, and the first service that stopped on its own without success.
#[derive(Debug, Clone)]
pub struct UpState {
    pub stopping: bool,
    pub failure: Option<String>,
}

/// What the supervisor does in answer to an event: lines to print, and
/// whether to tell the remaining services to stop.
#[derive(Debug, Clone)]
pub struct UpAction {
    pub lines: Vec<String>,
    pub stop_others: bool,
}

impl UpState {
    /// Supervision starts with nothing stopped and no failure.
    pub fn new() -> (r: Self)
        ensures
            !r.stopping,
            r.failure is None,
    {
        UpState { stopping: false, failure: None }
    }

    /// An interrupt (Ctrl+C): the services are told to stop, once.
    pub fn on_interrupt(&mut self, console: &Console) -> (r: UpAction)
        ensures
            final(self).stopping,
            final(self).failure == old(self).failure,
            r.stop_others == !old(self).stopping,
            r.lines@.len() == 1,
            r.lines@[0]@ == painted(console.color, "ℹ"@, 36) + " "@ + "stopping services"@,
    {
        let mut lines: Vec<String> = Vec::new();
        lines.push(console.info("stopping services"));
        let stop = !self.stopping;
        self.stopping = true;
        UpAction { lines, stop_others: stop }
    }

    /// A service ended. When it is the first to end on its own, the rest
    /// are told to stop, and it is the failure when it did not succeed.
    pub fn on_exit(&mut self, console: &Console, name: &str, status: Option<ExitStatusInfo>) -> (r: UpAction)
        ensures
            final(self).stopping,
            r.stop_others == !old(self).stopping,
            r.lines@.len() == (if old(self).stopping { 1int } else { 2int }),
            r.lines@[0]@ == exit_report(console.color, name@, status),
            !old(self).stopping ==> r.lines@[1]@ == painted(console.color, "!"@, 33) + " "@ + name@
                + " stopped; shutting down the rest"@,
            !old(self).stopping && (status is None || !status->0.success) ==> (final(self).failure matches Some(f)
                && f@ == name@),
            (old(self).stopping || (status matches Some(s) && s.success)) ==> final(self).failure == old(self).failure,
    {
        let mut lines: Vec<String> = Vec::new();
        lines.push(console.exit_line(name, status));
        let on_its_own = !self.stopping;
        if on_its_own {
            self.stopping = true;
            let mut m = owned(name);
            push_text(&mut m, " stopped; shutting down the rest");
            lines.push(console.warn(m.as_str()));
            let failed = match status {
                None => true,
                Some(s) => !s.success,
            };
            if failed {
                self.failure = Some(owned(name));
            }
        }
        UpAction { lines, stop_others: on_its_own }
    }

    /// The outcome once every service has ended: an error naming the
    /// failed service, if there is one.
    pub fn outcome(&self) -> (r: Result<(), String>)
        ensures
            match self.failure {
                Some(f) => r matches Err(m) && m@ == "dev service '"@ + f@ + "' exited with an error"@,
                None => r is Ok,
            },
    {
        match &self.failure {
            Some(f) => {
                let mut m = owned("dev service '");
                push_text(&mut m, f.as_str());
                push_text(&mut m, "' exited with an error");
                Err(m)
            },
            None => Ok(()),
        }
    }
}

/// After starting the services: the error of the first service that could
/// not be started, if any, and whether the ones already started must be
/// stopped first.
pub fn spawn_outcome(started: usize, spawn_error: Option<String>) -> (r: (bool, Option<String>))
    ensures
        r.1 == spawn_error,
        r.0 == (spawn_error is Some && started > 0),
{
    let stop = spawn_error.is_some() && started > 0;
    (stop, spawn_error)
}

} // verus!
