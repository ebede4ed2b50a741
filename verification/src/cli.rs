//! Output settings of the command-line tool: colour choice, JSON, quiet and
//! verbose modes, and the start-up banner text.
use vstd::prelude::*;
use crate::text::{ascii_text, chars_eq, chars_of, lower_seq, lower_text, owned, push_text, unicode_lower};

verus! {

/// When to colour the output.
#[derive(Debug, Clone, Copy, PartialEq, Eq, Structural)]
pub enum ColorChoice {
    Auto,
    Always,
    Never,
}

/// The colour choice a setting denotes, after Unicode lower-casing:
/// `always`, `yes` and `true` force colour, `never`, `no` and `false` turn
/// it off, anything else leaves it to the terminal.
pub open spec fn color_choice_of(s: Seq<char>) -> ColorChoice {
    color_choice_named(unicode_lower(s))
}

/// The colour choice a lower-case setting `l` denotes.
pub open spec fn color_choice_named(l: Seq<char>) -> ColorChoice {
    if l == "always"@ || l == "yes"@ || l == "true"@ {
        ColorChoice::Always
    } else if l == "never"@ || l == "no"@ || l == "false"@ {
        ColorChoice::Never
    } else {
        ColorChoice::Auto
    }
}

impl ColorChoice {
    /// Reads a colour setting without regard to case.
    pub fn parse(s: &str) -> (r: Self)
        ensures
            r == color_choice_of(s@),
            ascii_text(s@) ==> r == color_choice_named(lower_seq(s@)),
    {
        let l = chars_of(lower_text(s).as_str());
        if chars_eq(&l, &chars_of("always")) || chars_eq(&l, &chars_of("yes")) || chars_eq(&l, &chars_of("true")) {
            ColorChoice::Always
        } else if chars_eq(&l, &chars_of("never")) || chars_eq(&l, &chars_of("no")) || chars_eq(&l, &chars_of("false")) {
            ColorChoice::Never
        } else {
            ColorChoice::Auto
        }
    }
}

/// How the command-line tool reports.
#[derive(Debug, Clone, Copy)]
pub struct Output {
    json: bool,
    quiet: bool,
    verbose: bool,
    color: ColorChoice,
}

/// The start-up banner: the logo, the version line and the addresses of the
/// built-in endpoints, each wrapped in colour codes when `color` holds.
pub open spec fn banner_text(
    addr: Seq<char>,
    storage: Seq<char>,
    environment: Seq<char>,
    version: Seq<char>,
    color: bool,
) -> Seq<char> {
    let cyan = if color { "\x1b[36m"@ } else { Seq::empty() };
    let dim = if color { "\x1b[2m"@ } else { Seq::empty() };
    let reset = if color { "\x1b[0m"@ } else { Seq::empty() };
    cyan + "     _\n    / \\\n   / __ \\  _ __ __ _  ___ _ __\n  / /  \\ \\| '__/ _` |/ _ \\ '__|\n / /____\\ \\| | | (_| |  __/ |\n/_/      \\_\\_|  \\__, |\\___|_|\n                  |___/"@
        + reset + "\n"@ + dim + "  Arqen v"@ + version + " · "@ + environment + " · "@ + storage + reset + "\n"@
        + "  API:    http://"@ + addr + "\n  Health: http://"@ + addr + "/health\n  Docs:   http://"@ + addr
        + "/docs\n  Agent:  http://"@ + addr + "/agent\n\n"@
}

impl Output {
    pub closed spec fn json_spec(&self) -> bool {
        self.json
    }

    pub closed spec fn quiet_spec(&self) -> bool {
        self.quiet
    }

    pub closed spec fn verbose_spec(&self) -> bool {
        self.verbose
    }

    pub closed spec fn color_spec(&self) -> ColorChoice {
        self.color
    }

    /// Output settings from the global flags.
    pub fn from_args(json: bool, quiet: bool, verbose: bool, color: &str) -> (r: Self)
        ensures
            r.json_spec() == json,
            r.quiet_spec() == quiet,
            r.verbose_spec() == verbose,
            r.color_spec() == color_choice_of(color@),
    {
        Output { json, quiet, verbose, color: ColorChoice::parse(color) }
    }

    pub fn is_json(&self) -> (r: bool)
        ensures
            r == self.json_spec(),
    {
        self.json
    }

    pub fn is_quiet(&self) -> (r: bool)
        ensures
            r == self.quiet_spec(),
    {
        self.quiet
    }

    pub fn is_verbose(&self) -> (r: bool)
        ensures
            r == self.verbose_spec(),
    {
        self.verbose
    }

    /// Whether a plain message is shown: unless quiet.
    pub fn shows_messages(&self) -> (r: bool)
        ensures
            r == !self.quiet_spec(),
    {
        !self.quiet
    }

    /// Whether a verbose message is shown: in verbose mode, unless quiet.
    pub fn shows_verbose(&self) -> (r: bool)
        ensures
            r == (self.verbose_spec() && !self.quiet_spec()),
    {
        self.verbose && !self.quiet
    }

    /// Whether the banner is coloured, given whether standard output is a
    /// terminal.
    pub fn uses_color(&self, stdout_is_terminal: bool) -> (r: bool)
        ensures
            r == match self.color_spec() {
                ColorChoice::Always => true,
                ColorChoice::Never => false,
                ColorChoice::Auto => stdout_is_terminal,
            },
    {
        match self.color {
            ColorChoice::Always => true,
            ColorChoice::Never => false,
            ColorChoice::Auto => stdout_is_terminal,
        }
    }

    /// The start-up banner, or nothing in JSON or quiet mode.
    pub fn banner(
        &self,
        addr: &str,
        storage: &str,
        environment: &str,
        version: &str,
        stdout_is_terminal: bool,
    ) -> (r: Option<String>)
        ensures
            (self.json_spec() || self.quiet_spec()) ==> r is None,
            !(self.json_spec() || self.quiet_spec()) ==> (r matches Some(t) && t@ == banner_text(
                addr@,
                storage@,
                environment@,
                version@,
                match self.color_spec() {
                    ColorChoice::Always => true,
                    ColorChoice::Never => false,
                    ColorChoice::Auto => stdout_is_terminal,
                },
            )),
    {
        if self.json || self.quiet {
            return None;
        }
        let color = self.uses_color(stdout_is_terminal);
        let cyan = if color { "\x1b[36m" } else { "" };
        let dim = if color { "\x1b[2m" } else { "" };
        let reset = if color { "\x1b[0m" } else { "" };
        proof {
            reveal_strlit("");
        }
        let mut t = owned(cyan);
        push_text(&mut t, "     _\n    / \\\n   / __ \\  _ __ __ _  ___ _ __\n  / /  \\ \\| '__/ _` |/ _ \\ '__|\n / /____\\ \\| | | (_| |  __/ |\n/_/      \\_\\_|  \\__, |\\___|_|\n                  |___/");
        push_text(&mut t, reset);
        push_text(&mut t, "\n");
        push_text(&mut t, dim);
        push_text(&mut t, "  Arqen v");
        push_text(&mut t, version);
        push_text(&mut t, " · ");
        push_text(&mut t, environment);
        push_text(&mut t, " · ");
        push_text(&mut t, storage);
        push_text(&mut t, reset);
        push_text(&mut t, "\n");
        push_text(&mut t, "  API:    http://");
        push_text(&mut t, addr);
        push_text(&mut t, "\n  Health: http://");
        push_text(&mut t, addr);
        push_text(&mut t, "/health\n  Docs:   http://");
        push_text(&mut t, addr);
        push_text(&mut t, "/docs\n  Agent:  http://");
        push_text(&mut t, addr);
        push_text(&mut t, "/agent\n\n");
        Some(t)
    }
}

} // verus!
