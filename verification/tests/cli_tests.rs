use arqen::cli::{ColorChoice, Output};

#[test]
fn color_choice_parses_without_regard_to_case() {
    assert_eq!(ColorChoice::parse("ALWAYS"), ColorChoice::Always);
    assert_eq!(ColorChoice::parse("yes"), ColorChoice::Always);
    assert_eq!(ColorChoice::parse("True"), ColorChoice::Always);
    assert_eq!(ColorChoice::parse("never"), ColorChoice::Never);
    assert_eq!(ColorChoice::parse("NO"), ColorChoice::Never);
    assert_eq!(ColorChoice::parse("false"), ColorChoice::Never);
    assert_eq!(ColorChoice::parse("auto"), ColorChoice::Auto);
    assert_eq!(ColorChoice::parse("sometimes"), ColorChoice::Auto);
}

#[test]
fn output_flags() {
    let o = Output::from_args(true, false, true, "never");
    assert!(o.is_json());
    assert!(!o.is_quiet());
    assert!(o.is_verbose());
    assert!(o.shows_messages());
    assert!(o.shows_verbose());
    assert!(!o.uses_color(true));
    let q = Output::from_args(false, true, true, "always");
    assert!(!q.shows_messages());
    assert!(!q.shows_verbose());
    assert!(q.uses_color(false));
    assert!(Output::from_args(false, false, false, "auto").uses_color(true));
}

#[test]
fn banner_lists_the_endpoints() {
    let o = Output::from_args(false, false, false, "never");
    let b = o.banner("127.0.0.1:8888", "memory", "development", "1.2.3", true).unwrap();
    assert!(b.contains("  Arqen v1.2.3 · development · memory\n"));
    assert!(b.contains("  Health: http://127.0.0.1:8888/health\n"));
    assert!(b.ends_with("  Agent:  http://127.0.0.1:8888/agent\n\n"));
    assert!(!b.contains("\x1b["));
    let colored = Output::from_args(false, false, false, "always").banner("a", "s", "e", "v", false).unwrap();
    assert!(colored.starts_with("\x1b[36m"));
    assert!(Output::from_args(true, false, false, "never").banner("a", "s", "e", "v", true).is_none());
    assert!(Output::from_args(false, true, false, "never").banner("a", "s", "e", "v", true).is_none());
}
