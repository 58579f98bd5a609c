use ls_wrapper::args::{ColorOption, LsArgs};

fn argv(items: &[&str]) -> Vec<String> {
    items.iter().map(|s| s.to_string()).collect()
}

#[test]
fn test_combined_flags() {
    let args = LsArgs::parse(&argv(&["ls", "-la"])).unwrap();
    assert!(args.long_format);
    assert!(args.all);
}

#[test]
fn test_path() {
    let args = LsArgs::parse(&argv(&["ls", "-l", "./src"])).unwrap();
    assert!(args.long_format);
    assert_eq!(args.paths, vec!["./src"]);
}

#[test]
fn empty_input_defaults_to_current_directory() {
    let args = LsArgs::parse(&argv(&[])).unwrap();
    assert_eq!(args.paths, vec!["."]);
    let args = LsArgs::parse(&argv(&["ls"])).unwrap();
    assert_eq!(args.paths, vec!["."]);
}

#[test]
fn bundle_order_does_not_matter() {
    let a = LsArgs::parse(&argv(&["ls", "-laR"])).unwrap();
    let b = LsArgs::parse(&argv(&["ls", "-Rla"])).unwrap();
    assert_eq!((a.long_format, a.all, a.recursive), (b.long_format, b.all, b.recursive));
    assert!(a.long_format && a.all && a.recursive);
}

#[test]
fn unknown_long_option_is_named() {
    let e = LsArgs::parse(&argv(&["ls", "--bogus"])).unwrap_err();
    assert_eq!(e, "Unknown option: --bogus");
}

#[test]
fn unknown_short_option_is_named() {
    let e = LsArgs::parse(&argv(&["ls", "-Z"])).unwrap_err();
    assert_eq!(e, "Unknown option: -Z");
}

#[test]
fn color_values() {
    assert_eq!(LsArgs::parse(&argv(&["ls", "--color=yes"])).unwrap().color, ColorOption::Always);
    assert_eq!(LsArgs::parse(&argv(&["ls", "--color=none"])).unwrap().color, ColorOption::Never);
    assert_eq!(LsArgs::parse(&argv(&["ls", "--color"])).unwrap().color, ColorOption::Auto);
    let e = LsArgs::parse(&argv(&["ls", "--color=pink"])).unwrap_err();
    assert_eq!(e, "Unknown color option: pink");
}

#[test]
fn double_dash_makes_paths() {
    let args = LsArgs::parse(&argv(&["ls", "--", "-l", "x"])).unwrap();
    assert!(!args.long_format);
    assert_eq!(args.paths, vec!["-l", "x"]);
}

#[test]
fn lone_dash_and_tokens_after_double_dash_are_paths() {
    let args = LsArgs::parse(&argv(&["prog", "-", "--", "-l", "--bogus"])).unwrap();
    assert_eq!(args.paths, vec!["-", "-l", "--bogus"]);
    assert!(!args.long_format);
    assert!(!args.help);
}

#[test]
fn program_name_is_not_read() {
    let a = LsArgs::parse(&argv(&["--bogus", "-l"])).unwrap();
    let b = LsArgs::parse(&argv(&["ls", "-l"])).unwrap();
    assert_eq!(a.long_format, b.long_format);
    assert_eq!(a.paths, b.paths);
}

#[test]
fn repeated_flags_change_nothing() {
    let a = LsArgs::parse(&argv(&["ls", "-la"])).unwrap();
    let b = LsArgs::parse(&argv(&["ls", "-lala", "-al"])).unwrap();
    assert_eq!((a.long_format, a.all, a.recursive), (b.long_format, b.all, b.recursive));
}

#[test]
fn empty_input_sets_no_flag() {
    let a = LsArgs::parse(&argv(&["ls"])).unwrap();
    assert!(!a.long_format && !a.all && !a.almost_all && !a.recursive && !a.help);
    assert_eq!(a.color, ColorOption::Auto);
}

#[test]
fn long_names_and_aliases() {
    let a = LsArgs::parse(&argv(&["ls", "--almost-all=x", "--ps", "--cheatsheet", "--human-readable"])).unwrap();
    assert!(a.almost_all && a.use_powershell && a.rosetta && a.human_readable);
    assert!(!a.all);
    assert_eq!(a.paths, vec!["."]);
}

#[test]
fn first_bad_token_is_reported() {
    let e = LsArgs::parse(&argv(&["ls", "-lQ", "--bogus"])).unwrap_err();
    assert_eq!(e, "Unknown option: -Q");
}
