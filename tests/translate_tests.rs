use ls_wrapper::args::LsArgs;
use ls_wrapper::translate::{to_windows_path, translate};

#[test]
fn test_basic_translation() {
    let args = LsArgs::default();
    let trans = translate(&args, None);
    assert!(trans.cmd_command.starts_with("dir"));
}

#[test]
fn test_la_translation() {
    let mut args = LsArgs::default();
    args.long_format = true;
    args.all = true;
    let trans = translate(&args, None);
    assert!(trans.cmd_command.contains("/A"));
}

#[test]
fn no_flags_description_is_base_phrase() {
    let trans = translate(&LsArgs::default(), None);
    assert_eq!(trans.cmd_command, "dir");
    assert_eq!(trans.powershell_command, "Get-ChildItem");
    assert_eq!(trans.description, "list directory contents");
}

#[test]
fn time_beats_size() {
    let mut args = LsArgs::default();
    args.sort_by_time = true;
    args.sort_by_size = true;
    args.paths = vec![".".to_string()];
    let trans = translate(&args, None);
    assert_eq!(trans.cmd_command, "dir /O-D .");
    assert_eq!(trans.powershell_command, "Get-ChildItem -Path . | Sort-Object LastWriteTime -Descending");
}

#[test]
fn no_sort_drops_sort_switch() {
    let mut args = LsArgs::default();
    args.no_sort = true;
    args.sort_by_time = true;
    args.reverse = true;
    let trans = translate(&args, None);
    assert_eq!(trans.cmd_command, "dir");
}

#[test]
fn home_and_quoting() {
    assert_eq!(to_windows_path("~/docs", Some("C:\\Users\\x")), "C:\\Users\\x\\docs");
    assert_eq!(to_windows_path("a/b c", None), "a\\b c");
    let mut args = LsArgs::default();
    args.paths = vec!["a/b c".to_string()];
    assert_eq!(translate(&args, None).cmd_command, "dir \"a\\b c\"");
}

#[test]
fn description_clauses() {
    let mut args = LsArgs::default();
    args.all = true;
    args.long_format = true;
    args.reverse = true;
    let trans = translate(&args, None);
    assert_eq!(trans.description, "list directory contents (show hidden files, long format, reverse order)");
    let again = translate(&args, None);
    assert_eq!(trans.cmd_command, again.cmd_command);
    assert_eq!(trans.cmd_command, "dir /A /O-N");
}
