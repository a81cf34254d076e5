use dvd_saver::launch::{parse_handle, parse_launch_mode, LaunchMode};

fn args(a: &[&str]) -> Vec<String> {
    a.iter().map(|s| s.to_string()).collect()
}

#[test]
fn configure_flag_selects_configure() {
    assert_eq!(parse_launch_mode(&args(&["/c"])), LaunchMode::Configure);
    assert_eq!(parse_launch_mode(&args(&["-C:1234"])), LaunchMode::Configure);
}

#[test]
fn preview_handle_in_next_argument() {
    assert_eq!(parse_launch_mode(&args(&["/p", "12345"])), LaunchMode::Preview(Some(12345)));
}

#[test]
fn preview_handle_glued_to_flag() {
    assert_eq!(parse_launch_mode(&args(&["/p12345"])), LaunchMode::Preview(Some(12345)));
    assert_eq!(parse_launch_mode(&args(&["-P77"])), LaunchMode::Preview(Some(77)));
}

#[test]
fn malformed_preview_handle_gives_no_host() {
    assert_eq!(parse_launch_mode(&args(&["/p", "abc"])), LaunchMode::Preview(None));
    assert_eq!(parse_launch_mode(&args(&["/p"])), LaunchMode::Preview(None));
    assert_eq!(parse_launch_mode(&args(&["/p12x"])), LaunchMode::Preview(None));
}

#[test]
fn password_flag_is_a_stub() {
    assert_eq!(parse_launch_mode(&args(&["/a"])), LaunchMode::PasswordStub);
    assert_eq!(parse_launch_mode(&args(&["-A"])), LaunchMode::PasswordStub);
}

#[test]
fn no_arguments_run_interactive() {
    assert_eq!(parse_launch_mode(&args(&[])), LaunchMode::Interactive);
}

#[test]
fn saver_flag_and_unknown_flags() {
    assert_eq!(parse_launch_mode(&args(&["/s"])), LaunchMode::ScreensaverExec);
    assert_eq!(parse_launch_mode(&args(&["-S"])), LaunchMode::ScreensaverExec);
    assert_eq!(parse_launch_mode(&args(&["/x"])), LaunchMode::Interactive);
    assert_eq!(parse_launch_mode(&args(&["c"])), LaunchMode::Interactive);
    assert_eq!(parse_launch_mode(&args(&["/"])), LaunchMode::Interactive);
}

#[test]
fn handle_parsing_edges() {
    assert_eq!(parse_handle("-5"), Some(-5));
    assert_eq!(parse_handle("+7"), Some(7));
    assert_eq!(parse_handle("0042"), Some(42));
    assert_eq!(parse_handle("9223372036854775807"), Some(i64::MAX));
    assert_eq!(parse_handle("9223372036854775808"), None);
    assert_eq!(parse_handle("-9223372036854775808"), Some(i64::MIN));
    assert_eq!(parse_handle("-9223372036854775809"), None);
    assert_eq!(parse_handle(""), None);
    assert_eq!(parse_handle("-"), None);
    assert_eq!(parse_handle("+"), None);
    assert_eq!(parse_handle(" 1"), None);
}
