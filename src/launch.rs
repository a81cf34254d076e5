use vstd::prelude::*;

use crate::digits::{bounded_digits, parse_digits};

verus! {

/// How the program was asked to run.
#[derive(Debug, Clone, Copy, PartialEq, Eq)]
pub enum LaunchMode {
    /// Full-screen saver that ends on user input.
    Interactive,
    /// The settings dialog.
    Configure,
    /// A small preview, inside the given host window when there is one.
    Preview(Option<i64>),
    /// Started by the system to run the saver; behaves as `Interactive`.
    ScreensaverExec,
    /// Password change request: nothing to do, exit at once with status 0.
    PasswordStub,
}

/// `arg` starts with `/` or `-` followed by the letter `lower` in either case.
pub open spec fn has_flag(arg: Seq<char>, lower: char, upper: char) -> bool {
    arg.len() >= 2 && (arg[0] == '/' || arg[0] == '-') && (arg[1] == lower || arg[1] == upper)
}

/// The signed decimal integer that `s` spells: an optional `+` or `-`, then digits.
pub open spec fn handle_value(s: Seq<char>) -> Option<i64> {
    if s.len() > 0 && s[0] == '-' {
        match bounded_digits(s.skip(1), 0x8000_0000_0000_0000) {
            Some(m) => Some((-m) as i64),
            None => None,
        }
    } else if s.len() > 0 && s[0] == '+' {
        match bounded_digits(s.skip(1), i64::MAX as int) {
            Some(m) => Some(m as i64),
            None => None,
        }
    } else {
        match bounded_digits(s, i64::MAX as int) {
            Some(m) => Some(m as i64),
            None => None,
        }
    }
}

/// The host window handle of a preview request: the argument after the flag when
/// there is one, else what follows the two flag characters.
pub open spec fn preview_handle(args: Seq<Seq<char>>) -> Option<i64> {
    if args.len() > 1 {
        handle_value(args[1])
    } else {
        handle_value(args[0].skip(2))
    }
}

/// The mode selected by the arguments that follow the program name.
pub open spec fn launch_mode(args: Seq<Seq<char>>) -> LaunchMode {
    if args.len() == 0 {
        LaunchMode::Interactive
    } else if has_flag(args[0], 'c', 'C') {
        LaunchMode::Configure
    } else if has_flag(args[0], 'p', 'P') {
        LaunchMode::Preview(preview_handle(args))
    } else if has_flag(args[0], 's', 'S') {
        LaunchMode::ScreensaverExec
    } else if has_flag(args[0], 'a', 'A') {
        LaunchMode::PasswordStub
    } else {
        LaunchMode::Interactive
    }
}

pub open spec fn arg_views(args: Seq<String>) -> Seq<Seq<char>> {
    args.map_values(|a: String| a@)
}

/// Parses a window handle written as a signed decimal integer. Anything else,
/// including a value out of the 64-bit range, gives `None`.
pub fn parse_handle(s: &str) -> (r: Option<i64>)
    ensures
        r == handle_value(s@),
{
    let n = s.unicode_len();
    if n > 0 && s.get_char(0) == '-' {
        assert(s@.subrange(1, n as int) =~= s@.skip(1));
        match parse_digits(s, 1, n, 0x8000_0000_0000_0000) {
            Some(m) => {
                if m == 0x8000_0000_0000_0000 {
                    Some(i64::MIN)
                } else {
                    Some(-(m as i64))
                }
            },
            None => None,
        }
    } else if n > 0 && s.get_char(0) == '+' {
        assert(s@.subrange(1, n as int) =~= s@.skip(1));
        match parse_digits(s, 1, n, i64::MAX as u64) {
            Some(m) => Some(m as i64),
            None => None,
        }
    } else {
        assert(s@.subrange(0, n as int) =~= s@);
        match parse_digits(s, 0, n, i64::MAX as u64) {
            Some(m) => Some(m as i64),
            None => None,
        }
    }
}

fn flag_is(arg: &str, lower: char, upper: char) -> (r: bool)
    ensures
        r == has_flag(arg@, lower, upper),
{
    let n = arg.unicode_len();
    if n < 2 {
        return false;
    }
    let c0 = arg.get_char(0);
    let c1 = arg.get_char(1);
    (c0 == '/' || c0 == '-') && (c1 == lower || c1 == upper)
}

/// Selects the run mode from the arguments that follow the program name. Flags are
/// matched by prefix and in either case; anything unrecognised runs the saver.
pub fn parse_launch_mode(args: &Vec<String>) -> (m: LaunchMode)
    ensures
        m == launch_mode(arg_views(args@)),
{
    let ghost views = arg_views(args@);
    if args.len() == 0 {
        return LaunchMode::Interactive;
    }
    let first = args[0].as_str();
    assert(first@ == views[0]);
    if flag_is(first, 'c', 'C') {
        LaunchMode::Configure
    } else if flag_is(first, 'p', 'P') {
        let handle = if args.len() > 1 {
            assert(args[1]@ == views[1]);
            parse_handle(args[1].as_str())
        } else {
            let n = first.unicode_len();
            parse_handle(first.substring_char(2, n))
        };
        LaunchMode::Preview(handle)
    } else if flag_is(first, 's', 'S') {
        LaunchMode::ScreensaverExec
    } else if flag_is(first, 'a', 'A') {
        LaunchMode::PasswordStub
    } else {
        LaunchMode::Interactive
    }
}

} // verus!
