use fish_env::electric::next_shell_level;
use fish_env::environment::Environment;
use fish_env::handle::Reach;
use fish_env::mode::{EnvMode, EnvStackSetResult, ENV_DEFAULT, ENV_EXPORT, ENV_GLOBAL, ENV_LOCAL, ENV_UNEXPORT, ENV_UNIVERSAL};
use fish_env::stack::EnvStack;
use fish_env::text::{decimal_string, parse_count};
use fish_env::var::EnvVarFlags;

fn strings(items: &[&str]) -> Vec<String> {
    items.iter().map(|s| s.to_string()).collect()
}

#[test]
fn a_count_is_made_of_digits_alone() {
    assert_eq!(parse_count("0"), Some(0));
    assert_eq!(parse_count("7"), Some(7));
    assert_eq!(parse_count("42"), Some(42));
    assert_eq!(parse_count("007"), Some(7));
    assert_eq!(parse_count("2147483646"), Some(2147483646));
    assert_eq!(parse_count("2147483647"), Some(i32::MAX));
    assert_eq!(parse_count(""), None);
    assert_eq!(parse_count("-1"), None);
    assert_eq!(parse_count("+1"), None);
    assert_eq!(parse_count(" 1"), None);
    assert_eq!(parse_count("1 "), None);
    assert_eq!(parse_count("12a"), None);
    assert_eq!(parse_count("a12"), None);
    assert_eq!(parse_count("1.5"), None);
    assert_eq!(parse_count("\u{661}"), None);
}

#[test]
fn a_count_beyond_the_greatest_is_the_greatest() {
    assert_eq!(parse_count("2147483648"), Some(i32::MAX));
    assert_eq!(parse_count("2147483650"), Some(i32::MAX));
    assert_eq!(parse_count("99999999999999999999999999"), Some(i32::MAX));
    assert_eq!(parse_count("21474836470"), Some(i32::MAX));
}

#[test]
fn reading_what_was_rendered_gives_the_number_back() {
    for n in [0, 1, 9, 10, 11, 99, 100, 1234, 65535, 2147483646] {
        assert_eq!(parse_count(&decimal_string(n)), Some(n));
    }
}

#[test]
fn the_next_shell_level() {
    assert_eq!(next_shell_level("0"), 1);
    assert_eq!(next_shell_level("1"), 2);
    assert_eq!(next_shell_level("41"), 42);
    assert_eq!(next_shell_level(""), 1);
    assert_eq!(next_shell_level("deep"), 1);
    assert_eq!(next_shell_level("-3"), 1);
    assert_eq!(next_shell_level("2147483646"), i32::MAX);
    assert_eq!(next_shell_level("2147483647"), i32::MAX);
    assert_eq!(next_shell_level("99999999999"), i32::MAX);
}

#[test]
fn variables_of_the_process_become_global_and_exported() {
    let mut stack = EnvStack::new(true);
    stack.push(true);
    assert_eq!(stack.inherit("HOME", "/home/me"), EnvStackSetResult::ENV_OK);
    assert_eq!(stack.inherit("PATH", "/bin"), EnvStackSetResult::ENV_OK);
    assert_eq!(stack.inherit("EMPTY", ""), EnvStackSetResult::ENV_OK);
    stack.pop();
    let home = stack.getf("HOME", EnvMode::from_bits(ENV_GLOBAL).unwrap()).unwrap();
    assert_eq!(home.as_list(), &strings(&["/home/me"]));
    assert_eq!(home.get_flags(), EnvVarFlags { exports: true, read_only: false, pathvar: false });
    let path = stack.get("PATH").unwrap();
    assert_eq!(path.get_flags(), EnvVarFlags { exports: true, read_only: false, pathvar: true });
    assert_eq!(stack.export_array(), strings(&["PWD=", "SHLVL=1", "HOME=/home/me", "PATH=/bin", "EMPTY="]));
}

#[test]
fn what_an_assignment_refuses_is_not_taken_over() {
    let mut stack = EnvStack::new(true);
    assert_eq!(stack.inherit("a=b", "1"), EnvStackSetResult::ENV_INVALID);
    assert_eq!(stack.inherit("", "1"), EnvStackSetResult::ENV_INVALID);
    assert_eq!(stack.inherit("status", "1"), EnvStackSetResult::ENV_PERM);
    assert_eq!(stack.inherit("pipestatus", "1"), EnvStackSetResult::ENV_PERM);
    assert_eq!(stack.inherit("PATH", "/bin:/usr/bin"), EnvStackSetResult::ENV_INVALID);
    assert_eq!(stack.export_array(), strings(&["PWD=", "SHLVL=1"]));
    assert_eq!(stack.get("status").unwrap().as_string(), "0");
    assert!(stack.take_changes().is_empty());
}

#[test]
fn the_shell_level_is_one_more_than_the_inherited_one() {
    let mut stack = EnvStack::new(true);
    assert_eq!(stack.inherit("SHLVL", "2"), EnvStackSetResult::ENV_OK);
    assert_eq!(stack.get("SHLVL").unwrap().as_string(), "3");
    assert_eq!(stack.export_array(), strings(&["PWD=", "SHLVL=3"]));
    assert_eq!(stack.inherit("SHLVL", "none"), EnvStackSetResult::ENV_OK);
    assert_eq!(stack.get("SHLVL").unwrap().as_string(), "1");
    assert_eq!(stack.inherit("SHLVL", "2147483647"), EnvStackSetResult::ENV_OK);
    assert_eq!(stack.get("SHLVL").unwrap().as_string(), "2147483647");
    assert!(stack.take_changes().is_empty());
}

#[test]
fn the_inherited_working_directory_is_taken() {
    let mut stack = EnvStack::new(true);
    assert_eq!(stack.inherit("PWD", "/inherited"), EnvStackSetResult::ENV_OK);
    assert_eq!(stack.get_pwd_slash(), "/inherited/");
    let changes: Vec<(String, bool)> = stack.take_changes().into_iter().map(|c| (c.name, c.universal)).collect();
    assert_eq!(changes, vec![("PWD".to_string(), false)]);
}

#[test]
fn the_handle_on_the_whole_stack_passes_the_mode_on() {
    for bits in 0u16..32 {
        assert_eq!(Reach::Whole.mode_bits(bits), Some(bits));
        let m = EnvMode::from_bits(bits).unwrap();
        assert_eq!(Reach::Whole.mode(m), m);
    }
    assert_eq!(Reach::Whole.mode_bits(32), None);
    assert_eq!(Reach::Globals.mode_bits(32), None);
    assert_eq!(Reach::Globals.mode_bits(0xffff), None);
}

#[test]
fn the_handle_on_the_globals_asks_in_the_global_scope() {
    assert_eq!(Reach::Globals.mode_bits(ENV_DEFAULT), Some(ENV_GLOBAL));
    assert_eq!(Reach::Globals.mode_bits(ENV_LOCAL), Some(ENV_GLOBAL));
    assert_eq!(Reach::Globals.mode_bits(ENV_UNIVERSAL), Some(ENV_GLOBAL));
    assert_eq!(Reach::Globals.mode_bits(ENV_GLOBAL), Some(ENV_GLOBAL));
    assert_eq!(Reach::Globals.mode_bits(ENV_EXPORT), Some(ENV_GLOBAL | ENV_EXPORT));
    assert_eq!(Reach::Globals.mode_bits(ENV_LOCAL | ENV_UNEXPORT), Some(ENV_GLOBAL | ENV_UNEXPORT));
    assert_eq!(
        Reach::Globals.mode_bits(ENV_UNIVERSAL | ENV_EXPORT | ENV_UNEXPORT),
        Some(ENV_GLOBAL | ENV_EXPORT | ENV_UNEXPORT)
    );
}

#[test]
fn only_the_handle_on_the_whole_principal_stack_is_principal() {
    let principal = EnvStack::new(true);
    let other = EnvStack::new(false);
    assert!(Reach::Whole.is_principal(&principal));
    assert!(!Reach::Whole.is_principal(&other));
    assert!(!Reach::Globals.is_principal(&principal));
    assert!(!Reach::Globals.is_principal(&other));
}

#[test]
fn scopes_are_entered_and_left_through_the_whole_stack_alone() {
    let mut stack = EnvStack::new(true);
    assert!(Reach::Whole.can_push());
    assert!(!Reach::Globals.can_push());
    assert!(!Reach::Whole.can_pop(&stack));
    assert!(!Reach::Globals.can_pop(&stack));
    stack.push(false);
    assert!(Reach::Whole.can_pop(&stack));
    assert!(!Reach::Globals.can_pop(&stack));
}
