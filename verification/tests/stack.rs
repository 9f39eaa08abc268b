use fish_env::environment::{EnvNull, Environment};
use fish_env::mode::{
    EnvMode, EnvStackSetResult, ENV_DEFAULT, ENV_EXPORT, ENV_GLOBAL, ENV_LOCAL, ENV_UNEXPORT, ENV_UNIVERSAL,
};
use fish_env::stack::EnvStack;
use fish_env::status::Statuses;
use fish_env::var::{EnvVar, EnvVarFlags};

fn strings(items: &[&str]) -> Vec<String> {
    items.iter().map(|s| s.to_string()).collect()
}

fn mode(bits: u16) -> EnvMode {
    EnvMode::from_bits(bits).unwrap()
}

fn values_of(stack: &EnvStack, name: &str, bits: u16) -> Option<Vec<String>> {
    stack.getf(name, mode(bits)).map(|v| v.as_list().clone())
}

const ELECTRIC: [&str; 5] = ["status", "pipestatus", "fish_kill_signal", "PWD", "SHLVL"];

#[test]
fn a_fresh_stack_has_the_global_frame_alone() {
    let stack = EnvStack::new(true);
    assert_eq!(stack.depth(), 1);
    assert!(stack.is_principal());
    assert!(!EnvStack::new(false).is_principal());
    assert!(stack.get("x").is_none());
    assert_eq!(stack.get_names(mode(ENV_DEFAULT)), strings(&ELECTRIC));
    let statuses = stack.get_last_statuses();
    assert_eq!(statuses.status, 0);
    assert!(statuses.kill_signal.is_none());
    assert_eq!(statuses.pipestatus, vec![0]);
}

#[test]
fn set_then_get_returns_what_was_set() {
    let mut stack = EnvStack::new(true);
    assert_eq!(stack.set("x", mode(ENV_DEFAULT), strings(&["a", "b"])), EnvStackSetResult::ENV_OK);
    let var = stack.getf("x", mode(ENV_DEFAULT)).unwrap();
    assert_eq!(var.as_list(), &strings(&["a", "b"]));
    assert_eq!(var.get_flags(), EnvVarFlags::empty());
    assert_eq!(stack.get("x").unwrap(), var);
}

#[test]
fn set_then_get_keeps_the_flags_of_the_variable() {
    let mut stack = EnvStack::new(true);
    assert_eq!(stack.set("MYPATH", mode(ENV_EXPORT), strings(&["/a"])), EnvStackSetResult::ENV_OK);
    let before = stack.get("MYPATH").unwrap();
    assert_eq!(before.get_flags(), EnvVarFlags { exports: true, read_only: false, pathvar: true });
    assert_eq!(stack.set("MYPATH", mode(ENV_DEFAULT), strings(&["/b", "/c"])), EnvStackSetResult::ENV_OK);
    let after = stack.get("MYPATH").unwrap();
    assert_eq!(after.as_list(), &strings(&["/b", "/c"]));
    assert_eq!(after.get_flags(), before.get_flags());
    assert_eq!(stack.set("MYPATH", mode(ENV_UNEXPORT), strings(&["/d"])), EnvStackSetResult::ENV_OK);
    assert_eq!(stack.get("MYPATH").unwrap().get_flags(), EnvVarFlags { exports: false, read_only: false, pathvar: true });
}

#[test]
fn set_one_assigns_one_value() {
    let mut stack = EnvStack::new(true);
    assert_eq!(stack.set_one("x", mode(ENV_DEFAULT), "only".to_string()), EnvStackSetResult::ENV_OK);
    assert_eq!(values_of(&stack, "x", ENV_DEFAULT), Some(strings(&["only"])));
}

#[test]
fn a_malformed_name_is_invalid() {
    let mut stack = EnvStack::new(true);
    assert_eq!(stack.set("a=b", mode(ENV_DEFAULT), strings(&["1"])), EnvStackSetResult::ENV_INVALID);
    assert_eq!(stack.set("", mode(ENV_DEFAULT), strings(&["1"])), EnvStackSetResult::ENV_INVALID);
    assert_eq!(stack.set("a\0", mode(ENV_GLOBAL), strings(&["1"])), EnvStackSetResult::ENV_INVALID);
    assert_eq!(stack.set("a=b", mode(ENV_LOCAL), strings(&["1"])), EnvStackSetResult::ENV_INVALID);
    assert!(stack.get("a=b").is_none());
    assert_eq!(stack.get_names(mode(ENV_DEFAULT)), strings(&ELECTRIC));
    assert!(stack.take_changes().is_empty());
}

#[test]
fn a_path_variable_takes_only_values_shaped_like_paths() {
    let mut stack = EnvStack::new(true);
    assert_eq!(stack.set("PATH", mode(ENV_DEFAULT), strings(&["/bin:/usr/bin"])), EnvStackSetResult::ENV_INVALID);
    assert_eq!(stack.set("PATH", mode(ENV_DEFAULT), strings(&["/bin", ""])), EnvStackSetResult::ENV_INVALID);
    assert!(stack.get("PATH").is_none());
    assert_eq!(stack.set("PATH", mode(ENV_DEFAULT), strings(&["/bin", "/usr/bin"])), EnvStackSetResult::ENV_OK);
    assert_eq!(stack.set("PATH", mode(ENV_DEFAULT), strings(&["a:b"])), EnvStackSetResult::ENV_INVALID);
    assert_eq!(values_of(&stack, "PATH", ENV_DEFAULT), Some(strings(&["/bin", "/usr/bin"])));
    assert_eq!(stack.set("other", mode(ENV_DEFAULT), strings(&["a:b", ""])), EnvStackSetResult::ENV_OK);
}

#[test]
fn local_at_the_outermost_scope_is_a_scope_error() {
    let mut stack = EnvStack::new(true);
    assert_eq!(stack.set("x", mode(ENV_LOCAL), strings(&["1"])), EnvStackSetResult::ENV_SCOPE);
    assert!(stack.get("x").is_none());
    assert_eq!(stack.remove("x", mode(ENV_LOCAL)), EnvStackSetResult::ENV_SCOPE);
    stack.push(false);
    assert_eq!(stack.set("x", mode(ENV_LOCAL), strings(&["1"])), EnvStackSetResult::ENV_SCOPE);
    assert_eq!(stack.set("x", mode(ENV_LOCAL | ENV_EXPORT), strings(&["1"])), EnvStackSetResult::ENV_SCOPE);
    assert!(stack.get("x").is_none());
    stack.push(true);
    assert_eq!(stack.set("x", mode(ENV_LOCAL), strings(&["1"])), EnvStackSetResult::ENV_OK);
}

#[test]
fn a_function_scope_is_discarded_as_a_whole() {
    let mut stack = EnvStack::new(true);
    assert_eq!(stack.set("x", mode(ENV_DEFAULT), strings(&["outer"])), EnvStackSetResult::ENV_OK);
    let before_x = stack.get("x");
    let before_y = stack.get("y");
    stack.push(true);
    assert_eq!(stack.set("x", mode(ENV_LOCAL), strings(&["inner", "more"])), EnvStackSetResult::ENV_OK);
    assert_eq!(stack.set("y", mode(ENV_LOCAL), strings(&["fresh"])), EnvStackSetResult::ENV_OK);
    assert_eq!(values_of(&stack, "x", ENV_DEFAULT), Some(strings(&["inner", "more"])));
    stack.pop();
    assert_eq!(stack.get("x"), before_x);
    assert_eq!(stack.get("y"), before_y);
    assert_eq!(stack.depth(), 1);
}

#[test]
fn block_scopes_are_transparent_to_lookup() {
    let mut stack = EnvStack::new(true);
    stack.push(true);
    assert_eq!(stack.set("count", mode(ENV_LOCAL), strings(&["1"])), EnvStackSetResult::ENV_OK);
    stack.push(false);
    let var = stack.getf("count", mode(ENV_DEFAULT)).unwrap();
    assert_eq!(var.as_string(), "1");
    assert_eq!(values_of(&stack, "count", ENV_LOCAL), Some(strings(&["1"])));
    assert_eq!(stack.depth(), 3);
}

#[test]
fn a_function_boundary_ends_the_local_scope() {
    let mut stack = EnvStack::new(true);
    stack.push(true);
    assert_eq!(stack.set("outer", mode(ENV_LOCAL), strings(&["1"])), EnvStackSetResult::ENV_OK);
    stack.push(true);
    assert_eq!(values_of(&stack, "outer", ENV_LOCAL), None);
    assert_eq!(values_of(&stack, "outer", ENV_DEFAULT), Some(strings(&["1"])));
    assert_eq!(stack.get_names(mode(ENV_LOCAL)), strings(&ELECTRIC));
    assert_eq!(stack.remove("outer", mode(ENV_LOCAL)), EnvStackSetResult::ENV_NOT_FOUND);
    assert_eq!(stack.remove("outer", mode(ENV_DEFAULT)), EnvStackSetResult::ENV_OK);
    assert_eq!(values_of(&stack, "outer", ENV_DEFAULT), None);
}

#[test]
fn without_a_scope_an_existing_binding_is_reused() {
    let mut stack = EnvStack::new(true);
    assert_eq!(stack.set("g", mode(ENV_GLOBAL), strings(&["1"])), EnvStackSetResult::ENV_OK);
    stack.push(true);
    assert_eq!(stack.set("g", mode(ENV_DEFAULT), strings(&["2"])), EnvStackSetResult::ENV_OK);
    assert_eq!(stack.set("fresh", mode(ENV_DEFAULT), strings(&["3"])), EnvStackSetResult::ENV_OK);
    assert_eq!(values_of(&stack, "g", ENV_GLOBAL), Some(strings(&["2"])));
    assert_eq!(values_of(&stack, "g", ENV_LOCAL), None);
    assert_eq!(values_of(&stack, "fresh", ENV_LOCAL), Some(strings(&["3"])));
    assert_eq!(values_of(&stack, "fresh", ENV_GLOBAL), None);
    stack.pop();
    assert_eq!(values_of(&stack, "g", ENV_DEFAULT), Some(strings(&["2"])));
    assert_eq!(values_of(&stack, "fresh", ENV_DEFAULT), None);
}

#[test]
fn a_local_binding_shadows_the_global_one() {
    let mut stack = EnvStack::new(true);
    assert_eq!(stack.set("x", mode(ENV_GLOBAL), strings(&["global"])), EnvStackSetResult::ENV_OK);
    stack.push(true);
    assert_eq!(stack.set("x", mode(ENV_LOCAL), strings(&["local"])), EnvStackSetResult::ENV_OK);
    assert_eq!(values_of(&stack, "x", ENV_DEFAULT), Some(strings(&["local"])));
    assert_eq!(values_of(&stack, "x", ENV_GLOBAL), Some(strings(&["global"])));
    assert_eq!(values_of(&stack, "x", ENV_LOCAL), Some(strings(&["local"])));
    assert_eq!(values_of(&stack, "x", ENV_UNIVERSAL), None);
    assert_eq!(stack.remove("x", mode(ENV_DEFAULT)), EnvStackSetResult::ENV_OK);
    assert_eq!(values_of(&stack, "x", ENV_DEFAULT), Some(strings(&["global"])));
}

#[test]
fn of_several_scope_flags_the_first_is_honoured() {
    let mut stack = EnvStack::new(true);
    stack.push(true);
    assert_eq!(stack.set("x", mode(ENV_LOCAL | ENV_GLOBAL), strings(&["1"])), EnvStackSetResult::ENV_OK);
    assert_eq!(values_of(&stack, "x", ENV_LOCAL), Some(strings(&["1"])));
    assert_eq!(values_of(&stack, "x", ENV_GLOBAL), None);
    assert_eq!(stack.set("y", mode(ENV_GLOBAL | ENV_UNIVERSAL), strings(&["2"])), EnvStackSetResult::ENV_OK);
    assert_eq!(values_of(&stack, "y", ENV_GLOBAL), Some(strings(&["2"])));
    assert_eq!(values_of(&stack, "y", ENV_UNIVERSAL), None);
}

#[test]
fn a_filter_passes_over_cells_and_goes_on_to_the_next_layer() {
    let mut stack = EnvStack::new(true);
    assert_eq!(stack.set("x", mode(ENV_GLOBAL | ENV_EXPORT), strings(&["global"])), EnvStackSetResult::ENV_OK);
    stack.push(true);
    assert_eq!(stack.set("x", mode(ENV_LOCAL | ENV_UNEXPORT), strings(&["local"])), EnvStackSetResult::ENV_OK);
    assert_eq!(values_of(&stack, "x", ENV_DEFAULT), Some(strings(&["local"])));
    assert_eq!(values_of(&stack, "x", ENV_EXPORT), Some(strings(&["global"])));
    assert_eq!(values_of(&stack, "x", ENV_UNEXPORT), Some(strings(&["local"])));
    assert_eq!(values_of(&stack, "x", ENV_LOCAL | ENV_EXPORT), None);
    assert_eq!(values_of(&stack, "x", ENV_GLOBAL | ENV_UNEXPORT), None);
    assert_eq!(values_of(&stack, "x", ENV_EXPORT | ENV_UNEXPORT), Some(strings(&["global"])));
}

#[test]
fn removal_answers() {
    let mut stack = EnvStack::new(true);
    assert_eq!(stack.remove("x", mode(ENV_DEFAULT)), EnvStackSetResult::ENV_NOT_FOUND);
    assert_eq!(stack.remove("x", mode(ENV_GLOBAL)), EnvStackSetResult::ENV_NOT_FOUND);
    assert_eq!(stack.remove("x", mode(ENV_UNIVERSAL)), EnvStackSetResult::ENV_NOT_FOUND);
    assert_eq!(stack.remove("x", mode(ENV_LOCAL)), EnvStackSetResult::ENV_SCOPE);
    assert_eq!(stack.remove("status", mode(ENV_DEFAULT)), EnvStackSetResult::ENV_PERM);
    assert_eq!(stack.remove("PWD", mode(ENV_GLOBAL)), EnvStackSetResult::ENV_PERM);
    assert_eq!(stack.set("x", mode(ENV_DEFAULT), strings(&["1"])), EnvStackSetResult::ENV_OK);
    assert_eq!(stack.remove("x", mode(ENV_UNIVERSAL)), EnvStackSetResult::ENV_NOT_FOUND);
    assert_eq!(stack.remove("x", mode(ENV_GLOBAL | ENV_EXPORT)), EnvStackSetResult::ENV_OK);
    assert!(stack.get("x").is_none());
    assert_eq!(stack.remove("x", mode(ENV_GLOBAL)), EnvStackSetResult::ENV_NOT_FOUND);
}

#[test]
fn a_read_only_variable_is_kept() {
    let mut stack = EnvStack::new(true);
    let cell = EnvVar::new_vec(strings(&["fixed"]), EnvVarFlags { exports: false, read_only: true, pathvar: false });
    assert!(stack.apply_universal_change("ro", 1, Some(cell.clone())));
    assert_eq!(stack.get("ro"), Some(cell.clone()));
    assert_eq!(stack.set("ro", mode(ENV_DEFAULT), strings(&["new"])), EnvStackSetResult::ENV_PERM);
    assert_eq!(stack.set("ro", mode(ENV_EXPORT), strings(&["new"])), EnvStackSetResult::ENV_PERM);
    assert_eq!(stack.set("ro", mode(ENV_UNIVERSAL), strings(&["new"])), EnvStackSetResult::ENV_PERM);
    assert_eq!(stack.set("ro", mode(ENV_DEFAULT), strings(&[])), EnvStackSetResult::ENV_PERM);
    stack.push(true);
    assert_eq!(stack.set("ro", mode(ENV_DEFAULT), strings(&["new"])), EnvStackSetResult::ENV_PERM);
    stack.pop();
    assert_eq!(stack.remove("ro", mode(ENV_UNIVERSAL)), EnvStackSetResult::ENV_PERM);
    assert_eq!(stack.get("ro"), Some(cell));
    assert!(stack.take_changes().is_empty());
}

#[test]
fn an_electric_variable_without_a_write_hook_is_refused() {
    let mut stack = EnvStack::new(true);
    stack.push(true);
    for name in ["status", "pipestatus", "fish_kill_signal", "SHLVL"] {
        for bits in [ENV_DEFAULT, ENV_LOCAL, ENV_GLOBAL, ENV_UNIVERSAL, ENV_EXPORT, ENV_UNEXPORT] {
            for values in [strings(&[]), strings(&["1"]), strings(&["1", "2"]), strings(&["a:b", ""])] {
                assert_eq!(stack.set(name, mode(bits), values), EnvStackSetResult::ENV_PERM);
            }
        }
    }
    assert_eq!(values_of(&stack, "status", ENV_DEFAULT), Some(strings(&["0"])));
    assert_eq!(values_of(&stack, "SHLVL", ENV_DEFAULT), Some(strings(&["1"])));
}

#[test]
fn electric_variables_read_the_state_whatever_the_mode() {
    let mut stack = EnvStack::new(true);
    stack.set_last_statuses(Statuses::from_parts(2, 0, vec![0, 2]));
    stack.set_shell_level(4);
    for bits in [ENV_DEFAULT, ENV_LOCAL, ENV_GLOBAL, ENV_UNIVERSAL, ENV_EXPORT, ENV_UNEXPORT] {
        assert_eq!(values_of(&stack, "status", bits), Some(strings(&["2"])));
        assert_eq!(values_of(&stack, "pipestatus", bits), Some(strings(&["0", "2"])));
        assert_eq!(values_of(&stack, "fish_kill_signal", bits), Some(strings(&["0"])));
        assert_eq!(values_of(&stack, "SHLVL", bits), Some(strings(&["4"])));
    }
    stack.set_last_statuses(Statuses::from_parts(143, 15, vec![143]));
    assert_eq!(values_of(&stack, "fish_kill_signal", ENV_DEFAULT), Some(strings(&["15"])));
    assert_eq!(values_of(&stack, "status", ENV_DEFAULT), Some(strings(&["143"])));
}

#[test]
fn last_statuses_are_replaced_as_a_whole() {
    let mut stack = EnvStack::new(true);
    stack.set_last_statuses(Statuses::from_parts(2, 0, vec![0, 2]));
    let s = stack.get_last_statuses();
    assert_eq!(s.status, 2);
    assert!(s.kill_signal.is_none());
    assert_eq!(s.pipestatus, vec![0, 2]);
    stack.set_last_statuses(Statuses::just(1));
    let s = stack.get_last_statuses();
    assert_eq!(s.status, 1);
    assert_eq!(s.pipestatus, vec![1]);
}

#[test]
fn the_working_directory() {
    let mut stack = EnvStack::new(true);
    assert_eq!(stack.get_pwd_slash(), "/");
    assert_eq!(stack.set("PWD", mode(ENV_GLOBAL | ENV_EXPORT), strings(&["/home/me"])), EnvStackSetResult::ENV_OK);
    assert_eq!(values_of(&stack, "PWD", ENV_DEFAULT), Some(strings(&["/home/me"])));
    assert_eq!(stack.get_pwd_slash(), "/home/me/");
    assert_eq!(stack.set("PWD", mode(ENV_DEFAULT), strings(&["/a", "/b"])), EnvStackSetResult::ENV_INVALID);
    assert_eq!(stack.set("PWD", mode(ENV_DEFAULT), strings(&[])), EnvStackSetResult::ENV_INVALID);
    assert_eq!(stack.get_pwd_slash(), "/home/me/");
    stack.set_pwd_from_getcwd("/srv/");
    assert_eq!(stack.get_pwd_slash(), "/srv/");
    stack.set_pwd_from_getcwd("");
    assert_eq!(stack.get_pwd_slash(), "/srv/");
    assert_eq!(values_of(&stack, "PWD", ENV_DEFAULT), Some(strings(&["/srv/"])));
}

#[test]
fn the_working_directory_outlives_a_function_scope() {
    let mut stack = EnvStack::new(true);
    stack.set_pwd_from_getcwd("/a");
    stack.push(true);
    assert_eq!(stack.set("PWD", mode(ENV_LOCAL), strings(&["/b"])), EnvStackSetResult::ENV_OK);
    stack.pop();
    assert_eq!(values_of(&stack, "PWD", ENV_DEFAULT), Some(strings(&["/b"])));
}

#[test]
fn names_are_listed_once_innermost_first() {
    let mut stack = EnvStack::new(true);
    assert_eq!(stack.set("g1", mode(ENV_GLOBAL), strings(&["1"])), EnvStackSetResult::ENV_OK);
    assert_eq!(stack.set("both", mode(ENV_GLOBAL | ENV_EXPORT), strings(&["1"])), EnvStackSetResult::ENV_OK);
    assert!(stack.apply_universal_change("u1", 1, Some(EnvVar::new("x".to_string(), EnvVarFlags::empty()))));
    assert!(stack.apply_universal_change("both", 2, Some(EnvVar::new("x".to_string(), EnvVarFlags::empty()))));
    stack.push(true);
    assert_eq!(stack.set("l1", mode(ENV_LOCAL), strings(&["1"])), EnvStackSetResult::ENV_OK);
    assert_eq!(stack.set("both", mode(ENV_LOCAL), strings(&["1"])), EnvStackSetResult::ENV_OK);
    let mut expected = strings(&ELECTRIC);
    expected.extend(strings(&["l1", "both", "g1", "u1"]));
    assert_eq!(stack.get_names(mode(ENV_DEFAULT)), expected);
    let mut local = strings(&ELECTRIC);
    local.extend(strings(&["l1", "both"]));
    assert_eq!(stack.get_names(mode(ENV_LOCAL)), local);
    let mut global = strings(&ELECTRIC);
    global.extend(strings(&["g1", "both"]));
    assert_eq!(stack.get_names(mode(ENV_GLOBAL)), global);
    let mut universal = strings(&ELECTRIC);
    universal.extend(strings(&["u1", "both"]));
    assert_eq!(stack.get_names(mode(ENV_UNIVERSAL)), universal);
    let mut exported = strings(&ELECTRIC);
    exported.extend(strings(&["both"]));
    assert_eq!(stack.get_names(mode(ENV_EXPORT)), exported);
    let mut unexported = strings(&ELECTRIC);
    unexported.extend(strings(&["l1", "both", "g1", "u1"]));
    assert_eq!(stack.get_names(mode(ENV_UNEXPORT)), unexported);
}

#[test]
fn a_listed_name_is_a_name_that_a_query_finds() {
    let mut stack = EnvStack::new(true);
    assert_eq!(stack.set("a", mode(ENV_GLOBAL | ENV_EXPORT), strings(&["1"])), EnvStackSetResult::ENV_OK);
    assert!(stack.apply_universal_change("u", 1, Some(EnvVar::new("x".to_string(), EnvVarFlags::empty()))));
    stack.push(true);
    assert_eq!(stack.set("b", mode(ENV_LOCAL), strings(&["1"])), EnvStackSetResult::ENV_OK);
    stack.push(false);
    assert_eq!(stack.set("a", mode(ENV_LOCAL), strings(&["2"])), EnvStackSetResult::ENV_OK);
    let candidates = ["a", "b", "u", "c", "status", "PWD"];
    for bits in 0u16..32 {
        let names = stack.get_names(mode(bits));
        for name in candidates {
            assert_eq!(names.contains(&name.to_string()), stack.getf(name, mode(bits)).is_some());
        }
        let mut sorted = names.clone();
        sorted.sort();
        sorted.dedup();
        assert_eq!(sorted.len(), names.len());
    }
}

#[test]
fn path_is_exported_with_colons() {
    let mut stack = EnvStack::new(true);
    assert_eq!(stack.set("PATH", mode(ENV_EXPORT), strings(&["/bin", "/usr/bin"])), EnvStackSetResult::ENV_OK);
    let exported = stack.export_array();
    assert!(exported.contains(&"PATH=/bin:/usr/bin".to_string()));
    assert_eq!(exported, strings(&["PWD=", "SHLVL=1", "PATH=/bin:/usr/bin"]));
}

#[test]
fn exported_entries_are_stable() {
    let mut stack = EnvStack::new(true);
    assert_eq!(stack.set("B", mode(ENV_EXPORT), strings(&["2", "3"])), EnvStackSetResult::ENV_OK);
    assert_eq!(stack.set("A", mode(ENV_EXPORT), strings(&["1"])), EnvStackSetResult::ENV_OK);
    assert_eq!(stack.set("hidden", mode(ENV_DEFAULT), strings(&["x"])), EnvStackSetResult::ENV_OK);
    let first = stack.export_array();
    let second = stack.export_array();
    assert_eq!(first, second);
    assert_eq!(first, strings(&["PWD=", "SHLVL=1", "B=2 3", "A=1"]));
}

#[test]
fn exported_entries_follow_every_change_of_an_exported_binding() {
    let mut stack = EnvStack::new(true);
    stack.set_pwd_from_getcwd("/w");
    assert_eq!(stack.export_array(), strings(&["PWD=/w", "SHLVL=1"]));
    assert_eq!(stack.set("A", mode(ENV_EXPORT), strings(&["1"])), EnvStackSetResult::ENV_OK);
    assert_eq!(stack.export_array(), strings(&["PWD=/w", "SHLVL=1", "A=1"]));
    assert_eq!(stack.set("A", mode(ENV_DEFAULT), strings(&["2"])), EnvStackSetResult::ENV_OK);
    assert_eq!(stack.export_array(), strings(&["PWD=/w", "SHLVL=1", "A=2"]));
    assert_eq!(stack.set("plain", mode(ENV_DEFAULT), strings(&["x"])), EnvStackSetResult::ENV_OK);
    assert_eq!(stack.export_array(), strings(&["PWD=/w", "SHLVL=1", "A=2"]));
    stack.push(true);
    assert_eq!(stack.export_array(), strings(&["PWD=/w", "SHLVL=1", "A=2"]));
    assert_eq!(stack.set("L", mode(ENV_LOCAL | ENV_EXPORT), strings(&["l"])), EnvStackSetResult::ENV_OK);
    assert_eq!(stack.export_array(), strings(&["PWD=/w", "SHLVL=1", "L=l", "A=2"]));
    assert_eq!(stack.set("A", mode(ENV_LOCAL), strings(&["shadow"])), EnvStackSetResult::ENV_OK);
    assert_eq!(stack.export_array(), strings(&["PWD=/w", "SHLVL=1", "L=l", "A=2"]));
    assert_eq!(stack.set("A", mode(ENV_LOCAL | ENV_EXPORT), strings(&["inner"])), EnvStackSetResult::ENV_OK);
    assert_eq!(stack.export_array(), strings(&["PWD=/w", "SHLVL=1", "L=l", "A=inner"]));
    stack.pop();
    assert_eq!(stack.export_array(), strings(&["PWD=/w", "SHLVL=1", "A=2"]));
    assert_eq!(stack.set("A", mode(ENV_UNEXPORT), strings(&["3"])), EnvStackSetResult::ENV_OK);
    assert_eq!(stack.export_array(), strings(&["PWD=/w", "SHLVL=1"]));
    assert_eq!(stack.set("A", mode(ENV_EXPORT), strings(&["4"])), EnvStackSetResult::ENV_OK);
    assert_eq!(stack.remove("plain", mode(ENV_DEFAULT)), EnvStackSetResult::ENV_OK);
    assert_eq!(stack.export_array(), strings(&["PWD=/w", "SHLVL=1", "A=4"]));
    assert_eq!(stack.remove("A", mode(ENV_DEFAULT)), EnvStackSetResult::ENV_OK);
    assert_eq!(stack.export_array(), strings(&["PWD=/w", "SHLVL=1"]));
    stack.set_shell_level(2);
    stack.set_last_statuses(Statuses::just(5));
    assert_eq!(stack.export_array(), strings(&["PWD=/w", "SHLVL=2"]));
    let exported = EnvVar::new("u".to_string(), EnvVarFlags { exports: true, read_only: false, pathvar: false });
    assert!(stack.apply_universal_change("U", 1, Some(exported)));
    assert_eq!(stack.export_array(), strings(&["PWD=/w", "SHLVL=2", "U=u"]));
    assert_eq!(stack.set("U", mode(ENV_UNIVERSAL | ENV_UNEXPORT), strings(&["v"])), EnvStackSetResult::ENV_OK);
    assert_eq!(stack.export_array(), strings(&["PWD=/w", "SHLVL=2"]));
}

#[test]
fn what_the_caller_does_to_the_entries_stays_with_the_caller() {
    let mut stack = EnvStack::new(true);
    let mut first = stack.export_array();
    first.push("X=1".to_string());
    first[0] = "changed".to_string();
    assert_eq!(stack.export_array(), strings(&["PWD=", "SHLVL=1"]));
}

#[test]
fn the_universal_tier_is_the_last_layer() {
    let mut stack = EnvStack::new(true);
    assert_eq!(stack.set("u", mode(ENV_UNIVERSAL), strings(&["1"])), EnvStackSetResult::ENV_OK);
    assert_eq!(values_of(&stack, "u", ENV_UNIVERSAL), Some(strings(&["1"])));
    assert_eq!(values_of(&stack, "u", ENV_DEFAULT), Some(strings(&["1"])));
    assert_eq!(values_of(&stack, "u", ENV_GLOBAL), None);
    assert_eq!(stack.set("u", mode(ENV_DEFAULT), strings(&["2"])), EnvStackSetResult::ENV_OK);
    assert_eq!(values_of(&stack, "u", ENV_DEFAULT), Some(strings(&["2"])));
    assert_eq!(values_of(&stack, "u", ENV_GLOBAL), Some(strings(&["2"])));
    assert_eq!(values_of(&stack, "u", ENV_UNIVERSAL), Some(strings(&["1"])));
    assert_eq!(stack.remove("u", mode(ENV_UNIVERSAL)), EnvStackSetResult::ENV_OK);
    assert_eq!(values_of(&stack, "u", ENV_UNIVERSAL), None);
    assert_eq!(stack.remove("u", mode(ENV_UNIVERSAL)), EnvStackSetResult::ENV_NOT_FOUND);
}

#[test]
fn changes_from_outside_are_folded_into_the_tier() {
    let mut stack = EnvStack::new(true);
    let one = EnvVar::new("one".to_string(), EnvVarFlags::empty());
    let two = EnvVar::new("two".to_string(), EnvVarFlags::empty());
    assert!(stack.apply_universal_change("u", 2, Some(two.clone())));
    assert!(!stack.apply_universal_change("u", 1, Some(one.clone())));
    assert_eq!(stack.get("u"), Some(two));
    assert!(stack.apply_universal_change("u", 3, None));
    assert!(stack.get("u").is_none());
    assert!(!stack.apply_universal_change("status", 1, Some(one.clone())));
    assert!(!stack.apply_universal_change("a=b", 1, Some(one.clone())));
    assert!(!stack.apply_universal_change("", 1, Some(one)));
    assert_eq!(values_of(&stack, "status", ENV_UNIVERSAL), Some(strings(&["0"])));
    assert!(stack.take_changes().is_empty());
}

#[test]
fn each_change_made_is_noticed_once() {
    let mut stack = EnvStack::new(true);
    assert_eq!(stack.set("a", mode(ENV_DEFAULT), strings(&["1"])), EnvStackSetResult::ENV_OK);
    assert_eq!(stack.set("a=", mode(ENV_DEFAULT), strings(&["1"])), EnvStackSetResult::ENV_INVALID);
    assert_eq!(stack.set("u", mode(ENV_UNIVERSAL), strings(&["1"])), EnvStackSetResult::ENV_OK);
    assert_eq!(stack.set("PWD", mode(ENV_UNIVERSAL), strings(&["/x"])), EnvStackSetResult::ENV_OK);
    assert_eq!(stack.remove("a", mode(ENV_DEFAULT)), EnvStackSetResult::ENV_OK);
    assert_eq!(stack.remove("a", mode(ENV_DEFAULT)), EnvStackSetResult::ENV_NOT_FOUND);
    assert_eq!(stack.remove("u", mode(ENV_UNIVERSAL)), EnvStackSetResult::ENV_OK);
    let changes: Vec<(String, bool)> = stack.take_changes().into_iter().map(|c| (c.name, c.universal)).collect();
    let expected: Vec<(String, bool)> = [("a", false), ("u", true), ("PWD", false), ("a", false), ("u", true)]
        .iter()
        .map(|(n, u)| (n.to_string(), *u))
        .collect();
    assert_eq!(changes, expected);
    assert!(stack.take_changes().is_empty());
}

#[test]
fn a_snapshot_does_not_follow_the_stack() {
    let mut stack = EnvStack::new(true);
    assert_eq!(stack.set("x", mode(ENV_GLOBAL | ENV_EXPORT), strings(&["1"])), EnvStackSetResult::ENV_OK);
    stack.push(true);
    assert_eq!(stack.set("l", mode(ENV_LOCAL), strings(&["2"])), EnvStackSetResult::ENV_OK);
    stack.set_last_statuses(Statuses::just(7));
    let names = stack.get_names(mode(ENV_DEFAULT));
    let snap = stack.snapshot();
    assert_eq!(stack.set("x", mode(ENV_GLOBAL), strings(&["changed"])), EnvStackSetResult::ENV_OK);
    assert_eq!(stack.remove("l", mode(ENV_LOCAL)), EnvStackSetResult::ENV_OK);
    assert_eq!(stack.set("new", mode(ENV_DEFAULT), strings(&["3"])), EnvStackSetResult::ENV_OK);
    stack.set_last_statuses(Statuses::just(8));
    stack.pop();
    assert_eq!(snap.get("x").unwrap().as_list(), &strings(&["1"]));
    assert_eq!(snap.getf("x", mode(ENV_EXPORT)).unwrap().as_list(), &strings(&["1"]));
    assert_eq!(snap.getf("l", mode(ENV_LOCAL)).unwrap().as_list(), &strings(&["2"]));
    assert!(snap.getf("l", mode(ENV_GLOBAL)).is_none());
    assert!(snap.get("new").is_none());
    assert_eq!(snap.get("status").unwrap().as_list(), &strings(&["7"]));
    assert_eq!(snap.get_names(mode(ENV_DEFAULT)), names);
    assert_eq!(stack.get("x").unwrap().as_list(), &strings(&["changed"]));
    assert_eq!(stack.get("status").unwrap().as_list(), &strings(&["8"]));
}

#[test]
fn an_empty_variable_counts_as_none_on_request() {
    let mut stack = EnvStack::new(true);
    assert_eq!(stack.set("none", mode(ENV_DEFAULT), strings(&[])), EnvStackSetResult::ENV_OK);
    assert_eq!(stack.set("blank", mode(ENV_DEFAULT), strings(&[""])), EnvStackSetResult::ENV_OK);
    assert_eq!(stack.set("full", mode(ENV_DEFAULT), strings(&["", ""])), EnvStackSetResult::ENV_OK);
    assert!(stack.get("none").is_some());
    assert!(stack.get("blank").is_some());
    assert!(stack.get_unless_empty("none").is_none());
    assert!(stack.get_unless_empty("blank").is_none());
    assert!(stack.get_unless_empty("full").is_some());
    assert!(stack.get_unless_empty("absent").is_none());
    assert!(stack.getf_unless_empty("full", mode(ENV_GLOBAL)).is_some());
    assert!(stack.getf_unless_empty("full", mode(ENV_UNIVERSAL)).is_none());
    assert!(stack.getf_unless_empty("blank", mode(ENV_GLOBAL)).is_none());
}

#[test]
fn the_empty_environment_binds_nothing() {
    let null = EnvNull::new();
    assert!(null.get("x").is_none());
    assert!(null.get("status").is_none());
    assert!(null.getf("PWD", mode(ENV_EXPORT)).is_none());
    assert!(null.get_unless_empty("x").is_none());
    assert!(null.get_names(mode(ENV_DEFAULT)).is_empty());
}

#[test]
fn a_plain_assignment_keeps_the_flags_of_a_universal_variable() {
    let mut stack = EnvStack::new(true);
    assert_eq!(stack.set("n", mode(ENV_UNIVERSAL | ENV_EXPORT), strings(&["a"])), EnvStackSetResult::ENV_OK);
    let before = stack.get("n").unwrap();
    assert_eq!(before.get_flags().bits(), 1);
    assert_eq!(stack.export_array(), strings(&["PWD=", "SHLVL=1", "n=a"]));
    assert_eq!(stack.set("n", mode(ENV_DEFAULT), strings(&["b"])), EnvStackSetResult::ENV_OK);
    let after = stack.get("n").unwrap();
    assert_eq!(after.as_list(), &strings(&["b"]));
    assert_eq!(after.get_flags(), before.get_flags());
    assert_eq!(after.get_flags().bits(), 1);
    assert_eq!(values_of(&stack, "n", ENV_GLOBAL), Some(strings(&["b"])));
    assert_eq!(values_of(&stack, "n", ENV_UNIVERSAL), Some(strings(&["a"])));
    assert_eq!(stack.export_array(), strings(&["PWD=", "SHLVL=1", "n=b"]));
}

#[test]
fn a_plain_assignment_keeps_the_path_flag_of_a_universal_variable() {
    let mut stack = EnvStack::new(true);
    let cell = EnvVar::new_vec(strings(&["/a", "/b"]), EnvVarFlags { exports: false, read_only: false, pathvar: true });
    assert!(stack.apply_universal_change("dirs", 1, Some(cell)));
    assert_eq!(stack.get("dirs").unwrap().as_string(), "/a:/b");
    stack.push(true);
    assert_eq!(stack.set("dirs", mode(ENV_DEFAULT), strings(&["/c:/d"])), EnvStackSetResult::ENV_INVALID);
    assert_eq!(stack.set("dirs", mode(ENV_DEFAULT), strings(&["/c", "/d"])), EnvStackSetResult::ENV_OK);
    let after = stack.get("dirs").unwrap();
    assert_eq!(after.get_flags(), EnvVarFlags { exports: false, read_only: false, pathvar: true });
    assert_eq!(after.as_string(), "/c:/d");
    assert_eq!(values_of(&stack, "dirs", ENV_LOCAL), Some(strings(&["/c", "/d"])));
    assert_eq!(stack.set("dirs", mode(ENV_GLOBAL), strings(&["x:y"])), EnvStackSetResult::ENV_OK);
    assert_eq!(stack.getf("dirs", mode(ENV_GLOBAL)).unwrap().get_flags(), EnvVarFlags::empty());
}

#[test]
fn an_exported_cell_is_handed_on_where_the_export_query_finds_it() {
    let mut stack = EnvStack::new(true);
    assert_eq!(stack.set("x", mode(ENV_GLOBAL | ENV_EXPORT), strings(&["g"])), EnvStackSetResult::ENV_OK);
    stack.push(true);
    assert_eq!(stack.set("x", mode(ENV_LOCAL | ENV_UNEXPORT), strings(&["l"])), EnvStackSetResult::ENV_OK);
    assert_eq!(values_of(&stack, "x", ENV_DEFAULT), Some(strings(&["l"])));
    assert_eq!(values_of(&stack, "x", ENV_EXPORT), Some(strings(&["g"])));
    assert_eq!(stack.export_array(), strings(&["PWD=", "SHLVL=1", "x=g"]));
    assert_eq!(stack.set("x", mode(ENV_LOCAL | ENV_EXPORT), strings(&["l2"])), EnvStackSetResult::ENV_OK);
    assert_eq!(stack.export_array(), strings(&["PWD=", "SHLVL=1", "x=l2"]));
}

#[test]
fn what_the_shell_reads_of_an_exported_variable_is_what_children_get() {
    let mut stack = EnvStack::new(true);
    assert_eq!(stack.set("a", mode(ENV_GLOBAL | ENV_EXPORT), strings(&["1", "2"])), EnvStackSetResult::ENV_OK);
    assert_eq!(stack.set("u", mode(ENV_UNIVERSAL | ENV_EXPORT), strings(&["3"])), EnvStackSetResult::ENV_OK);
    stack.push(true);
    assert_eq!(stack.set("a", mode(ENV_DEFAULT), strings(&["4"])), EnvStackSetResult::ENV_OK);
    assert_eq!(stack.set("b", mode(ENV_LOCAL | ENV_EXPORT), strings(&["5"])), EnvStackSetResult::ENV_OK);
    let exported = stack.export_array();
    for name in ["a", "b", "u", "PWD", "SHLVL"] {
        let var = stack.get(name).unwrap();
        assert!(var.exports());
        assert!(exported.contains(&format!("{}={}", name, var.as_string())));
    }
    assert_eq!(exported.len(), 5);
}
