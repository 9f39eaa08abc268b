use fish_env::mode::{
    filter_passes, EnvMode, EnvStackSetResult, Scope, ENV_DEFAULT, ENV_EXPORT, ENV_GLOBAL, ENV_LOCAL, ENV_UNEXPORT,
    ENV_UNIVERSAL,
};
use fish_env::status::{Signal, Statuses};

#[test]
fn mode_bits() {
    assert_eq!(ENV_DEFAULT, 0);
    assert_eq!(ENV_LOCAL, 1);
    assert_eq!(ENV_GLOBAL, 2);
    assert_eq!(ENV_UNIVERSAL, 4);
    assert_eq!(ENV_EXPORT, 8);
    assert_eq!(ENV_UNEXPORT, 16);
}

#[test]
fn mode_bits_round_trip() {
    for bits in 0u16..32 {
        let m = EnvMode::from_bits(bits).unwrap();
        assert_eq!(m.bits(), bits);
    }
    assert_eq!(EnvMode::from_bits(32), None);
    assert_eq!(EnvMode::from_bits(0xffff), None);
}

#[test]
fn mode_of_a_bit_set() {
    let m = EnvMode::from_bits(ENV_LOCAL | ENV_EXPORT).unwrap();
    assert_eq!(m, EnvMode { local: true, global: false, universal: false, export: true, unexport: false });
    assert_eq!(EnvMode::from_bits(ENV_DEFAULT).unwrap(), EnvMode::default_mode());
    assert_eq!(EnvMode::from_bits(ENV_EXPORT).unwrap(), EnvMode::export_mode());
}

#[test]
fn each_scope_flag_selects_its_scope() {
    assert_eq!(EnvMode::from_bits(ENV_DEFAULT).unwrap().get_scope(), Scope::Any);
    assert_eq!(EnvMode::from_bits(ENV_LOCAL).unwrap().get_scope(), Scope::Local);
    assert_eq!(EnvMode::from_bits(ENV_GLOBAL).unwrap().get_scope(), Scope::Global);
    assert_eq!(EnvMode::from_bits(ENV_UNIVERSAL).unwrap().get_scope(), Scope::Universal);
    assert_eq!(EnvMode::from_bits(ENV_EXPORT).unwrap().get_scope(), Scope::Any);
}

#[test]
fn of_several_scope_flags_the_first_counts() {
    assert_eq!(EnvMode::from_bits(ENV_LOCAL | ENV_GLOBAL).unwrap().get_scope(), Scope::Local);
    assert_eq!(EnvMode::from_bits(ENV_LOCAL | ENV_UNIVERSAL).unwrap().get_scope(), Scope::Local);
    assert_eq!(EnvMode::from_bits(ENV_GLOBAL | ENV_UNIVERSAL).unwrap().get_scope(), Scope::Global);
    assert_eq!(EnvMode::from_bits(ENV_LOCAL | ENV_GLOBAL | ENV_UNIVERSAL).unwrap().get_scope(), Scope::Local);
}

#[test]
fn export_counts_before_unexport() {
    assert_eq!(EnvMode::from_bits(ENV_DEFAULT).unwrap().get_export_filter(), None);
    assert_eq!(EnvMode::from_bits(ENV_EXPORT).unwrap().get_export_filter(), Some(true));
    assert_eq!(EnvMode::from_bits(ENV_UNEXPORT).unwrap().get_export_filter(), Some(false));
    assert_eq!(EnvMode::from_bits(ENV_EXPORT | ENV_UNEXPORT).unwrap().get_export_filter(), Some(true));
}

#[test]
fn a_filter_passes_the_cells_with_its_flag() {
    assert!(filter_passes(None, true));
    assert!(filter_passes(None, false));
    assert!(filter_passes(Some(true), true));
    assert!(!filter_passes(Some(true), false));
    assert!(filter_passes(Some(false), false));
    assert!(!filter_passes(Some(false), true));
}

#[test]
fn the_default_answer_is_ok() {
    assert_eq!(EnvStackSetResult::default(), EnvStackSetResult::ENV_OK);
}

#[test]
fn statuses_of_one_command() {
    let s = Statuses::just(3);
    assert_eq!(s.status, 3);
    assert!(s.kill_signal.is_none());
    assert_eq!(s.pipestatus, vec![3]);
    assert_eq!(s.kill_signal_code(), 0);
}

#[test]
fn statuses_from_their_parts() {
    let s = Statuses::from_parts(2, 0, vec![0, 2]);
    assert_eq!(s.status, 2);
    assert!(s.kill_signal.is_none());
    assert_eq!(s.pipestatus, vec![0, 2]);
    let killed = Statuses::from_parts(137, 9, vec![137]);
    assert_eq!(killed.kill_signal, Some(Signal::new(9)));
    assert_eq!(killed.kill_signal_code(), 9);
    assert_eq!(killed.kill_signal.unwrap().code(), 9);
}

#[test]
fn a_clone_of_statuses_holds_the_same() {
    let s = Statuses::from_parts(1, 15, vec![0, 0, 1]);
    let c = s.clone();
    assert_eq!(c.status, 1);
    assert_eq!(c.kill_signal_code(), 15);
    assert_eq!(c.pipestatus, vec![0, 0, 1]);
}
