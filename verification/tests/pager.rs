use atc::pager::{choose_pager, pager_blocked_by_env, resolve_pager, DEFAULT_PAGER};

fn some(t: &str) -> Option<String> {
    Some(t.to_string())
}

#[test]
fn resolve_default_when_nothing_set() {
    assert_eq!(
        resolve_pager(&None, &None, &None),
        Some(DEFAULT_PAGER.to_string())
    );
}

#[test]
fn resolve_atc_pager_overrides() {
    assert_eq!(resolve_pager(&some("bat"), &None, &None), some("bat"));
}

#[test]
fn resolve_config_used_when_env_unset() {
    assert_eq!(
        resolve_pager(&None, &some("less -FRX"), &None),
        some("less -FRX")
    );
}

#[test]
fn resolve_pager_env_fallback() {
    assert_eq!(resolve_pager(&None, &None, &some("more")), some("more"));
}

#[test]
fn resolve_cat_disables() {
    assert!(resolve_pager(&some("cat"), &None, &None).is_none());
}

#[test]
fn resolve_empty_disables() {
    assert!(resolve_pager(&some(""), &None, &None).is_none());
}

#[test]
fn pager_blocked_by_atc_no_pager() {
    assert!(pager_blocked_by_env(true, &None));
}

#[test]
fn pager_blocked_by_atc_ci() {
    assert!(pager_blocked_by_env(false, &some("true")));
}

#[test]
fn pager_not_blocked_when_atc_ci_false() {
    assert!(!pager_blocked_by_env(false, &some("false")));
}

#[test]
fn setup_pager_returns_none_when_stdout_not_a_tty() {
    let resolved = resolve_pager(&some("less -R"), &None, &None);
    assert!(choose_pager(false, pager_blocked_by_env(false, &None), resolved).is_none());
}

#[test]
fn pager_is_started_on_terminals() {
    assert_eq!(choose_pager(true, false, some("less")), some("less"));
    assert_eq!(choose_pager(true, true, some("less")), None);
}
