use twer::errors::FatalError;
use twer::resolver::resolve;

#[test]
fn resolve_prefers_config_home() {
    let r = resolve(Some("/xdg"), Some("/home/u"));
    assert_eq!(r, Ok("/xdg/twer/".to_string()));
}

#[test]
fn resolve_config_home_alone_suffices() {
    let r = resolve(Some("/xdg"), None);
    assert_eq!(r, Ok("/xdg/twer/".to_string()));
}

#[test]
fn resolve_falls_back_to_home() {
    let r = resolve(None, Some("/home/u"));
    assert_eq!(r, Ok("/home/u/.local/etc/twer/".to_string()));
}

#[test]
fn resolve_empty_config_home_falls_back() {
    let r = resolve(Some(""), Some("/home/u"));
    assert_eq!(r, Ok("/home/u/.local/etc/twer/".to_string()));
}

#[test]
fn resolve_fails_when_neither_is_set() {
    assert_eq!(resolve(None, None), Err(FatalError::UnresolvableLocation));
}

#[test]
fn resolve_fails_when_both_are_empty() {
    assert_eq!(resolve(Some(""), Some("")), Err(FatalError::UnresolvableLocation));
}

#[test]
fn unresolvable_location_message_names_both_variables() {
    let m = FatalError::UnresolvableLocation.message();
    assert_eq!(
        m,
        "cannot determine a configuration directory: neither the configuration-home nor the home-directory variable is set"
    );
}
