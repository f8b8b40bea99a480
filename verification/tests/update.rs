use runx::update::{is_update, update_spec, update_summary};
use runx::version::{Version, VersionSpec};

fn v(s: &str) -> Version {
    Version::parse(s).unwrap()
}

#[test]
fn update_spec_stays_on_the_minor_line() {
    assert_eq!(update_spec(&v("20.11.0")), VersionSpec::MajorMinor(20, 11));
}

#[test]
fn is_update_only_for_newer_versions() {
    assert!(is_update(&v("20.11.1"), &v("20.11.0")));
    assert!(!is_update(&v("20.11.0"), &v("20.11.0")));
    assert!(!is_update(&v("20.10.9"), &v("20.11.0")));
    assert!(is_update(&v("1.0.0"), &v("1.0.0-rc.1")));
}

#[test]
fn update_summary_messages() {
    assert_eq!(update_summary(false, 3, 0, 0).as_deref(), Some("All cached tools are up to date."));
    assert_eq!(update_summary(false, 3, 2, 1).as_deref(), Some("\nUpdated 1 tool. Old versions kept in cache."));
    assert_eq!(update_summary(false, 3, 2, 2).as_deref(), Some("\nUpdated 2 tools. Old versions kept in cache."));
    assert_eq!(update_summary(true, 3, 0, 0).as_deref(), Some("All cached tools are up to date."));
    assert_eq!(update_summary(true, 3, 1, 0), None);
    assert_eq!(update_summary(true, 0, 0, 0), None);
}
