use runx::cli::{HumanDuration, ToolSpec};

#[test]
fn test_tool_spec_with_version() {
    let spec: ToolSpec = "node@18".parse().unwrap();
    assert_eq!(spec.name, "node");
    assert_eq!(spec.version.as_deref(), Some("18"));
    assert_eq!(spec.to_string(), "node@18");
}

#[test]
fn test_tool_spec_with_semver() {
    let spec: ToolSpec = "python@3.11.2".parse().unwrap();
    assert_eq!(spec.name, "python");
    assert_eq!(spec.version.as_deref(), Some("3.11.2"));
}

#[test]
fn test_tool_spec_without_version() {
    let spec: ToolSpec = "node".parse().unwrap();
    assert_eq!(spec.name, "node");
    assert_eq!(spec.version, None);
    assert_eq!(spec.to_string(), "node");
}

#[test]
fn test_tool_spec_empty_rejected() {
    assert!("".parse::<ToolSpec>().is_err());
}

#[test]
fn test_tool_spec_missing_name_rejected() {
    assert!("@18".parse::<ToolSpec>().is_err());
}

#[test]
fn test_tool_spec_missing_version_rejected() {
    assert!("node@".parse::<ToolSpec>().is_err());
}

#[test]
fn test_duration_days() {
    let d: HumanDuration = "30d".parse().unwrap();
    assert_eq!(d.days, 30);
    assert_eq!(d.to_string(), "30d");
}

#[test]
fn test_duration_hours_rounds_up() {
    let d: HumanDuration = "25h".parse().unwrap();
    assert_eq!(d.days, 2);
}

#[test]
fn test_duration_empty_rejected() {
    assert!("".parse::<HumanDuration>().is_err());
}

#[test]
fn test_duration_invalid_suffix_rejected() {
    assert!("30x".parse::<HumanDuration>().is_err());
}

#[test]
fn test_duration_invalid_number_rejected() {
    assert!("abcd".parse::<HumanDuration>().is_err());
}

#[test]
fn tool_spec_messages() {
    assert_eq!("".parse::<ToolSpec>().unwrap_err(), "tool spec cannot be empty");
    assert_eq!("@18".parse::<ToolSpec>().unwrap_err(), "missing tool name in `@18`");
    assert_eq!("node@".parse::<ToolSpec>().unwrap_err(), "missing version after `@` in `node@`");
}

#[test]
fn tool_spec_trims_and_splits_at_first_at() {
    let spec: ToolSpec = "  deno@1.40.5@x ".parse().unwrap();
    assert_eq!(spec.name, "deno");
    assert_eq!(spec.version.as_deref(), Some("1.40.5@x"));
    assert_eq!(spec.to_string(), "deno@1.40.5@x");
    let back: ToolSpec = spec.to_string().parse().unwrap();
    assert_eq!(back, spec);
}

#[test]
fn duration_messages_and_rounding() {
    assert_eq!("24h".parse::<HumanDuration>().unwrap().days, 1);
    assert_eq!("0h".parse::<HumanDuration>().unwrap().days, 0);
    assert_eq!("1h".parse::<HumanDuration>().unwrap().days, 1);
    assert_eq!(" 7d ".parse::<HumanDuration>().unwrap().days, 7);
    assert_eq!("".parse::<HumanDuration>().unwrap_err(), "duration cannot be empty");
    assert_eq!("xd".parse::<HumanDuration>().unwrap_err(), "invalid number in duration `xd`");
    assert_eq!(
        "30x".parse::<HumanDuration>().unwrap_err(),
        "invalid duration `30x`. Use a suffix: d (days) or h (hours). Example: 30d"
    );
    let d = HumanDuration { days: 12 };
    assert_eq!(d.to_string().parse::<HumanDuration>().unwrap(), d);
}

#[test]
fn version_spec_of_tool_spec() {
    let spec: ToolSpec = "node@22.11".parse().unwrap();
    assert_eq!(spec.version_spec().unwrap(), runx::version::VersionSpec::MajorMinor(22, 11));
    let spec: ToolSpec = "node".parse().unwrap();
    assert_eq!(spec.version_spec().unwrap(), runx::version::VersionSpec::Latest);
    let spec: ToolSpec = "node@x.y".parse().unwrap();
    let err = spec.version_spec().unwrap_err();
    assert!(err.to_string().contains("failed to resolve node version: invalid major version in `x.y`"));
}
