use runx::clean::{CleanStep, clean_step, may_remove};
use runx::cache::{CachedTool, CachedVersion, CleanCandidates, find_older_than};
use runx::clean::{CleanPlan, all_summary, find_cached, is_confirmation, older_summary, run, tool_summary, versions_to_remove};
use runx::cli::{HumanDuration, ToolSpec};
use runx::list::format_size;
use runx::version::VersionSpec;

#[test]
fn test_clean_candidates_default() {
    let result = CleanCandidates::default();
    assert_eq!(result.total_bytes, 0);
    assert!(result.entries.is_empty());
}

#[test]
fn test_format_size_in_clean() {
    assert_eq!(format_size(0), "0 B");
    assert_eq!(format_size(1024 * 1024), "1.0 MB");
}

fn cached(tool: &str, version: &str, days: u64, size: u64) -> CachedVersion {
    CachedVersion {
        tool: tool.to_string(),
        version: version.to_string(),
        path: format!("/cache/{tool}/{version}/Linux-x86_64"),
        age_secs: days * 86400,
        size_bytes: size,
    }
}

#[test]
fn test_find_older_than_empty() {
    let result = find_older_than(&vec![], 30, None);
    assert!(result.entries.is_empty());
    assert_eq!(result.total_bytes, 0);
}

#[test]
fn test_find_older_than_recent() {
    let result = find_older_than(&vec![cached("node", "20.0.0", 0, 10)], 30, None);
    assert!(result.entries.is_empty());
}

#[test]
fn test_find_older_than_with_tool_filter() {
    let versions = vec![cached("node", "18.0.0", 0, 10), cached("python", "3.11.0", 0, 20)];
    let result = find_older_than(&versions, 30, Some("python"));
    assert!(result.entries.is_empty());
}

#[test]
fn older_than_selects_old_entries_of_the_tool() {
    let versions = vec![
        cached("node", "18.0.0", 45, 100),
        cached("node", "20.0.0", 3, 200),
        cached("python", "3.11.0", 60, 300),
        cached("node", "16.0.0", 30, 400),
    ];
    let all = find_older_than(&versions, 30, None);
    let labels: Vec<&str> = all.entries.iter().map(|e| e.label.as_str()).collect();
    assert_eq!(labels, vec!["node@18.0.0", "python@3.11.0", "node@16.0.0"]);
    assert_eq!(all.total_bytes, 800);
    let node = find_older_than(&versions, 30, Some("node"));
    assert_eq!(node.entries.len(), 2);
    assert_eq!(node.total_bytes, 500);
    assert_eq!(node.entries[0].path, "/cache/node/18.0.0/Linux-x86_64");
}

#[test]
fn older_than_total_saturates() {
    let versions = vec![cached("a", "1.0.0", 9, u64::MAX), cached("b", "1.0.0", 9, 5)];
    assert_eq!(find_older_than(&versions, 1, None).total_bytes, u64::MAX);
}

#[test]
fn clean_plans() {
    let spec = |s: &str| -> ToolSpec { s.parse().unwrap() };
    match run(Some(spec("node")), Some(HumanDuration { days: 30 })).unwrap() {
        CleanPlan::OlderThan { days, tool } => {
            assert_eq!(days, 30);
            assert_eq!(tool.as_deref(), Some("node"));
        }
        other => panic!("unexpected {other:?}"),
    }
    match run(Some(spec("java@21")), None).unwrap() {
        CleanPlan::Tool { name, versions } => {
            assert_eq!(name, "java");
            assert_eq!(versions, Some(VersionSpec::Major(21)));
        }
        other => panic!("unexpected {other:?}"),
    }
    match run(Some(spec("node")), None).unwrap() {
        CleanPlan::Tool { versions, .. } => assert!(versions.is_none()),
        other => panic!("unexpected {other:?}"),
    }
    assert!(matches!(run(None, None).unwrap(), CleanPlan::All));
    assert!(run(Some(spec("node@abc")), None).is_err());
}

#[test]
fn clean_by_version_selects_matching() {
    let cached = vec!["21.0.2".to_string(), "17.0.9".to_string(), "21.0.10".to_string(), "junk".to_string()];
    assert_eq!(versions_to_remove(&cached, &VersionSpec::Major(21)), vec!["21.0.2", "21.0.10"]);
    let exact = VersionSpec::Exact(runx::version::Version::parse("21.0.10").unwrap());
    assert_eq!(versions_to_remove(&cached, &exact), vec!["21.0.10"]);
}

#[test]
fn clean_messages() {
    let tools = vec![
        CachedTool { name: "node".to_string(), versions: vec!["18.0.0".to_string(), "20.0.0".to_string()], size_bytes: 1024 },
        CachedTool { name: "go".to_string(), versions: vec!["1.22.0".to_string()], size_bytes: 512 },
    ];
    assert_eq!(all_summary(&tools).unwrap(), "Will remove 2 tools, 3 versions (1.5 KB)");
    assert!(all_summary(&vec![]).is_none());
    assert_eq!(tool_summary(&tools[1]), "Will remove go (1 version, 512 B)");
    assert_eq!(older_summary(true, 1, 30, 2048), "Would remove 1 item older than 30d (2.0 KB):");
    assert_eq!(older_summary(false, 4, 7, 0), "Will remove 4 items older than 7d (0 B):");
    assert_eq!(find_cached(&tools, "go"), Some(1));
    assert_eq!(find_cached(&tools, "bun"), None);
}

#[test]
fn confirmation_answers() {
    assert!(is_confirmation("y\n"));
    assert!(is_confirmation(" Y "));
    assert!(!is_confirmation("yes"));
    assert!(!is_confirmation(""));
}

#[test]
fn clean_step_previews_asks_or_proceeds() {
    assert_eq!(clean_step(true, true), CleanStep::Preview);
    assert_eq!(clean_step(true, false), CleanStep::Preview);
    assert_eq!(clean_step(false, true), CleanStep::Proceed);
    assert_eq!(clean_step(false, false), CleanStep::Ask);
}

#[test]
fn dry_run_or_refusal_removes_nothing() {
    assert!(!may_remove(true, true, None));
    assert!(!may_remove(true, false, Some("y")));
    assert!(!may_remove(false, false, Some("n")));
    assert!(!may_remove(false, false, Some("")));
    assert!(!may_remove(false, false, None));
    assert!(may_remove(false, false, Some(" Y\n")));
    assert!(may_remove(false, true, None));
}
