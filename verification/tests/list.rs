use runx::list::{cached_named, cached_total};
use runx::cache::CachedTool;
use runx::list::{
    alias_text, available_version_specs, cached_info, collect_available, format_size, more_line,
    supported_tools, total_line,
};
use runx::version::{Version, VersionSpec};

#[test]
fn test_format_size_bytes() {
    assert_eq!(format_size(0), "0 B");
    assert_eq!(format_size(512), "512 B");
}

#[test]
fn test_format_size_kilobytes() {
    assert_eq!(format_size(1024), "1.0 KB");
    assert_eq!(format_size(1536), "1.5 KB");
}

#[test]
fn test_format_size_megabytes() {
    assert_eq!(format_size(1024 * 1024), "1.0 MB");
    assert_eq!(format_size(5 * 1024 * 1024), "5.0 MB");
}

#[test]
fn test_format_size_gigabytes() {
    assert_eq!(format_size(1024 * 1024 * 1024), "1.0 GB");
}

#[test]
fn test_format_size_boundaries() {
    assert_eq!(format_size(1023), "1023 B");
    assert_eq!(format_size(1024 * 1024 - 1), "1024.0 KB");
    assert_eq!(format_size(1024 * 1024 * 1024 - 1), "1024.0 MB");
}

#[test]
fn format_size_matches_float_formatting() {
    let samples: [u64; 14] = [
        1280, 1792, 1024, 1075, 1126, 1177, 1228, 1279, 1331, 52 * 1024 + 51, 3 * 1024 * 1024 + 314_572,
        1024 * 1024 * 1024 + 53_687_091, 1024 * 1024 * 1024 * 7 + 1, 1024 * 1024 * 1024 * 1024,
    ];
    for bytes in samples {
        let expected = if bytes >= 1024 * 1024 * 1024 {
            format!("{:.1} GB", bytes as f64 / (1024.0 * 1024.0 * 1024.0))
        } else if bytes >= 1024 * 1024 {
            format!("{:.1} MB", bytes as f64 / (1024.0 * 1024.0))
        } else {
            format!("{:.1} KB", bytes as f64 / 1024.0)
        };
        assert_eq!(format_size(bytes), expected, "bytes = {bytes}");
    }
}

#[test]
fn test_supported_tools_complete() {
    for (name, aliases) in supported_tools() {
        assert!(runx::provider::get_provider(name, vec![]).is_ok(), "provider not found for {name}");
        for alias in aliases {
            assert!(runx::provider::get_provider(alias, vec![]).is_ok(), "provider not found for alias {alias}");
        }
    }
}

#[test]
fn alias_and_cache_columns() {
    assert_eq!(alias_text(&vec![]), "\u{2014}");
    assert_eq!(alias_text(&vec!["nodejs"]), "nodejs");
    assert_eq!(alias_text(&vec!["a", "b"]), "a, b");
    let tools = vec![
        CachedTool { name: "node".to_string(), versions: vec!["18.0.0".to_string()], size_bytes: 1536 },
        CachedTool { name: "go".to_string(), versions: vec!["1.21.6".to_string(), "1.22.0".to_string()], size_bytes: 5 * 1024 * 1024 },
    ];
    assert_eq!(cached_info(&tools, "node"), "1 version (1.5 KB)");
    assert_eq!(cached_info(&tools, "go"), "2 versions (5.0 MB)");
    assert_eq!(cached_info(&tools, "bun"), "\u{2014}");
}

#[test]
fn available_versions_are_sorted_and_unique() {
    let latest = Version::parse("20.1.0").unwrap();
    let specs = available_version_specs(&latest);
    assert_eq!(specs.len(), 21 + 2);
    assert_eq!(specs[0], VersionSpec::Major(20));
    assert_eq!(specs[20], VersionSpec::Major(0));
    assert_eq!(specs[21], VersionSpec::MajorMinor(20, 1));
    assert_eq!(specs[22], VersionSpec::MajorMinor(20, 0));
    let resolved = vec![
        Some(Version::parse("20.1.0").unwrap()),
        None,
        Some(Version::parse("18.19.1").unwrap()),
        Some(Version::parse("20.0.3").unwrap()),
    ];
    let all = collect_available(latest, resolved);
    let texts: Vec<String> = all.iter().map(|v| v.to_string()).collect();
    assert_eq!(texts, vec!["20.1.0", "20.0.3", "18.19.1"]);
}

#[test]
fn list_summary_lines() {
    assert_eq!(more_line(20), None);
    assert_eq!(more_line(23).unwrap(), "  ... and 3 more");
    assert_eq!(total_line(1, 1024), "Total: 1 tool, 1.0 KB");
    assert_eq!(total_line(3, 0), "Total: 3 tools, 0 B");
}

#[test]
fn cached_named_filters_and_total_sums() {
    let tool = |name: &str, size: u64| CachedTool { name: name.to_string(), versions: vec!["1.0.0".to_string()], size_bytes: size };
    let all = vec![tool("node", 10), tool("go", 20), tool("node", 5)];
    let nodes = cached_named(all, Some("node"));
    assert_eq!(nodes.iter().map(|t| t.size_bytes).collect::<Vec<_>>(), vec![10, 5]);
    assert_eq!(cached_total(&nodes), 15);
    assert_eq!(cached_named(vec![tool("go", 1)], None).len(), 1);
    assert!(cached_named(vec![tool("go", 1)], Some("ruby")).is_empty());
    assert_eq!(cached_total(&vec![tool("a", u64::MAX), tool("b", 3)]), u64::MAX);
}
