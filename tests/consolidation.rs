use data_extractor::consolidate::{combine, is_same_rule, merge_outputs, sort_rules_by_name};
use data_extractor::schema::{MinecraftMajorVersion, Output, RawRule};
use data_extractor::stats::{rule_stats, total_count};

fn strings(items: &[&str]) -> Vec<String> {
    items.iter().map(|s| s.to_string()).collect()
}

fn raw(name: &str, validators: &[&str], description: &str) -> RawRule {
    RawRule {
        name: name.to_string(),
        description: description.to_string(),
        type_: "boolean".to_string(),
        value: "false".to_string(),
        strict: true,
        categories: strings(&["feature"]),
        options: vec![],
        extras: vec![],
        validators: strings(validators),
        config_files: strings(&["carpet.conf"]),
    }
}

fn output(plugin: &str, version: MinecraftMajorVersion, url: &str, rules: Vec<RawRule>) -> Output {
    Output {
        mod_name: plugin.to_string(),
        mod_slug: plugin.to_lowercase(),
        mod_url: format!("https://modrinth.com/mod/{}", plugin.to_lowercase()),
        minecraft_version: version,
        version_url: url.to_string(),
        rules,
    }
}

#[test]
fn end_to_end_example() {
    let outputs = vec![
        output("A", MinecraftMajorVersion::V1_19, "U1", vec![raw("fooBar", &["NonNegative"], "old")]),
        output(
            "A",
            MinecraftMajorVersion::V1_20,
            "U2",
            vec![raw("fooBar", &["NonNegative", "Positive"], "new")],
        ),
    ];
    let combined = combine(&outputs);
    assert_eq!(combined.len(), 1);
    let rule = &combined[0];
    assert_eq!(rule.name, "fooBar");
    assert_eq!(rule.validators, strings(&["NonNegative", "Positive"]));
    assert_eq!(
        rule.minecraft_versions,
        vec![MinecraftMajorVersion::V1_19, MinecraftMajorVersion::V1_20]
    );
    assert_eq!(rule.version_urls, strings(&["U1", "U2"]));
    assert_eq!(rule.description, "new");
}

#[test]
fn validator_shrinkage_still_merges() {
    let outputs = vec![
        output("A", MinecraftMajorVersion::V1_19, "U1", vec![raw("x", &["P", "Q"], "d")]),
        output("A", MinecraftMajorVersion::V1_20, "U2", vec![raw("x", &["P"], "d")]),
    ];
    let combined = combine(&outputs);
    assert_eq!(combined.len(), 1);
    assert_eq!(combined[0].validators, strings(&["P"]));
}

#[test]
fn unrelated_validators_do_not_merge() {
    let outputs = vec![
        output("A", MinecraftMajorVersion::V1_19, "U1", vec![raw("x", &["P"], "d")]),
        output("A", MinecraftMajorVersion::V1_20, "U2", vec![raw("x", &["Q"], "d")]),
    ];
    let combined = combine(&outputs);
    assert_eq!(combined.len(), 2);
    assert_eq!(combined[0].version_urls, strings(&["U1"]));
    assert_eq!(combined[1].version_urls, strings(&["U2"]));
}

#[test]
fn different_plugins_never_merge() {
    let outputs = vec![
        output("A", MinecraftMajorVersion::V1_19, "U1", vec![raw("x", &[], "d")]),
        output("B", MinecraftMajorVersion::V1_19, "U2", vec![raw("x", &[], "d")]),
    ];
    let combined = combine(&outputs);
    assert_eq!(combined.len(), 2);
    assert_eq!(combined[0].mod_name, "A");
    assert_eq!(combined[1].mod_name, "B");
    assert!(!is_same_rule(&combined[0], &combined[1]));
}

#[test]
fn differing_default_value_does_not_merge() {
    let mut changed = raw("x", &[], "d");
    changed.value = "true".to_string();
    let outputs = vec![
        output("A", MinecraftMajorVersion::V1_19, "U1", vec![raw("x", &[], "d")]),
        output("A", MinecraftMajorVersion::V1_20, "U2", vec![changed]),
    ];
    assert_eq!(combine(&outputs).len(), 2);
}

#[test]
fn result_sorted_by_name_with_ties_in_first_seen_order() {
    let outputs = vec![
        output("B", MinecraftMajorVersion::V1_19, "U1", vec![raw("zeta", &[], "d"), raw("alpha", &[], "d")]),
        output("A", MinecraftMajorVersion::V1_19, "U2", vec![raw("alpha", &[], "d"), raw("Mid", &[], "d")]),
    ];
    let combined = combine(&outputs);
    let names: Vec<&str> = combined.iter().map(|r| r.name.as_str()).collect();
    assert_eq!(names, vec!["Mid", "alpha", "alpha", "zeta"]);
    assert_eq!(combined[1].mod_name, "B");
    assert_eq!(combined[2].mod_name, "A");
}

#[test]
fn merge_keeps_processing_order_before_sorting() {
    let outputs = vec![
        output("A", MinecraftMajorVersion::V1_19, "U1", vec![raw("b", &[], "d"), raw("a", &[], "d")]),
    ];
    let merged = merge_outputs(&outputs);
    assert_eq!(merged[0].name, "b");
    assert_eq!(merged[1].name, "a");
    let sorted = sort_rules_by_name(merged);
    assert_eq!(sorted[0].name, "a");
}

#[test]
fn empty_outputs_give_empty_dataset() {
    assert!(combine(&vec![]).is_empty());
}

#[test]
fn three_versions_accumulate() {
    let outputs = vec![
        output("A", MinecraftMajorVersion::V1_18, "U1", vec![raw("x", &[], "d1")]),
        output("A", MinecraftMajorVersion::V1_19, "U2", vec![raw("x", &[], "d2")]),
        output("A", MinecraftMajorVersion::V1_20, "U3", vec![raw("x", &[], "d3")]),
    ];
    let combined = combine(&outputs);
    assert_eq!(combined.len(), 1);
    assert_eq!(combined[0].version_urls, strings(&["U1", "U2", "U3"]));
    assert_eq!(combined[0].description, "d3");
}

#[test]
fn stats_count_distinct_names() {
    let outputs = vec![
        output("A", MinecraftMajorVersion::V1_19, "U1", vec![raw("x", &[], "d"), raw("y", &[], "d")]),
        output("A", MinecraftMajorVersion::V1_20, "U2", vec![raw("x", &["Q"], "d")]),
        output("B", MinecraftMajorVersion::V1_20, "U3", vec![raw("x", &[], "d")]),
    ];
    let combined = combine(&outputs);
    let stats = rule_stats(&combined);
    let plugins: Vec<(&str, usize)> = stats.by_plugin.iter().map(|e| (e.key.as_str(), e.count)).collect();
    assert_eq!(plugins, vec![("A", 2), ("B", 1)]);
    let versions: Vec<(&str, usize)> = stats.by_version.iter().map(|e| (e.key.as_str(), e.count)).collect();
    assert_eq!(versions, vec![("1.19", 2), ("1.20", 1)]);
    assert_eq!(stats.by_category[0].count, 2);
    assert_eq!(total_count(&stats), 3);
}

#[test]
fn same_rule_merges_among_other_rules() {
    let outputs = vec![
        output("A", MinecraftMajorVersion::V1_18, "U1", vec![raw("a", &[], "d"), raw("m", &["P"], "d1")]),
        output("B", MinecraftMajorVersion::V1_19, "U2", vec![raw("m", &["P"], "d")]),
        output("A", MinecraftMajorVersion::V1_20, "U3", vec![raw("z", &[], "d"), raw("m", &["P", "R"], "d2")]),
    ];
    let combined = combine(&outputs);
    let a_m: Vec<_> = combined.iter().filter(|r| r.name == "m" && r.mod_name == "A").collect();
    assert_eq!(a_m.len(), 1);
    assert_eq!(a_m[0].version_urls, strings(&["U1", "U3"]));
    assert_eq!(
        a_m[0].minecraft_versions,
        vec![MinecraftMajorVersion::V1_18, MinecraftMajorVersion::V1_20]
    );
    let b_m: Vec<_> = combined.iter().filter(|r| r.name == "m" && r.mod_name == "B").collect();
    assert_eq!(b_m.len(), 1);
    assert_eq!(b_m[0].version_urls, strings(&["U2"]));
}
