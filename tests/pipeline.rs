use data_extractor::config::{
    mod_url, resolve, used_minecraft_versions, version_url, ConfigError, EffectiveConfig,
};
use data_extractor::fingerprint::{
    check_cache, finish_extraction, hash, sort_raw_rules_by_name, CacheDecision, ExtractError,
};
use data_extractor::schema::{
    MinecraftMajorVersion, MinecraftVersion, Mod, ModVersion, PrinterVersion, RawRule, RulesJson,
    VersionSource,
};

fn strings(items: &[&str]) -> Vec<String> {
    items.iter().map(|s| s.to_string()).collect()
}

fn version(printer: PrinterVersion, source: VersionSource) -> ModVersion {
    ModVersion {
        minecraft_version: MinecraftVersion::V1_19_4,
        printer_version: printer,
        entrypoint: None,
        settings_manager: None,
        settings_manager_class: None,
        rule_annotation_class: None,
        settings_classes: None,
        run_client: None,
        dependencies: vec![],
        source,
    }
}

fn plugin(versions: Vec<(MinecraftMajorVersion, ModVersion)>) -> Mod {
    Mod {
        name: "Carpet Extra".to_string(),
        slug: "carpet-extra".to_string(),
        curseforge_slug: None,
        project_id: 349239,
        repo: "gnembon/carpet-extra".to_string(),
        entrypoint: Some("carpetextra.CarpetExtraServer".to_string()),
        settings_manager: None,
        settings_manager_class: None,
        rule_annotation_class: None,
        settings_classes: Some(strings(&["carpetextra.CarpetExtraSettings"])),
        run_client: false,
        common_dependencies: strings(&["a:b:1"]),
        versions,
    }
}

fn modrinth(v: &str) -> VersionSource {
    VersionSource::Modrinth { version: v.to_string(), filename: None }
}

fn raw(name: &str) -> RawRule {
    RawRule {
        name: name.to_string(),
        description: String::new(),
        type_: "int".to_string(),
        value: "1".to_string(),
        strict: false,
        categories: vec![],
        options: vec![],
        extras: vec![],
        validators: vec![],
        config_files: vec![],
    }
}

fn resolved(m: &Mod, v: &ModVersion) -> EffectiveConfig {
    resolve(m, MinecraftMajorVersion::V1_19, v).unwrap()
}

#[test]
fn version_override_wins_over_plugin_default() {
    let m = plugin(vec![]);
    let mut v = version(PrinterVersion::V3, modrinth("1.0"));
    v.entrypoint = Some("other.Entry".to_string());
    v.settings_classes = Some(strings(&["x.Settings", "y.Settings"]));
    v.run_client = Some(true);
    v.dependencies = strings(&["c:d:2"]);
    let c = resolved(&m, &v);
    assert_eq!(c.entrypoint, Some("other.Entry".to_string()));
    assert_eq!(c.settings_classes, strings(&["x.Settings", "y.Settings"]));
    assert!(c.run_client);
    assert_eq!(c.dependencies, strings(&["a:b:1", "c:d:2"]));
}

#[test]
fn unset_fields_fall_back_to_builtin_defaults() {
    let m = plugin(vec![]);
    let c = resolved(&m, &version(PrinterVersion::V3, modrinth("1.0")));
    assert_eq!(c.entrypoint, Some("carpetextra.CarpetExtraServer".to_string()));
    assert_eq!(c.settings_manager, None);
    assert_eq!(c.settings_manager_class, "carpet.api.settings.SettingsManager");
    assert_eq!(c.rule_annotation_class, "carpet.api.settings.Rule");
    let old = resolved(&m, &version(PrinterVersion::V1, modrinth("1.0")));
    assert_eq!(old.settings_manager_class, "carpet.settings.SettingsManager");
    assert_eq!(old.rule_annotation_class, "carpet.settings.Rule");
    let magic = resolved(&m, &version(PrinterVersion::MagicLibV2, modrinth("1.0")));
    assert_eq!(
        magic.settings_manager_class,
        "top.hendrixshen.magiclib.carpet.impl.WrappedSettingManager"
    );
}

#[test]
fn empty_override_counts_as_absent() {
    let m = plugin(vec![]);
    let mut v = version(PrinterVersion::V2, modrinth("1.0"));
    v.entrypoint = Some(String::new());
    v.rule_annotation_class = Some(String::new());
    let c = resolved(&m, &v);
    assert_eq!(c.entrypoint, None);
    assert_eq!(c.rule_annotation_class, "carpet.settings.Rule");
}

#[test]
fn missing_settings_classes_is_fatal() {
    let mut m = plugin(vec![]);
    m.settings_classes = None;
    let r = resolve(&m, MinecraftMajorVersion::V1_19, &version(PrinterVersion::V3, modrinth("1.0")));
    assert_eq!(r.err(), Some(ConfigError::MissingSettingsClasses));
}

#[test]
fn urls_follow_the_source() {
    let m = plugin(vec![(
        MinecraftMajorVersion::V1_19,
        version(PrinterVersion::V3, VersionSource::CurseForge { file_id: 4567 }),
    )]);
    assert_eq!(
        mod_url(&m).unwrap(),
        "https://curseforge.com/minecraft/mc-mods/carpet-extra"
    );
    assert_eq!(
        version_url(&m, &VersionSource::CurseForge { file_id: 4567 }),
        "https://curseforge.com/minecraft/mc-mods/carpet-extra/files/4567"
    );
    assert_eq!(
        version_url(&m, &modrinth("abc")),
        "https://modrinth.com/mod/carpet-extra/version/abc"
    );
    assert_eq!(
        version_url(&m, &VersionSource::GitHub { tag: "v1".to_string(), asset: "x.jar".to_string() }),
        "https://github.com/gnembon/carpet-extra/releases/tag/v1"
    );
    assert_eq!(mod_url(&plugin(vec![])).err(), Some(ConfigError::NoVersions));
}

#[test]
fn fingerprint_is_stable_and_sees_every_field() {
    let m = plugin(vec![]);
    let v = version(PrinterVersion::V3, modrinth("1.0"));
    let a = hash(&resolved(&m, &v));
    assert_eq!(a, hash(&resolved(&m, &v)));
    let mut v2 = version(PrinterVersion::V3, modrinth("1.0"));
    v2.run_client = Some(true);
    assert_ne!(a, hash(&resolved(&m, &v2)));
    let v3 = version(PrinterVersion::V3, modrinth("1.1"));
    assert_ne!(a, hash(&resolved(&m, &v3)));
    let mut v4 = version(PrinterVersion::V3, modrinth("1.0"));
    v4.dependencies = strings(&["e:f:3"]);
    assert_ne!(a, hash(&resolved(&m, &v4)));
}

#[test]
fn fresh_cache_is_reused() {
    let rec = RulesJson { hash: 7, rules: vec![raw("a")] };
    match check_cache(Some(rec), 7, false) {
        Ok(CacheDecision::Reuse(rules)) => assert_eq!(rules[0].name, "a"),
        other => panic!("unexpected {:?}", other),
    }
}

#[test]
fn stale_or_empty_cache_is_extracted() {
    let stale = RulesJson { hash: 7, rules: vec![raw("a")] };
    assert!(matches!(check_cache(Some(stale), 8, false), Ok(CacheDecision::Extract)));
    let empty = RulesJson { hash: 7, rules: vec![] };
    assert!(matches!(check_cache(Some(empty), 7, false), Ok(CacheDecision::Extract)));
    assert!(matches!(check_cache(None, 7, false), Ok(CacheDecision::Extract)));
}

#[test]
fn combine_only_fails_on_stale_cache() {
    assert!(matches!(check_cache(None, 7, true), Err(ExtractError::StaleCache)));
    let rec = RulesJson { hash: 7, rules: vec![raw("a")] };
    assert!(matches!(check_cache(Some(rec), 7, true), Ok(CacheDecision::Reuse(_))));
}

#[test]
fn second_run_reuses_what_the_first_wrote() {
    let m = plugin(vec![]);
    let fp = hash(&resolved(&m, &version(PrinterVersion::V3, modrinth("1.0"))));
    let rec = finish_extraction(fp, true, Some(vec![raw("b"), raw("a")])).unwrap();
    let fp_again = hash(&resolved(&m, &version(PrinterVersion::V3, modrinth("1.0"))));
    assert!(matches!(check_cache(Some(rec), fp_again, true), Ok(CacheDecision::Reuse(_))));
}

#[test]
fn empty_extraction_is_a_failure() {
    assert_eq!(finish_extraction(1, true, Some(vec![])).err(), Some(ExtractError::EmptyRules));
}

#[test]
fn failed_or_silent_builds_are_failures() {
    assert_eq!(finish_extraction(1, false, Some(vec![raw("a")])).err(), Some(ExtractError::NonZeroExit));
    assert_eq!(finish_extraction(1, true, None).err(), Some(ExtractError::MissingOutput));
}

#[test]
fn accepted_rules_are_sorted_by_name() {
    let rec = finish_extraction(9, true, Some(vec![raw("c"), raw("a"), raw("b")])).unwrap();
    assert_eq!(rec.hash, 9);
    let names: Vec<&str> = rec.rules.iter().map(|r| r.name.as_str()).collect();
    assert_eq!(names, vec!["a", "b", "c"]);
    let sorted = sort_raw_rules_by_name(vec![raw("é"), raw("z"), raw("Z")]);
    let names: Vec<&str> = sorted.iter().map(|r| r.name.as_str()).collect();
    assert_eq!(names, vec!["Z", "z", "é"]);
}

#[test]
fn major_version_of_concrete_versions() {
    assert_eq!(MinecraftMajorVersion::from(MinecraftVersion::V1_16_5), MinecraftMajorVersion::V1_16);
    assert_eq!(MinecraftMajorVersion::from(MinecraftVersion::V1_14_4), MinecraftMajorVersion::V1_14);
    assert_eq!(MinecraftMajorVersion::V1_20.name(), "1.20");
    assert_eq!(MinecraftVersion::V1_19_4.name(), "1.19.4");
}

#[test]
fn skeleton_versions_are_distinct_and_ordered() {
    let mut late = version(PrinterVersion::V3, modrinth("1.0"));
    late.minecraft_version = MinecraftVersion::V1_20_1;
    let mut early = version(PrinterVersion::V1, modrinth("1.0"));
    early.minecraft_version = MinecraftVersion::V1_15_2;
    let a = plugin(vec![
        (MinecraftMajorVersion::V1_19, version(PrinterVersion::V3, modrinth("1.0"))),
        (MinecraftMajorVersion::V1_20, late),
    ]);
    let b = plugin(vec![
        (MinecraftMajorVersion::V1_15, early),
        (MinecraftMajorVersion::V1_19, version(PrinterVersion::V3, modrinth("2.0"))),
    ]);
    assert_eq!(
        used_minecraft_versions(&vec![a, b]),
        vec![MinecraftVersion::V1_15_2, MinecraftVersion::V1_19_4, MinecraftVersion::V1_20_1]
    );
    assert!(used_minecraft_versions(&vec![]).is_empty());
}

#[test]
fn version_order_is_checked() {
    let ordered = plugin(vec![
        (MinecraftMajorVersion::V1_18, version(PrinterVersion::V3, modrinth("1.0"))),
        (MinecraftMajorVersion::V1_19, version(PrinterVersion::V3, modrinth("1.0"))),
    ]);
    assert!(ordered.has_ascending_versions());
    let unordered = plugin(vec![
        (MinecraftMajorVersion::V1_19, version(PrinterVersion::V3, modrinth("1.0"))),
        (MinecraftMajorVersion::V1_19, version(PrinterVersion::V3, modrinth("1.0"))),
    ]);
    assert!(!unordered.has_ascending_versions());
    assert!(plugin(vec![]).has_ascending_versions());
}

#[test]
fn file_numbers_are_written_in_decimal() {
    let m = plugin(vec![]);
    assert_eq!(
        version_url(&m, &VersionSource::CurseForge { file_id: 0 }),
        "https://curseforge.com/minecraft/mc-mods/carpet-extra/files/0"
    );
    assert_eq!(
        version_url(&m, &VersionSource::CurseForge { file_id: -2147483648 }),
        "https://curseforge.com/minecraft/mc-mods/carpet-extra/files/-2147483648"
    );
    assert_eq!(
        version_url(&m, &VersionSource::CurseForge { file_id: 1090 }),
        "https://curseforge.com/minecraft/mc-mods/carpet-extra/files/1090"
    );
}
