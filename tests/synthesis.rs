use data_extractor::config::resolve;
use data_extractor::log_view::{failure_output, line_output, redraw_window, window_clear, window_reserve};
use data_extractor::manifest::{patch_entrypoint_manifest, patch_mixin_manifest, ManifestError};
use data_extractor::probe::{entrypoint_list, fill_probe, plan_probe, split_locator, ProbeError};
use data_extractor::schema::{
    MinecraftMajorVersion, MinecraftVersion, Mod, ModVersion, PrinterVersion, VersionSource,
};
use data_extractor::staging::{
    dependency_block, dependency_notation, download_succeeded, main_dependency, MainDependency,
};

fn strings(items: &[&str]) -> Vec<String> {
    items.iter().map(|s| s.to_string()).collect()
}

fn plugin() -> Mod {
    Mod {
        name: "Lib".to_string(),
        slug: "lib".to_string(),
        curseforge_slug: None,
        project_id: 12,
        repo: "me/lib".to_string(),
        entrypoint: None,
        settings_manager: None,
        settings_manager_class: None,
        rule_annotation_class: None,
        settings_classes: Some(strings(&["a.S", "b.T"])),
        run_client: false,
        common_dependencies: vec![],
        versions: vec![],
    }
}

fn version(printer: PrinterVersion, settings_manager: Option<&str>) -> ModVersion {
    ModVersion {
        minecraft_version: MinecraftVersion::V1_16_5,
        printer_version: printer,
        entrypoint: None,
        settings_manager: settings_manager.map(|s| s.to_string()),
        settings_manager_class: None,
        rule_annotation_class: None,
        settings_classes: None,
        run_client: None,
        dependencies: vec![],
        source: VersionSource::CurseForge { file_id: 3 },
    }
}

const TEMPLATE: &str = "use RULE; managers = [SETTINGS_MANAGERS]; classes = [SETTINGS_CLASSES];";

#[test]
fn probe_slots_are_filled() {
    let c = resolve(&plugin(), MinecraftMajorVersion::V1_16, &version(PrinterVersion::V3, None)).unwrap();
    let out = fill_probe(TEMPLATE, &c).unwrap();
    assert_eq!(
        out,
        "use carpet.api.settings.Rule; managers = [carpet.CarpetServer.settingsManager]; classes = [a.S.class, b.T.class];"
    );
}

#[test]
fn missing_placeholder_is_reported() {
    let c = resolve(&plugin(), MinecraftMajorVersion::V1_16, &version(PrinterVersion::V3, None)).unwrap();
    let r = fill_probe("use RULE; [SETTINGS_CLASSES]", &c);
    assert_eq!(r.err(), Some(ProbeError::MissingSlot("SETTINGS_MANAGERS".to_string())));
    let r = fill_probe("[SETTINGS_MANAGERS] RULE", &c);
    assert_eq!(r.err(), Some(ProbeError::MissingSlot("SETTINGS_CLASSES".to_string())));
}

#[test]
fn private_settings_manager_gets_a_shim() {
    let c = resolve(
        &plugin(),
        MinecraftMajorVersion::V1_16,
        &version(PrinterVersion::V1, Some("com.x.Mod.settings")),
    )
    .unwrap();
    let plan = plan_probe(TEMPLATE, &c).unwrap();
    assert!(plan.base_accessor);
    assert_eq!(plan.mixins, strings(&["SettingsManagerAccessor", "PrivateSettingsManagerAccessor"]));
    let shim = plan.private_accessor.unwrap();
    assert!(shim.contains("@Mixin(com.x.Mod.class)"));
    assert!(shim.contains("@Accessor(value = \"settings\", remap = false)"));
    assert!(shim.contains("static carpet.settings.SettingsManager getSettingsManager()"));
    assert!(plan.printer_source.contains(
        "carpet.CarpetServer.settingsManager, mixin.PrivateSettingsManagerAccessor.getSettingsManager()"
    ));
}

#[test]
fn unsplittable_settings_manager_is_fatal() {
    let c = resolve(&plugin(), MinecraftMajorVersion::V1_16, &version(PrinterVersion::V2, Some("nodot")))
        .unwrap();
    assert_eq!(
        plan_probe(TEMPLATE, &c).err(),
        Some(ProbeError::InvalidSettingsManager("nodot".to_string()))
    );
}

#[test]
fn newer_templates_need_no_accessor() {
    let c = resolve(&plugin(), MinecraftMajorVersion::V1_16, &version(PrinterVersion::V3, None)).unwrap();
    let plan = plan_probe(TEMPLATE, &c).unwrap();
    assert!(!plan.base_accessor);
    assert!(plan.mixins.is_empty());
    assert!(plan.private_accessor.is_none());
}

#[test]
fn locator_splits_at_last_dot() {
    assert_eq!(split_locator("a.b.c"), Some(("a.b".to_string(), "c".to_string())));
    assert_eq!(split_locator("abc"), None);
    assert_eq!(split_locator(".x"), Some((String::new(), "x".to_string())));
}

#[test]
fn entrypoints_end_with_bootstrap() {
    assert_eq!(
        entrypoint_list(&Some("m.Main".to_string())),
        strings(&["m.Main", "carpet.CarpetServer::onGameStarted", "Printer::print"])
    );
    assert_eq!(entrypoint_list(&None).len(), 2);
}

#[test]
fn dependency_block_lists_every_dependency() {
    let block = dependency_block("'x:y:1'", &strings(&["p:q:2", "r:s:3"]));
    assert!(block.starts_with("\nrepositories {\n    // Modrinth maven"));
    assert!(block.ends_with(
        "dependencies {\n    modImplementation 'x:y:1'\n    modImplementation 'p:q:2'\n    modImplementation 'r:s:3'\n}\n"
    ));
}

#[test]
fn main_dependency_per_source() {
    let m = plugin();
    match main_dependency(&m, &VersionSource::CurseForge { file_id: 99 }) {
        MainDependency::Coordinate(c) => assert_eq!(c, "'curse.maven:lib-12:99'"),
        other => panic!("unexpected {:?}", other),
    }
    match main_dependency(&m, &VersionSource::Modrinth { version: "v2".to_string(), filename: None }) {
        MainDependency::Coordinate(c) => assert_eq!(c, "'maven.modrinth:lib:v2'"),
        other => panic!("unexpected {:?}", other),
    }
    let named = VersionSource::Modrinth { version: "v2".to_string(), filename: Some("f.jar".to_string()) };
    match main_dependency(&m, &named) {
        MainDependency::Download(u) => {
            assert_eq!(u, "https://api.modrinth.com/maven/maven/modrinth/lib/v2/f.jar")
        }
        other => panic!("unexpected {:?}", other),
    }
    let gh = VersionSource::GitHub { tag: "t".to_string(), asset: "a.jar".to_string() };
    let d = main_dependency(&m, &gh);
    match &d {
        MainDependency::Download(u) => assert_eq!(u, "https://github.com/me/lib/releases/download/t/a.jar"),
        other => panic!("unexpected {:?}", other),
    }
    assert_eq!(dependency_notation(&d), "files('libs/mod.jar')");
    assert!(download_succeeded(200));
    assert!(!download_succeeded(404));
    assert!(!download_succeeded(302));
}

#[test]
fn mixin_manifest_lists_exactly_the_injection_points() {
    let out = patch_mixin_manifest(
        "{\"package\": \"old\", \"mixins\": [\"Stale\"], \"required\": true}",
        &strings(&["A", "B"]),
    )
    .unwrap();
    let v: serde_json::Value = serde_json::from_str(&out).unwrap();
    assert_eq!(v["package"], "mixin");
    assert_eq!(v["mixins"], serde_json::Value::from(vec!["A", "B"]));
    assert_eq!(v["required"], true);
}

#[test]
fn entrypoint_manifest_declares_entrypoints_and_no_dependency() {
    let out = patch_entrypoint_manifest(
        "{\"id\": \"x\", \"depends\": {\"fabric\": \"*\"}}",
        &strings(&["e.Main", "Printer::print"]),
    )
    .unwrap();
    let v: serde_json::Value = serde_json::from_str(&out).unwrap();
    assert_eq!(v["entrypoints"]["main"], serde_json::Value::from(vec!["e.Main", "Printer::print"]));
    assert_eq!(v["depends"], serde_json::Value::Object(serde_json::Map::new()));
    assert_eq!(v["id"], "x");
}

#[test]
fn malformed_manifest_is_rejected() {
    assert!(matches!(patch_mixin_manifest("[1, 2]", &vec![]), Err(ManifestError::Parse(_))));
    assert!(matches!(patch_entrypoint_manifest("not json", &vec![]), Err(ManifestError::Parse(_))));
}

#[test]
fn window_shows_last_lines_and_pads() {
    let log = strings(&["a", "b", "c"]);
    assert_eq!(redraw_window(&log, 2), "\x1b[2A\r\x1b[0Jb\nc\n");
    assert_eq!(redraw_window(&log, 5), "\x1b[5A\r\x1b[0Ja\nb\nc\n\n\n");
    assert_eq!(window_reserve(3), "\n\n\n");
    assert_eq!(window_clear(15), "\x1b[15A\r\x1b[0J");
    assert_eq!(line_output(&log, "d", 15, false), "d\n");
}

#[test]
fn failure_dump_only_on_terminal() {
    let log = strings(&["x", "y"]);
    assert_eq!(failure_output(&log, "err", false), None);
    assert_eq!(
        failure_output(&log, "err", true).unwrap(),
        "\x1b[1;31m------ STDOUT ------\x1b[0m\nx\ny\n\x1b[1;31m------ STDERR ------\x1b[0m\nerr\n"
    );
}
