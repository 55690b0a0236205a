use data_extractor::command::{parse_command, Command};
use data_extractor::schema::{MinecraftMajorVersion, MinecraftVersion};
use data_extractor::update::{newest_release, update_status, Release, UpdateStatus};

#[test]
fn no_argument_runs_everything() {
    match parse_command(None) {
        Command::Run(p) => {
            assert!(p.generate_templates && p.consolidate && !p.combine_only);
            assert!(p.only_mod.is_none());
            assert!(p.selects("any"));
        }
        other => panic!("unexpected {:?}", other),
    }
}

#[test]
fn combine_only_consolidates() {
    match parse_command(Some("combine")) {
        Command::Run(p) => assert!(!p.generate_templates && p.combine_only && p.consolidate),
        other => panic!("unexpected {:?}", other),
    }
}

#[test]
fn mod_argument_selects_one_plugin() {
    match parse_command(Some("mod:carpet-extra")) {
        Command::Run(p) => {
            assert_eq!(p.only_mod, Some("carpet-extra".to_string()));
            assert!(p.consolidate);
            assert!(p.selects("carpet-extra"));
            assert!(!p.selects("other"));
        }
        other => panic!("unexpected {:?}", other),
    }
}

#[test]
fn other_commands() {
    assert!(matches!(parse_command(Some("update")), Command::Update));
    assert!(matches!(parse_command(Some("get-matrix")), Command::GetMatrix));
    match parse_command(Some("whatever")) {
        Command::Run(p) => assert!(!p.consolidate && p.only_mod.is_none()),
        other => panic!("unexpected {:?}", other),
    }
}

fn release(id: &str, number: &str, tags: &[&str], published: i64) -> Release {
    Release {
        id: id.to_string(),
        version_number: number.to_string(),
        tags: tags.iter().map(|s| s.to_string()).collect(),
        published,
    }
}

#[test]
fn newest_release_prefers_latest_date_then_last_listed() {
    let rs = vec![
        release("a", "1", &["1.19.2"], 10),
        release("b", "2", &["1.19.2"], 30),
        release("c", "3", &["1.19.2"], 30),
        release("d", "4", &["1.20"], 50),
    ];
    assert_eq!(newest_release(&rs, MinecraftVersion::V1_19_2, &None), Some(2));
    assert_eq!(newest_release(&rs, MinecraftVersion::V1_19_4, &None), None);
}

#[test]
fn update_status_checks_newest_minor_first() {
    let rs = vec![
        release("a", "1.0", &["1.19.4"], 10),
        release("b", "2.0", &["1.19.2"], 20),
    ];
    assert_eq!(update_status(&rs, MinecraftMajorVersion::V1_19, &None, "1.0"), UpdateStatus::UpToDate);
    assert_eq!(update_status(&rs, MinecraftMajorVersion::V1_19, &None, "a"), UpdateStatus::UpToDate);
    assert_eq!(
        update_status(&rs, MinecraftMajorVersion::V1_19, &None, "2.0"),
        UpdateStatus::Newer { version_number: "1.0".to_string(), id: "a".to_string() }
    );
    assert_eq!(update_status(&rs, MinecraftMajorVersion::V1_20, &None, "1.0"), UpdateStatus::NotFound);
}

#[test]
fn loader_tag_filters_releases() {
    let rs = vec![
        release("10", "10", &["1.18.2", "Fabric"], 10),
        release("11", "11", &["1.18.2", "Forge"], 20),
    ];
    let fabric = Some("Fabric".to_string());
    assert_eq!(update_status(&rs, MinecraftMajorVersion::V1_18, &fabric, "10"), UpdateStatus::UpToDate);
    assert_eq!(MinecraftMajorVersion::V1_18.minors(), vec![MinecraftVersion::V1_18_1, MinecraftVersion::V1_18_2]);
}
