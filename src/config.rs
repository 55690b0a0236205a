//! Resolution of the effective configuration of one plugin version, and the
//! URLs that identify the plugin and the version.

use vstd::prelude::*;

use crate::schema::{
    MinecraftMajorVersion, MinecraftVersion, Mod, ModVersion, PrinterVersion, VersionSource,
};
use crate::text::{clone_strings, decimal, int_text};
use vstd::string::StringExecFns;

verus! {

/// Why a plugin declaration cannot be processed.
#[derive(Clone, Debug, PartialEq, Eq)]
pub enum ConfigError {
    /// Neither the version nor the plugin names settings classes.
    MissingSettingsClasses,
    /// The plugin declares no version at all.
    NoVersions,
}

/// The configuration of one (plugin, version) pair after the cascade.
#[derive(Clone, Debug)]
pub struct EffectiveConfig {
    pub major: MinecraftMajorVersion,
    pub minecraft_version: MinecraftVersion,
    pub printer_version: PrinterVersion,
    pub entrypoint: Option<String>,
    pub settings_manager: Option<String>,
    pub settings_manager_class: String,
    pub rule_annotation_class: String,
    pub settings_classes: Vec<String>,
    pub run_client: bool,
    pub dependencies: Vec<String>,
    pub source: VersionSource,
}

/// Mathematical view of a [`VersionSource`].
pub enum SourceModel {
    Modrinth { version: Seq<char>, filename: Option<Seq<char>> },
    CurseForge { file_id: i32 },
    GitHub { tag: Seq<char>, asset: Seq<char> },
}

/// Mathematical view of an [`EffectiveConfig`].
pub struct ConfigModel {
    pub major: MinecraftMajorVersion,
    pub minecraft_version: MinecraftVersion,
    pub printer_version: PrinterVersion,
    pub entrypoint: Option<Seq<char>>,
    pub settings_manager: Option<Seq<char>>,
    pub settings_manager_class: Seq<char>,
    pub rule_annotation_class: Seq<char>,
    pub settings_classes: Seq<Seq<char>>,
    pub run_client: bool,
    pub dependencies: Seq<Seq<char>>,
    pub source: SourceModel,
}

pub open spec fn opt_view(o: Option<String>) -> Option<Seq<char>> {
    match o {
        Some(s) => Some(s@),
        None => None,
    }
}

pub open spec fn source_view(s: VersionSource) -> SourceModel {
    match s {
        VersionSource::Modrinth { version, filename } => SourceModel::Modrinth {
            version: version@,
            filename: opt_view(filename),
        },
        VersionSource::CurseForge { file_id } => SourceModel::CurseForge { file_id },
        VersionSource::GitHub { tag, asset } => SourceModel::GitHub { tag: tag@, asset: asset@ },
    }
}

impl View for EffectiveConfig {
    type V = ConfigModel;

    open spec fn view(&self) -> ConfigModel {
        ConfigModel {
            major: self.major,
            minecraft_version: self.minecraft_version,
            printer_version: self.printer_version,
            entrypoint: opt_view(self.entrypoint),
            settings_manager: opt_view(self.settings_manager),
            settings_manager_class: self.settings_manager_class@,
            rule_annotation_class: self.rule_annotation_class@,
            settings_classes: self.settings_classes.deep_view(),
            run_client: self.run_client,
            dependencies: self.dependencies.deep_view(),
            source: source_view(self.source),
        }
    }
}

/// The version-level value if there is one, else the plugin-level one; an
/// empty result counts as absent.
pub open spec fn cascade(version: Option<Seq<char>>, plugin: Option<Seq<char>>) -> Option<
    Seq<char>,
> {
    let chosen = if version is Some {
        version
    } else {
        plugin
    };
    match chosen {
        Some(s) => if s.len() > 0 {
            Some(s)
        } else {
            None
        },
        None => None,
    }
}

/// Built-in settings-manager class of each probe template.
pub open spec fn builtin_settings_manager_class(p: PrinterVersion) -> Seq<char> {
    match p {
        PrinterVersion::V1 | PrinterVersion::V2 => "carpet.settings.SettingsManager"@,
        PrinterVersion::V3 => "carpet.api.settings.SettingsManager"@,
        PrinterVersion::MagicLibV1
        | PrinterVersion::MagicLibV2 => "top.hendrixshen.magiclib.carpet.impl.WrappedSettingManager"@,
    }
}

/// Built-in rule-annotation class of each probe template.
pub open spec fn builtin_rule_annotation_class(p: PrinterVersion) -> Seq<char> {
    match p {
        PrinterVersion::V1 | PrinterVersion::V2 => "carpet.settings.Rule"@,
        PrinterVersion::V3 => "carpet.api.settings.Rule"@,
        PrinterVersion::MagicLibV1
        | PrinterVersion::MagicLibV2 => "top.hendrixshen.magiclib.carpet.api.annotation.Rule"@,
    }
}

/// A class locator after the cascade, falling back to the built-in default.
pub open spec fn cascade_or(
    version: Option<Seq<char>>,
    plugin: Option<Seq<char>>,
    builtin: Seq<char>,
) -> Seq<char> {
    match cascade(version, plugin) {
        Some(s) => s,
        None => builtin,
    }
}

pub open spec fn settings_classes_of(m: Mod, v: ModVersion) -> Option<Seq<Seq<char>>> {
    match v.settings_classes {
        Some(c) => Some(c.deep_view()),
        None => match m.settings_classes {
            Some(c) => Some(c.deep_view()),
            None => None,
        },
    }
}

/// The effective configuration, given that settings classes were found.
pub open spec fn resolved(
    m: Mod,
    major: MinecraftMajorVersion,
    v: ModVersion,
    classes: Seq<Seq<char>>,
) -> ConfigModel {
    ConfigModel {
        major,
        minecraft_version: v.minecraft_version,
        printer_version: v.printer_version,
        entrypoint: cascade(opt_view(v.entrypoint), opt_view(m.entrypoint)),
        settings_manager: cascade(opt_view(v.settings_manager), opt_view(m.settings_manager)),
        settings_manager_class: cascade_or(
            opt_view(v.settings_manager_class),
            opt_view(m.settings_manager_class),
            builtin_settings_manager_class(v.printer_version),
        ),
        rule_annotation_class: cascade_or(
            opt_view(v.rule_annotation_class),
            opt_view(m.rule_annotation_class),
            builtin_rule_annotation_class(v.printer_version),
        ),
        settings_classes: classes,
        run_client: match v.run_client {
            Some(b) => b,
            None => m.run_client,
        },
        dependencies: m.common_dependencies.deep_view() + v.dependencies.deep_view(),
        source: source_view(v.source),
    }
}

fn clone_opt(o: &Option<String>) -> (r: Option<String>)
    ensures
        opt_view(r) == opt_view(*o),
{
    match o {
        Some(s) => Some(s.clone()),
        None => None,
    }
}

pub fn clone_source(s: &VersionSource) -> (r: VersionSource)
    ensures
        source_view(r) == source_view(*s),
{
    match s {
        VersionSource::Modrinth { version, filename } => VersionSource::Modrinth {
            version: version.clone(),
            filename: clone_opt(filename),
        },
        VersionSource::CurseForge { file_id } => VersionSource::CurseForge { file_id: *file_id },
        VersionSource::GitHub { tag, asset } => VersionSource::GitHub {
            tag: tag.clone(),
            asset: asset.clone(),
        },
    }
}

fn cascade_exec(version: &Option<String>, plugin: &Option<String>) -> (r: Option<String>)
    ensures
        opt_view(r) == cascade(opt_view(*version), opt_view(*plugin)),
{
    let chosen = match version {
        Some(s) => Some(s),
        None => match plugin {
            Some(s) => Some(s),
            None => None,
        },
    };
    match chosen {
        Some(s) => if s.as_str().is_empty() {
            None
        } else {
            Some(s.clone())
        },
        None => None,
    }
}

fn builtin_settings_manager_class_exec(p: PrinterVersion) -> (r: String)
    ensures
        r@ == builtin_settings_manager_class(p),
{
    match p {
        PrinterVersion::V1 | PrinterVersion::V2 => "carpet.settings.SettingsManager".to_owned(),
        PrinterVersion::V3 => "carpet.api.settings.SettingsManager".to_owned(),
        PrinterVersion::MagicLibV1
        | PrinterVersion::MagicLibV2 => "top.hendrixshen.magiclib.carpet.impl.WrappedSettingManager".to_owned(),
    }
}

fn builtin_rule_annotation_class_exec(p: PrinterVersion) -> (r: String)
    ensures
        r@ == builtin_rule_annotation_class(p),
{
    match p {
        PrinterVersion::V1 | PrinterVersion::V2 => "carpet.settings.Rule".to_owned(),
        PrinterVersion::V3 => "carpet.api.settings.Rule".to_owned(),
        PrinterVersion::MagicLibV1
        | PrinterVersion::MagicLibV2 => "top.hendrixshen.magiclib.carpet.api.annotation.Rule".to_owned(),
    }
}

fn concat_strings(a: &Vec<String>, b: &Vec<String>) -> (r: Vec<String>)
    ensures
        r.deep_view() == a.deep_view() + b.deep_view(),
{
    let mut r = clone_strings(a);
    let mut i: usize = 0;
    while i < b.len()
        invariant
            i <= b.len(),
            r.deep_view() =~= a.deep_view() + b.deep_view().subrange(0, i as int),
        decreases b.len() - i,
    {
        let s = b[i].clone();
        let ghost prev = r@;
        r.push(s);
        proof {
            assert(r@ == prev.push(s));
            assert(r.deep_view() =~= (a.deep_view() + b.deep_view().subrange(0, i as int)).push(s@));
        }
        i = i + 1;
    }
    assert(b.deep_view().subrange(0, b.len() as int) =~= b.deep_view());
    r
}

/// Resolves the effective configuration of one version of a plugin: a
/// version-level value wins over the plugin-level one, an empty value counts
/// as absent, the two class locators fall back to the built-in default of the
/// probe template, and dependencies are the plugin's followed by the
/// version's.
pub fn resolve(m: &Mod, major: MinecraftMajorVersion, v: &ModVersion) -> (r: Result<
    EffectiveConfig,
    ConfigError,
>)
    ensures
        settings_classes_of(*m, *v) is None <==> r == Err::<EffectiveConfig, ConfigError>(
            ConfigError::MissingSettingsClasses,
        ),
        settings_classes_of(*m, *v) is Some <==> r is Ok,
        r matches Ok(c) ==> c@ == resolved(*m, major, *v, settings_classes_of(*m, *v)->Some_0),
{
    let classes = match &v.settings_classes {
        Some(c) => clone_strings(c),
        None => match &m.settings_classes {
            Some(c) => clone_strings(c),
            None => {
                return Err(ConfigError::MissingSettingsClasses);
            },
        },
    };
    let settings_manager_class = match cascade_exec(&v.settings_manager_class, &m.settings_manager_class) {
        Some(s) => s,
        None => builtin_settings_manager_class_exec(v.printer_version),
    };
    let rule_annotation_class = match cascade_exec(&v.rule_annotation_class, &m.rule_annotation_class) {
        Some(s) => s,
        None => builtin_rule_annotation_class_exec(v.printer_version),
    };
    let run_client = match v.run_client {
        Some(b) => b,
        None => m.run_client,
    };
    Ok(
        EffectiveConfig {
            major,
            minecraft_version: v.minecraft_version,
            printer_version: v.printer_version,
            entrypoint: cascade_exec(&v.entrypoint, &m.entrypoint),
            settings_manager: cascade_exec(&v.settings_manager, &m.settings_manager),
            settings_manager_class,
            rule_annotation_class,
            settings_classes: classes,
            run_client,
            dependencies: concat_strings(&m.common_dependencies, &v.dependencies),
            source: clone_source(&v.source),
        },
    )
}

/// The slug under which the plugin is listed on CurseForge.
pub open spec fn curseforge_slug_of(m: Mod) -> Seq<char> {
    match m.curseforge_slug {
        Some(s) => s@,
        None => m.slug@,
    }
}

/// Home page of the plugin on the host of the given source.
pub open spec fn mod_url_for(m: Mod, source: VersionSource) -> Seq<char> {
    match source {
        VersionSource::Modrinth { .. } => "https://modrinth.com/mod/"@ + m.slug@,
        VersionSource::CurseForge { .. } => "https://curseforge.com/minecraft/mc-mods/"@
            + curseforge_slug_of(m),
        VersionSource::GitHub { .. } => "https://github.com/"@ + m.repo@,
    }
}

/// Release page of one version of the plugin.
pub open spec fn version_url_for(m: Mod, source: VersionSource) -> Seq<char> {
    match source {
        VersionSource::Modrinth { version, .. } => "https://modrinth.com/mod/"@ + m.slug@
            + "/version/"@ + version@,
        VersionSource::CurseForge { file_id } => "https://curseforge.com/minecraft/mc-mods/"@
            + curseforge_slug_of(m) + "/files/"@ + int_text(file_id as int),
        VersionSource::GitHub { tag, .. } => "https://github.com/"@ + m.repo@
            + "/releases/tag/"@ + tag@,
    }
}

fn curseforge_slug(m: &Mod) -> (r: &String)
    ensures
        r@ == curseforge_slug_of(*m),
{
    match &m.curseforge_slug {
        Some(s) => s,
        None => &m.slug,
    }
}

/// Home page of the plugin, on the host of its newest version: the last one,
/// where the versions are ascending (see `Mod::lemma_last_is_newest`).
pub fn mod_url(m: &Mod) -> (r: Result<String, ConfigError>)
    ensures
        m.versions@.len() == 0 <==> r == Err::<String, ConfigError>(ConfigError::NoVersions),
        m.versions@.len() > 0 <==> r is Ok,
        r matches Ok(u) ==> u@ == mod_url_for(*m, m.versions@.last().1.source),
{
    if m.versions.len() == 0 {
        return Err(ConfigError::NoVersions);
    }
    let last = &m.versions[m.versions.len() - 1].1;
    let mut u: String;
    match &last.source {
        VersionSource::Modrinth { .. } => {
            u = "https://modrinth.com/mod/".to_owned();
            u.append(m.slug.as_str());
        },
        VersionSource::CurseForge { .. } => {
            u = "https://curseforge.com/minecraft/mc-mods/".to_owned();
            u.append(curseforge_slug(m).as_str());
        },
        VersionSource::GitHub { .. } => {
            u = "https://github.com/".to_owned();
            u.append(m.repo.as_str());
        },
    }
    Ok(u)
}

/// Release page of the version of the plugin with the given source.
pub fn version_url(m: &Mod, source: &VersionSource) -> (r: String)
    ensures
        r@ == version_url_for(*m, *source),
{
    let mut u: String;
    match source {
        VersionSource::Modrinth { version, .. } => {
            u = "https://modrinth.com/mod/".to_owned();
            u.append(m.slug.as_str());
            u.append("/version/");
            u.append(version.as_str());
        },
        VersionSource::CurseForge { file_id } => {
            u = "https://curseforge.com/minecraft/mc-mods/".to_owned();
            u.append(curseforge_slug(m).as_str());
            u.append("/files/");
            let id = decimal(*file_id);
            u.append(id.as_str());
        },
        VersionSource::GitHub { tag, .. } => {
            u = "https://github.com/".to_owned();
            u.append(m.repo.as_str());
            u.append("/releases/tag/");
            u.append(tag.as_str());
        },
    }
    u
}

/// A value set at version level (and not empty) wins over the plugin level;
/// a field set at neither level resolves to the built-in default where there
/// is one, to absence where there is none, and settings classes set at
/// neither level make resolution fail.
pub proof fn lemma_cascade_precedence(m: Mod, major: MinecraftMajorVersion, v: ModVersion)
    requires
        settings_classes_of(m, v) is Some,
    ensures
        ({
            let c = resolved(m, major, v, settings_classes_of(m, v)->Some_0);
            &&& (v.entrypoint matches Some(s) ==> (s@.len() > 0 ==> c.entrypoint == Some(s@)))
            &&& (v.settings_manager matches Some(s) ==> (s@.len() > 0 ==> c.settings_manager
                == Some(s@)))
            &&& (v.settings_manager_class matches Some(s) ==> (s@.len() > 0
                ==> c.settings_manager_class == s@))
            &&& (v.rule_annotation_class matches Some(s) ==> (s@.len() > 0
                ==> c.rule_annotation_class == s@))
            &&& (v.settings_classes matches Some(s) ==> c.settings_classes == s.deep_view())
            &&& (v.run_client matches Some(b) ==> c.run_client == b)
            &&& (v.entrypoint is None && m.entrypoint is None ==> c.entrypoint is None)
            &&& (v.settings_manager is None && m.settings_manager is None
                ==> c.settings_manager is None)
            &&& (v.settings_manager_class is None && m.settings_manager_class is None
                ==> c.settings_manager_class == builtin_settings_manager_class(v.printer_version))
            &&& (v.rule_annotation_class is None && m.rule_annotation_class is None
                ==> c.rule_annotation_class == builtin_rule_annotation_class(v.printer_version))
            &&& (v.run_client is None ==> c.run_client == m.run_client)
        }),
{
}

/// Settings classes set at neither level leave nothing to resolve.
pub proof fn lemma_missing_settings_classes(m: Mod, v: ModVersion)
    requires
        v.settings_classes is None,
        m.settings_classes is None,
    ensures
        settings_classes_of(m, v) is None,
{
}

/// Every concrete runtime version, oldest first.
pub open spec fn all_versions() -> Seq<MinecraftVersion> {
    seq![
        MinecraftVersion::V1_14_4,
        MinecraftVersion::V1_15,
        MinecraftVersion::V1_15_1,
        MinecraftVersion::V1_15_2,
        MinecraftVersion::V1_16_2,
        MinecraftVersion::V1_16_3,
        MinecraftVersion::V1_16_4,
        MinecraftVersion::V1_16_5,
        MinecraftVersion::V1_17_1,
        MinecraftVersion::V1_18_1,
        MinecraftVersion::V1_18_2,
        MinecraftVersion::V1_19,
        MinecraftVersion::V1_19_1,
        MinecraftVersion::V1_19_2,
        MinecraftVersion::V1_19_3,
        MinecraftVersion::V1_19_4,
        MinecraftVersion::V1_20,
        MinecraftVersion::V1_20_1,
    ]
}

/// Some version of some plugin runs on `v`.
pub open spec fn uses_version(mods: Seq<Mod>, v: MinecraftVersion) -> bool {
    exists|i: int, j: int|
        0 <= i < mods.len() && 0 <= j < mods[i].versions@.len() && #[trigger] mods[i].versions@[j].1.minecraft_version == v
}

pub open spec fn used_by(mods: Seq<Mod>) -> spec_fn(MinecraftVersion) -> bool {
    |v: MinecraftVersion| uses_version(mods, v)
}

fn mods_use(mods: &Vec<Mod>, v: MinecraftVersion) -> (r: bool)
    ensures
        r == uses_version(mods@, v),
{
    let mut i: usize = 0;
    while i < mods.len()
        invariant
            i <= mods.len(),
            forall|a: int, b: int|
                0 <= a < i && 0 <= b < mods@[a].versions@.len() ==> #[trigger] mods@[a].versions@[b].1.minecraft_version != v,
        decreases mods.len() - i,
    {
        let m = &mods[i];
        let mut j: usize = 0;
        while j < m.versions.len()
            invariant
                j <= m.versions.len(),
                i < mods.len(),
                m == mods@[i as int],
                forall|a: int, b: int|
                    0 <= a < i && 0 <= b < mods@[a].versions@.len() ==> #[trigger] mods@[a].versions@[b].1.minecraft_version != v,
                forall|b: int| 0 <= b < j ==> #[trigger] m.versions@[b].1.minecraft_version != v,
            decreases m.versions.len() - j,
        {
            if m.versions[j].1.minecraft_version == v {
                assert(mods@[i as int].versions@[j as int].1.minecraft_version == v);
                return true;
            }
            j = j + 1;
        }
        i = i + 1;
    }
    false
}

/// The runtime versions that some plugin version runs on, oldest first and
/// each once: the skeletons to generate.
pub fn used_minecraft_versions(mods: &Vec<Mod>) -> (r: Vec<MinecraftVersion>)
    ensures
        r@ == all_versions().filter(used_by(mods@)),
{
    let all = vec![
        MinecraftVersion::V1_14_4,
        MinecraftVersion::V1_15,
        MinecraftVersion::V1_15_1,
        MinecraftVersion::V1_15_2,
        MinecraftVersion::V1_16_2,
        MinecraftVersion::V1_16_3,
        MinecraftVersion::V1_16_4,
        MinecraftVersion::V1_16_5,
        MinecraftVersion::V1_17_1,
        MinecraftVersion::V1_18_1,
        MinecraftVersion::V1_18_2,
        MinecraftVersion::V1_19,
        MinecraftVersion::V1_19_1,
        MinecraftVersion::V1_19_2,
        MinecraftVersion::V1_19_3,
        MinecraftVersion::V1_19_4,
        MinecraftVersion::V1_20,
        MinecraftVersion::V1_20_1,
    ];
    assert(all@ =~= all_versions());
    let mut r: Vec<MinecraftVersion> = Vec::new();
    let mut k: usize = 0;
    proof {
        reveal(Seq::filter);
        assert(all@.subrange(0, 0) =~= Seq::<MinecraftVersion>::empty());
    }
    while k < all.len()
        invariant
            k <= all.len(),
            all@ == all_versions(),
            r@ == all@.subrange(0, k as int).filter(used_by(mods@)),
        decreases all.len() - k,
    {
        let v = all[k];
        proof {
            reveal(Seq::filter);
            assert(all@.subrange(0, k + 1).drop_last() =~= all@.subrange(0, k as int));
            assert(all@.subrange(0, k + 1).last() == v);
        }
        if mods_use(mods, v) {
            r.push(v);
        }
        k = k + 1;
    }
    assert(all@.subrange(0, all.len() as int) =~= all@);
    r
}

} // verus!
