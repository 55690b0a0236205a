//! Data model: plugin declarations, extracted rules and consolidated rules.

use vstd::prelude::*;

verus! {

/// Runtime major versions under which results are cached and consolidated.
#[derive(Clone, Copy, Debug, PartialEq, Eq, Structural)]
pub enum MinecraftMajorVersion {
    V1_14,
    V1_15,
    V1_16,
    V1_17,
    V1_18,
    V1_19,
    V1_20,
}

/// Concrete runtime versions that have a project skeleton.
#[derive(Clone, Copy, Debug, PartialEq, Eq, Structural)]
pub enum MinecraftVersion {
    V1_14_4,
    V1_15,
    V1_15_1,
    V1_15_2,
    V1_16_2,
    V1_16_3,
    V1_16_4,
    V1_16_5,
    V1_17_1,
    V1_18_1,
    V1_18_2,
    V1_19,
    V1_19_1,
    V1_19_2,
    V1_19_3,
    V1_19_4,
    V1_20,
    V1_20_1,
}

/// Selects the probe template (and the built-in class locators).
#[derive(Clone, Copy, Debug, PartialEq, Eq, Structural)]
pub enum PrinterVersion {
    V1,
    V2,
    V3,
    MagicLibV1,
    MagicLibV2,
}

impl MinecraftMajorVersion {
    pub open spec fn spec_name(self) -> Seq<char> {
        match self {
            MinecraftMajorVersion::V1_14 => "1.14"@,
            MinecraftMajorVersion::V1_15 => "1.15"@,
            MinecraftMajorVersion::V1_16 => "1.16"@,
            MinecraftMajorVersion::V1_17 => "1.17"@,
            MinecraftMajorVersion::V1_18 => "1.18"@,
            MinecraftMajorVersion::V1_19 => "1.19"@,
            MinecraftMajorVersion::V1_20 => "1.20"@,
        }
    }

    /// The version as it is written in file names and reports ("1.19").
    pub fn name(&self) -> (r: &'static str)
        ensures
            r@ == self.spec_name(),
    {
        match self {
            MinecraftMajorVersion::V1_14 => "1.14",
            MinecraftMajorVersion::V1_15 => "1.15",
            MinecraftMajorVersion::V1_16 => "1.16",
            MinecraftMajorVersion::V1_17 => "1.17",
            MinecraftMajorVersion::V1_18 => "1.18",
            MinecraftMajorVersion::V1_19 => "1.19",
            MinecraftMajorVersion::V1_20 => "1.20",
        }
    }
}

impl MinecraftVersion {
    pub open spec fn spec_name(self) -> Seq<char> {
        match self {
            MinecraftVersion::V1_14_4 => "1.14.4"@,
            MinecraftVersion::V1_15 => "1.15"@,
            MinecraftVersion::V1_15_1 => "1.15.1"@,
            MinecraftVersion::V1_15_2 => "1.15.2"@,
            MinecraftVersion::V1_16_2 => "1.16.2"@,
            MinecraftVersion::V1_16_3 => "1.16.3"@,
            MinecraftVersion::V1_16_4 => "1.16.4"@,
            MinecraftVersion::V1_16_5 => "1.16.5"@,
            MinecraftVersion::V1_17_1 => "1.17.1"@,
            MinecraftVersion::V1_18_1 => "1.18.1"@,
            MinecraftVersion::V1_18_2 => "1.18.2"@,
            MinecraftVersion::V1_19 => "1.19"@,
            MinecraftVersion::V1_19_1 => "1.19.1"@,
            MinecraftVersion::V1_19_2 => "1.19.2"@,
            MinecraftVersion::V1_19_3 => "1.19.3"@,
            MinecraftVersion::V1_19_4 => "1.19.4"@,
            MinecraftVersion::V1_20 => "1.20"@,
            MinecraftVersion::V1_20_1 => "1.20.1"@,
        }
    }

    /// The version as it is written in skeleton directory names ("1.19.4").
    pub fn name(&self) -> (r: &'static str)
        ensures
            r@ == self.spec_name(),
    {
        match self {
            MinecraftVersion::V1_14_4 => "1.14.4",
            MinecraftVersion::V1_15 => "1.15",
            MinecraftVersion::V1_15_1 => "1.15.1",
            MinecraftVersion::V1_15_2 => "1.15.2",
            MinecraftVersion::V1_16_2 => "1.16.2",
            MinecraftVersion::V1_16_3 => "1.16.3",
            MinecraftVersion::V1_16_4 => "1.16.4",
            MinecraftVersion::V1_16_5 => "1.16.5",
            MinecraftVersion::V1_17_1 => "1.17.1",
            MinecraftVersion::V1_18_1 => "1.18.1",
            MinecraftVersion::V1_18_2 => "1.18.2",
            MinecraftVersion::V1_19 => "1.19",
            MinecraftVersion::V1_19_1 => "1.19.1",
            MinecraftVersion::V1_19_2 => "1.19.2",
            MinecraftVersion::V1_19_3 => "1.19.3",
            MinecraftVersion::V1_19_4 => "1.19.4",
            MinecraftVersion::V1_20 => "1.20",
            MinecraftVersion::V1_20_1 => "1.20.1",
        }
    }

    /// The major version that this version belongs to.
    pub open spec fn spec_major(self) -> MinecraftMajorVersion {
        match self {
            MinecraftVersion::V1_14_4 => MinecraftMajorVersion::V1_14,
            MinecraftVersion::V1_15 | MinecraftVersion::V1_15_1 | MinecraftVersion::V1_15_2 => {
                MinecraftMajorVersion::V1_15
            },
            MinecraftVersion::V1_16_2
            | MinecraftVersion::V1_16_3
            | MinecraftVersion::V1_16_4
            | MinecraftVersion::V1_16_5 => MinecraftMajorVersion::V1_16,
            MinecraftVersion::V1_17_1 => MinecraftMajorVersion::V1_17,
            MinecraftVersion::V1_18_1 | MinecraftVersion::V1_18_2 => MinecraftMajorVersion::V1_18,
            MinecraftVersion::V1_19
            | MinecraftVersion::V1_19_1
            | MinecraftVersion::V1_19_2
            | MinecraftVersion::V1_19_3
            | MinecraftVersion::V1_19_4 => MinecraftMajorVersion::V1_19,
            MinecraftVersion::V1_20 | MinecraftVersion::V1_20_1 => MinecraftMajorVersion::V1_20,
        }
    }
}

impl From<MinecraftVersion> for MinecraftMajorVersion {
    fn from(value: MinecraftVersion) -> (r: MinecraftMajorVersion)
        ensures
            r == value.spec_major(),
    {
        match value {
            MinecraftVersion::V1_14_4 => MinecraftMajorVersion::V1_14,
            MinecraftVersion::V1_15 => MinecraftMajorVersion::V1_15,
            MinecraftVersion::V1_15_1 => MinecraftMajorVersion::V1_15,
            MinecraftVersion::V1_15_2 => MinecraftMajorVersion::V1_15,
            MinecraftVersion::V1_16_2 => MinecraftMajorVersion::V1_16,
            MinecraftVersion::V1_16_3 => MinecraftMajorVersion::V1_16,
            MinecraftVersion::V1_16_4 => MinecraftMajorVersion::V1_16,
            MinecraftVersion::V1_16_5 => MinecraftMajorVersion::V1_16,
            MinecraftVersion::V1_17_1 => MinecraftMajorVersion::V1_17,
            MinecraftVersion::V1_18_1 => MinecraftMajorVersion::V1_18,
            MinecraftVersion::V1_18_2 => MinecraftMajorVersion::V1_18,
            MinecraftVersion::V1_19 => MinecraftMajorVersion::V1_19,
            MinecraftVersion::V1_19_1 => MinecraftMajorVersion::V1_19,
            MinecraftVersion::V1_19_2 => MinecraftMajorVersion::V1_19,
            MinecraftVersion::V1_19_3 => MinecraftMajorVersion::V1_19,
            MinecraftVersion::V1_19_4 => MinecraftMajorVersion::V1_19,
            MinecraftVersion::V1_20 => MinecraftMajorVersion::V1_20,
            MinecraftVersion::V1_20_1 => MinecraftMajorVersion::V1_20,
        }
    }
}

impl vstd::std_specs::convert::FromSpecImpl<MinecraftVersion> for MinecraftMajorVersion {
    open spec fn obeys_from_spec() -> bool {
        true
    }

    open spec fn from_spec(v: MinecraftVersion) -> MinecraftMajorVersion {
        v.spec_major()
    }
}

/// One configuration rule as the runtime probe reports it.
#[derive(Clone, Debug)]
pub struct RawRule {
    pub name: String,
    pub description: String,
    pub type_: String,
    pub value: String,
    pub strict: bool,
    pub categories: Vec<String>,
    pub options: Vec<String>,
    pub extras: Vec<String>,
    pub validators: Vec<String>,
    pub config_files: Vec<String>,
}

/// Mathematical view of a [`RawRule`].
pub struct RawRuleModel {
    pub name: Seq<char>,
    pub description: Seq<char>,
    pub type_: Seq<char>,
    pub value: Seq<char>,
    pub strict: bool,
    pub categories: Seq<Seq<char>>,
    pub options: Seq<Seq<char>>,
    pub extras: Seq<Seq<char>>,
    pub validators: Seq<Seq<char>>,
    pub config_files: Seq<Seq<char>>,
}

impl View for RawRule {
    type V = RawRuleModel;

    open spec fn view(&self) -> RawRuleModel {
        RawRuleModel {
            name: self.name@,
            description: self.description@,
            type_: self.type_@,
            value: self.value@,
            strict: self.strict,
            categories: self.categories.deep_view(),
            options: self.options.deep_view(),
            extras: self.extras.deep_view(),
            validators: self.validators.deep_view(),
            config_files: self.config_files.deep_view(),
        }
    }
}

/// A rule merged across the versions of one plugin.
#[derive(Clone, Debug)]
pub struct Rule {
    pub name: String,
    pub description: String,
    pub type_: String,
    pub value: String,
    pub strict: bool,
    pub categories: Vec<String>,
    pub options: Vec<String>,
    pub extras: Vec<String>,
    pub validators: Vec<String>,
    pub config_files: Vec<String>,
    pub mod_name: String,
    pub mod_slug: String,
    pub mod_url: String,
    pub minecraft_versions: Vec<MinecraftMajorVersion>,
    pub version_urls: Vec<String>,
}

/// Mathematical view of a [`Rule`].
pub struct RuleModel {
    pub name: Seq<char>,
    pub description: Seq<char>,
    pub type_: Seq<char>,
    pub value: Seq<char>,
    pub strict: bool,
    pub categories: Seq<Seq<char>>,
    pub options: Seq<Seq<char>>,
    pub extras: Seq<Seq<char>>,
    pub validators: Seq<Seq<char>>,
    pub config_files: Seq<Seq<char>>,
    pub mod_name: Seq<char>,
    pub mod_slug: Seq<char>,
    pub mod_url: Seq<char>,
    pub minecraft_versions: Seq<MinecraftMajorVersion>,
    pub version_urls: Seq<Seq<char>>,
}

impl View for Rule {
    type V = RuleModel;

    open spec fn view(&self) -> RuleModel {
        RuleModel {
            name: self.name@,
            description: self.description@,
            type_: self.type_@,
            value: self.value@,
            strict: self.strict,
            categories: self.categories.deep_view(),
            options: self.options.deep_view(),
            extras: self.extras.deep_view(),
            validators: self.validators.deep_view(),
            config_files: self.config_files.deep_view(),
            mod_name: self.mod_name@,
            mod_slug: self.mod_slug@,
            mod_url: self.mod_url@,
            minecraft_versions: self.minecraft_versions@,
            version_urls: self.version_urls.deep_view(),
        }
    }
}

/// The cache record kept for one plugin and major version.
#[derive(Clone, Debug)]
pub struct RulesJson {
    pub hash: u64,
    pub rules: Vec<RawRule>,
}

/// Where the plugin artifact of one version comes from.
#[derive(Clone, Debug)]
pub enum VersionSource {
    Modrinth { version: String, filename: Option<String> },
    CurseForge { file_id: i32 },
    GitHub { tag: String, asset: String },
}

/// Per-version declaration of a plugin.
#[derive(Clone, Debug)]
pub struct ModVersion {
    pub minecraft_version: MinecraftVersion,
    pub printer_version: PrinterVersion,
    pub entrypoint: Option<String>,
    pub settings_manager: Option<String>,
    pub settings_manager_class: Option<String>,
    pub rule_annotation_class: Option<String>,
    pub settings_classes: Option<Vec<String>>,
    pub run_client: Option<bool>,
    /// dependencies other than the platform API
    pub dependencies: Vec<String>,
    pub source: VersionSource,
}

/// Declaration of one plugin with its defaults and its versions.
#[derive(Clone, Debug)]
pub struct Mod {
    pub name: String,
    pub slug: String,
    /// optional override if not the same as on Modrinth
    pub curseforge_slug: Option<String>,
    /// only for CurseForge
    pub project_id: i32,
    /// only for GitHub
    pub repo: String,
    pub entrypoint: Option<String>,
    pub settings_manager: Option<String>,
    pub settings_manager_class: Option<String>,
    pub rule_annotation_class: Option<String>,
    pub settings_classes: Option<Vec<String>>,
    pub run_client: bool,
    /// dependencies that are common across all versions
    pub common_dependencies: Vec<String>,
    /// versions in ascending order of major version, each major at most once
    /// (see [`Mod::versions_ascending`])
    pub versions: Vec<(MinecraftMajorVersion, ModVersion)>,
}

/// The static plugin declaration document.
#[derive(Clone, Debug)]
pub struct ModsToml {
    pub mods: Vec<Mod>,
}

/// The rules obtained for one plugin and major version, with what
/// consolidation tags them with.
#[derive(Clone, Debug)]
pub struct Output {
    pub mod_name: String,
    pub mod_slug: String,
    pub mod_url: String,
    pub minecraft_version: MinecraftMajorVersion,
    pub version_url: String,
    pub rules: Vec<RawRule>,
}

impl MinecraftMajorVersion {
    /// Position of the major version in release order.
    pub open spec fn rank(self) -> int {
        match self {
            MinecraftMajorVersion::V1_14 => 0,
            MinecraftMajorVersion::V1_15 => 1,
            MinecraftMajorVersion::V1_16 => 2,
            MinecraftMajorVersion::V1_17 => 3,
            MinecraftMajorVersion::V1_18 => 4,
            MinecraftMajorVersion::V1_19 => 5,
            MinecraftMajorVersion::V1_20 => 6,
        }
    }

    fn rank_exec(&self) -> (r: u8)
        ensures
            r as int == self.rank(),
    {
        match self {
            MinecraftMajorVersion::V1_14 => 0,
            MinecraftMajorVersion::V1_15 => 1,
            MinecraftMajorVersion::V1_16 => 2,
            MinecraftMajorVersion::V1_17 => 3,
            MinecraftMajorVersion::V1_18 => 4,
            MinecraftMajorVersion::V1_19 => 5,
            MinecraftMajorVersion::V1_20 => 6,
        }
    }
}

impl Mod {
    /// The versions are in strictly ascending order of major version, so
    /// each major version occurs once and the last one is the newest.
    pub open spec fn versions_ascending(&self) -> bool {
        forall|i: int|
            0 <= i < self.versions@.len() - 1 ==> (#[trigger] self.versions@[i]).0.rank()
                < self.versions@[i + 1].0.rank()
    }

    /// Whether the versions are in strictly ascending order of major version.
    pub fn has_ascending_versions(&self) -> (r: bool)
        ensures
            r == self.versions_ascending(),
    {
        let mut i: usize = 0;
        while i < self.versions.len() && i + 1 < self.versions.len()
            invariant
                i <= self.versions.len(),
                forall|k: int| 0 <= k < i ==> (#[trigger] self.versions@[k]).0.rank() < self.versions@[k + 1].0.rank(),
            decreases self.versions.len() - i,
        {
            if self.versions[i].0.rank_exec() >= self.versions[i + 1].0.rank_exec() {
                assert(!(self.versions@[i as int].0.rank() < self.versions@[i + 1].0.rank()));
                return false;
            }
            i = i + 1;
        }
        true
    }

    /// With ascending versions, every version before the last is older.
    pub proof fn lemma_last_is_newest(&self, i: int)
        requires
            self.versions_ascending(),
            0 <= i < self.versions@.len() - 1,
        ensures
            self.versions@[i].0.rank() < self.versions@.last().0.rank(),
        decreases self.versions@.len() - i,
    {
        if i + 1 < self.versions@.len() - 1 {
            self.lemma_last_is_newest(i + 1);
        }
        assert(self.versions@[i].0.rank() < self.versions@[i + 1].0.rank());
    }
}

} // verus!
