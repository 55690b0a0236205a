//! Synthesis of the injected probe and of what the staged project declares:
//! template slots, accessor shim, injection points, entrypoints, and the
//! dependency block of the build descriptor.

use vstd::prelude::*;

use crate::config::{EffectiveConfig, opt_view};
use crate::schema::PrinterVersion;
use vstd::string::StringExecFns;

verus! {

/// `s` with every occurrence of `from`, taken left to right without overlap,
/// replaced by `to`.
pub open spec fn replace_all(s: Seq<char>, from: Seq<char>, to: Seq<char>) -> Seq<char>
    decreases s.len(),
{
    if from.len() == 0 || s.len() < from.len() {
        s
    } else if s.subrange(0, from.len() as int) == from {
        to + replace_all(s.subrange(from.len() as int, s.len() as int), from, to)
    } else {
        seq![s[0]] + replace_all(s.drop_first(), from, to)
    }
}

/// `p` occurs somewhere in `s`.
pub open spec fn occurs_in(s: Seq<char>, p: Seq<char>) -> bool {
    exists|i: int| 0 <= i && i + p.len() <= s.len() && #[trigger] s.subrange(i, i + p.len()) == p
}

/// Relies on `str::contains` with a `&str` pattern: whether `pat` occurs in `s`.
#[verifier::external_body]
fn contains_text(s: &str, pat: &str) -> (r: bool)
    ensures
        r == occurs_in(s@, pat@),
{
    s.contains(pat)
}

/// Relies on `str::replace` with a non-empty `&str` pattern: all matches,
/// found left to right without overlap, are replaced.
#[verifier::external_body]
fn replace_text(s: &str, from: &str, to: &str) -> (r: String)
    requires
        from@.len() > 0,
    ensures
        r@ == replace_all(s@, from@, to@),
{
    s.replace(from, to)
}

/// The entries joined with `sep` between each two.
pub open spec fn join(items: Seq<Seq<char>>, sep: Seq<char>) -> Seq<char>
    decreases items.len(),
{
    if items.len() == 0 {
        Seq::empty()
    } else if items.len() == 1 {
        items[0]
    } else {
        join(items.drop_last(), sep) + sep + items.last()
    }
}

/// Accessor expressions of the settings managers the probe reads.
pub open spec fn settings_manager_refs(has_private: bool) -> Seq<char> {
    if has_private {
        "carpet.CarpetServer.settingsManager"@ + ", "@
            + "mixin.PrivateSettingsManagerAccessor.getSettingsManager()"@
    } else {
        "carpet.CarpetServer.settingsManager"@
    }
}

/// Class literals of the settings classes, comma separated.
pub open spec fn settings_class_refs(classes: Seq<Seq<char>>) -> Seq<char> {
    join(classes.map_values(|c: Seq<char>| c + ".class"@), ", "@)
}

/// Why a probe could not be synthesized.
#[derive(Clone, Debug, PartialEq, Eq)]
pub enum ProbeError {
    /// The template lacks the named placeholder.
    MissingSlot(String),
    /// The private settings-manager locator has no `.` separator.
    InvalidSettingsManager(String),
}

pub open spec fn slot_managers() -> Seq<char> {
    "SETTINGS_MANAGERS"@
}

pub open spec fn slot_rule() -> Seq<char> {
    "RULE"@
}

pub open spec fn slot_classes() -> Seq<char> {
    "SETTINGS_CLASSES"@
}

/// The probe source: the template with its three slots filled in turn.
pub open spec fn filled_probe(template: Seq<char>, c: crate::config::ConfigModel) -> Seq<char> {
    replace_all(
        replace_all(
            replace_all(template, slot_managers(), settings_manager_refs(c.settings_manager is Some)),
            slot_rule(),
            c.rule_annotation_class,
        ),
        slot_classes(),
        settings_class_refs(c.settings_classes),
    )
}

fn managers_exec(has_private: bool) -> (r: String)
    ensures
        r@ == settings_manager_refs(has_private),
{
    let mut r = "carpet.CarpetServer.settingsManager".to_owned();
    if has_private {
        r.append(", ");
        r.append("mixin.PrivateSettingsManagerAccessor.getSettingsManager()");
    }
    r
}

fn class_refs_exec(classes: &Vec<String>) -> (r: String)
    ensures
        r@ == settings_class_refs(classes.deep_view()),
{
    let ghost items = classes.deep_view().map_values(|c: Seq<char>| c + ".class"@);
    let mut r = String::new();
    let mut i: usize = 0;
    while i < classes.len()
        invariant
            i <= classes.len(),
            items == classes.deep_view().map_values(|c: Seq<char>| c + ".class"@),
            r@ == join(items.subrange(0, i as int), ", "@),
        decreases classes.len() - i,
    {
        proof {
            assert(items.subrange(0, i + 1).drop_last() =~= items.subrange(0, i as int));
            assert(items.subrange(0, i + 1).last() == classes.deep_view()[i as int] + ".class"@);
        }
        if i > 0 {
            r.append(", ");
        } else {
            assert(items.subrange(0, 0) =~= Seq::<Seq<char>>::empty());
            assert(r@ =~= Seq::<char>::empty());
        }
        r.append(classes[i].as_str());
        r.append(".class");
        proof {
            if i == 0 {
                assert(r@ =~= items.subrange(0, 1)[0]);
            } else {
                assert(r@ =~= join(items.subrange(0, i as int), ", "@) + ", "@ + items.subrange(0, i + 1).last());
            }
        }
        i = i + 1;
    }
    assert(items.subrange(0, classes.len() as int) =~= items);
    r
}

/// Fills the probe template. Every placeholder must occur in the template;
/// the first one missing is reported.
pub fn fill_probe(template: &str, config: &EffectiveConfig) -> (r: Result<String, ProbeError>)
    ensures
        r is Ok <==> occurs_in(template@, slot_managers()) && occurs_in(template@, slot_rule())
            && occurs_in(template@, slot_classes()),
        !occurs_in(template@, slot_managers()) ==> (r matches Err(ProbeError::MissingSlot(n))
            && n@ == slot_managers()),
        occurs_in(template@, slot_managers()) && !occurs_in(template@, slot_rule()) ==> (r matches Err(
            ProbeError::MissingSlot(n),
        ) && n@ == slot_rule()),
        occurs_in(template@, slot_managers()) && occurs_in(template@, slot_rule()) && !occurs_in(
            template@,
            slot_classes(),
        ) ==> (r matches Err(ProbeError::MissingSlot(n)) && n@ == slot_classes()),
        r matches Ok(s) ==> s@ == filled_probe(template@, config@),
{
    proof {
        reveal_strlit("SETTINGS_MANAGERS");
        reveal_strlit("RULE");
        reveal_strlit("SETTINGS_CLASSES");
    }
    if !contains_text(template, "SETTINGS_MANAGERS") {
        return Err(ProbeError::MissingSlot("SETTINGS_MANAGERS".to_owned()));
    }
    if !contains_text(template, "RULE") {
        return Err(ProbeError::MissingSlot("RULE".to_owned()));
    }
    if !contains_text(template, "SETTINGS_CLASSES") {
        return Err(ProbeError::MissingSlot("SETTINGS_CLASSES".to_owned()));
    }
    let managers = managers_exec(config.settings_manager.is_some());
    let step1 = replace_text(template, "SETTINGS_MANAGERS", managers.as_str());
    let step2 = replace_text(step1.as_str(), "RULE", config.rule_annotation_class.as_str());
    let classes = class_refs_exec(&config.settings_classes);
    let step3 = replace_text(step2.as_str(), "SETTINGS_CLASSES", classes.as_str());
    Ok(step3)
}

/// `s` has a `.` at index `i` and none after it.
pub open spec fn is_last_dot(s: Seq<char>, i: int) -> bool {
    &&& 0 <= i < s.len()
    &&& s[i] == '.'
    &&& forall|j: int| i < j < s.len() ==> s[j] != '.'
}

pub open spec fn has_dot(s: Seq<char>) -> bool {
    exists|i: int| 0 <= i < s.len() && s[i] == '.'
}

/// Splits a locator `a.b.C.field` at its last `.` into the class path and
/// the field name.
pub fn split_locator(s: &str) -> (r: Option<(String, String)>)
    ensures
        r is None <==> !has_dot(s@),
        r matches Some(p) ==> exists|i: int|
            is_last_dot(s@, i) && p.0@ == s@.subrange(0, i) && p.1@ == s@.subrange(i + 1, s@.len() as int),
{
    let n = s.unicode_len();
    let mut i: usize = n;
    while i > 0
        invariant
            n == s@.len(),
            i <= n,
            forall|j: int| i <= j < n ==> s@[j] != '.',
        decreases i,
    {
        if s.get_char(i - 1) == '.' {
            let dot = i - 1;
            let a = s.substring_char(0, dot).to_owned();
            let b = s.substring_char(dot + 1, n).to_owned();
            assert(is_last_dot(s@, dot as int));
            return Some((a, b));
        }
        i = i - 1;
    }
    None
}

/// Source of the accessor shim that exposes a private settings manager.
pub open spec fn accessor_shim(class_path: Seq<char>, field_name: Seq<char>, manager_class: Seq<char>) -> Seq<char> {
    "\npackage mixin;\n\nimport org.spongepowered.asm.mixin.Mixin;\nimport org.spongepowered.asm.mixin.gen.Accessor;\n\n@Mixin("@
        + class_path + ".class)\npublic interface PrivateSettingsManagerAccessor {\n    @Accessor(value = \""@
        + field_name + "\", remap = false)\n    static "@ + manager_class
        + " getSettingsManager() {\n        throw new AssertionError();\n    }\n}\n"@
}

fn accessor_shim_exec(class_path: &str, field_name: &str, manager_class: &str) -> (r: String)
    ensures
        r@ == accessor_shim(class_path@, field_name@, manager_class@),
{
    let mut r = "\npackage mixin;\n\nimport org.spongepowered.asm.mixin.Mixin;\nimport org.spongepowered.asm.mixin.gen.Accessor;\n\n@Mixin(".to_owned();
    r.append(class_path);
    r.append(".class)\npublic interface PrivateSettingsManagerAccessor {\n    @Accessor(value = \"");
    r.append(field_name);
    r.append("\", remap = false)\n    static ");
    r.append(manager_class);
    r.append(" getSettingsManager() {\n        throw new AssertionError();\n    }\n}\n");
    r
}

/// Injection points registered for a probe.
pub open spec fn injection_points(printer: PrinterVersion, has_private: bool) -> Seq<Seq<char>> {
    let base: Seq<Seq<char>> = if printer == PrinterVersion::V1 {
        seq!["SettingsManagerAccessor"@]
    } else {
        Seq::empty()
    };
    if has_private {
        base.push("PrivateSettingsManagerAccessor"@)
    } else {
        base
    }
}

/// Everything synthesized for one probe.
#[derive(Debug)]
pub struct ProbePlan {
    /// Source of the probe class.
    pub printer_source: String,
    /// Whether the base accessor of the oldest template is staged.
    pub base_accessor: bool,
    /// Source of the accessor shim for a private settings manager.
    pub private_accessor: Option<String>,
    /// Injection points to register, in order.
    pub mixins: Vec<String>,
}

/// Synthesizes the probe of one extraction from its template.
pub fn plan_probe(template: &str, config: &EffectiveConfig) -> (r: Result<ProbePlan, ProbeError>)
    ensures
        config@.settings_manager matches Some(sm) && !has_dot(sm) ==> r == Err::<ProbePlan, ProbeError>(
            ProbeError::InvalidSettingsManager(config.settings_manager->Some_0),
        ),
        r is Ok <==> (config@.settings_manager matches Some(sm) ==> has_dot(sm)) && occurs_in(
            template@,
            slot_managers(),
        ) && occurs_in(template@, slot_rule()) && occurs_in(template@, slot_classes()),
        r matches Ok(p) ==> {
            &&& p.printer_source@ == filled_probe(template@, config@)
            &&& p.base_accessor == (config.printer_version == PrinterVersion::V1)
            &&& p.mixins.deep_view() == injection_points(
                config.printer_version,
                config.settings_manager is Some,
            )
            &&& (config@.settings_manager is None <==> p.private_accessor is None)
            &&& (p.private_accessor matches Some(shim) ==> exists|i: int|
                is_last_dot(config@.settings_manager->Some_0, i) && shim@ == accessor_shim(
                    config@.settings_manager->Some_0.subrange(0, i),
                    config@.settings_manager->Some_0.subrange(
                        i + 1,
                        config@.settings_manager->Some_0.len() as int,
                    ),
                    config@.settings_manager_class,
                ))
        },
{
    let mut mixins: Vec<String> = Vec::new();
    let base_accessor = config.printer_version == PrinterVersion::V1;
    if base_accessor {
        mixins.push("SettingsManagerAccessor".to_owned());
    }
    let private_accessor = match &config.settings_manager {
        Some(sm) => {
            match split_locator(sm.as_str()) {
                Some((class_path, field_name)) => {
                    let shim = accessor_shim_exec(
                        class_path.as_str(),
                        field_name.as_str(),
                        config.settings_manager_class.as_str(),
                    );
                    mixins.push("PrivateSettingsManagerAccessor".to_owned());
                    proof {
                        let i = choose|i: int|
                            is_last_dot(sm@, i) && class_path@ == sm@.subrange(0, i) && field_name@
                                == sm@.subrange(i + 1, sm@.len() as int);
                        assert(is_last_dot(config@.settings_manager->Some_0, i) && shim@ == accessor_shim(
                            config@.settings_manager->Some_0.subrange(0, i),
                            config@.settings_manager->Some_0.subrange(i + 1, config@.settings_manager->Some_0.len() as int),
                            config@.settings_manager_class,
                        ));
                    }
                    Some(shim)
                },
                None => {
                    return Err(ProbeError::InvalidSettingsManager(sm.clone()));
                },
            }
        },
        None => None,
    };
    proof {
        assert(mixins.deep_view() =~= injection_points(config.printer_version, config.settings_manager is Some));
    }
    let printer_source = match fill_probe(template, config) {
        Ok(s) => s,
        Err(e) => {
            return Err(e);
        },
    };
    Ok(ProbePlan { printer_source, base_accessor, private_accessor, mixins })
}

/// File name of the probe template of each template version.
pub open spec fn template_file(p: PrinterVersion) -> Seq<char> {
    match p {
        PrinterVersion::V1 => "V1Printer.java"@,
        PrinterVersion::V2 => "V2Printer.java"@,
        PrinterVersion::V3 => "V3Printer.java"@,
        PrinterVersion::MagicLibV1 => "MagicLibV1Printer.java"@,
        PrinterVersion::MagicLibV2 => "MagicLibV2Printer.java"@,
    }
}

impl PrinterVersion {
    /// File name of this version's probe template.
    pub fn template_file(&self) -> (r: &'static str)
        ensures
            r@ == template_file(*self),
    {
        match self {
            PrinterVersion::V1 => "V1Printer.java",
            PrinterVersion::V2 => "V2Printer.java",
            PrinterVersion::V3 => "V3Printer.java",
            PrinterVersion::MagicLibV1 => "MagicLibV1Printer.java",
            PrinterVersion::MagicLibV2 => "MagicLibV2Printer.java",
        }
    }
}

/// Entrypoints declared by the staged project: the resolved one, if any,
/// then the two bootstrap entrypoints.
pub open spec fn entrypoints(entrypoint: Option<Seq<char>>) -> Seq<Seq<char>> {
    let fixed = seq!["carpet.CarpetServer::onGameStarted"@, "Printer::print"@];
    match entrypoint {
        Some(e) => seq![e] + fixed,
        None => fixed,
    }
}

pub fn entrypoint_list(entrypoint: &Option<String>) -> (r: Vec<String>)
    ensures
        r.deep_view() == entrypoints(opt_view(*entrypoint)),
{
    let mut r: Vec<String> = Vec::new();
    match entrypoint {
        Some(e) => r.push(e.clone()),
        None => {},
    }
    r.push("carpet.CarpetServer::onGameStarted".to_owned());
    r.push("Printer::print".to_owned());
    proof {
        assert(r.deep_view() =~= entrypoints(opt_view(*entrypoint)));
    }
    r
}

} // verus!
