//! Change detection: the fingerprint of an effective configuration, the
//! decision whether a cached extraction may be reused, and the acceptance of
//! a finished extraction.

use vstd::prelude::*;

use crate::config::{ConfigModel, EffectiveConfig, SourceModel};
use crate::schema::{
    MinecraftMajorVersion, MinecraftVersion, PrinterVersion, RawRule, RawRuleModel, RulesJson,
    VersionSource,
};
use crate::sort::{by_name, lemma_sort_by_len, lemma_sort_by_map, sort_by, sort_items_by_name, Named};

verus! {

pub open spec fn major_code(m: MinecraftMajorVersion) -> u64 {
    match m {
        MinecraftMajorVersion::V1_14 => 0,
        MinecraftMajorVersion::V1_15 => 1,
        MinecraftMajorVersion::V1_16 => 2,
        MinecraftMajorVersion::V1_17 => 3,
        MinecraftMajorVersion::V1_18 => 4,
        MinecraftMajorVersion::V1_19 => 5,
        MinecraftMajorVersion::V1_20 => 6,
    }
}

pub open spec fn version_code(v: MinecraftVersion) -> u64 {
    match v {
        MinecraftVersion::V1_14_4 => 0,
        MinecraftVersion::V1_15 => 1,
        MinecraftVersion::V1_15_1 => 2,
        MinecraftVersion::V1_15_2 => 3,
        MinecraftVersion::V1_16_2 => 4,
        MinecraftVersion::V1_16_3 => 5,
        MinecraftVersion::V1_16_4 => 6,
        MinecraftVersion::V1_16_5 => 7,
        MinecraftVersion::V1_17_1 => 8,
        MinecraftVersion::V1_18_1 => 9,
        MinecraftVersion::V1_18_2 => 10,
        MinecraftVersion::V1_19 => 11,
        MinecraftVersion::V1_19_1 => 12,
        MinecraftVersion::V1_19_2 => 13,
        MinecraftVersion::V1_19_3 => 14,
        MinecraftVersion::V1_19_4 => 15,
        MinecraftVersion::V1_20 => 16,
        MinecraftVersion::V1_20_1 => 17,
    }
}

pub open spec fn printer_code(p: PrinterVersion) -> u64 {
    match p {
        PrinterVersion::V1 => 0,
        PrinterVersion::V2 => 1,
        PrinterVersion::V3 => 2,
        PrinterVersion::MagicLibV1 => 3,
        PrinterVersion::MagicLibV2 => 4,
    }
}

pub open spec fn opt_code(o: Option<Seq<char>>) -> u64 {
    if o is Some {
        1
    } else {
        0
    }
}

pub open spec fn opt_text(o: Option<Seq<char>>) -> Seq<char> {
    match o {
        Some(s) => s,
        None => Seq::empty(),
    }
}

/// The number of a CurseForge file, shifted to be non-negative.
pub open spec fn file_code(id: i32) -> u64 {
    (id as int + 0x8000_0000) as u64
}

pub open spec fn source_codes(s: SourceModel) -> Seq<u64> {
    match s {
        SourceModel::Modrinth { filename, .. } => seq![0, opt_code(filename)],
        SourceModel::CurseForge { file_id } => seq![1, file_code(file_id)],
        SourceModel::GitHub { .. } => seq![2],
    }
}

pub open spec fn source_texts(s: SourceModel) -> Seq<Seq<char>> {
    match s {
        SourceModel::Modrinth { version, filename } => seq![version, opt_text(filename)],
        SourceModel::CurseForge { .. } => Seq::empty(),
        SourceModel::GitHub { tag, asset } => seq![tag, asset],
    }
}

/// The numeric part of what the fingerprint hashes.
pub open spec fn fingerprint_codes(c: ConfigModel) -> Seq<u64> {
    seq![
        major_code(c.major),
        version_code(c.minecraft_version),
        printer_code(c.printer_version),
        opt_code(c.entrypoint),
        opt_code(c.settings_manager),
        c.settings_classes.len() as u64,
        if c.run_client { 1u64 } else { 0u64 },
        c.dependencies.len() as u64,
    ] + source_codes(c.source)
}

/// The textual part of what the fingerprint hashes.
pub open spec fn fingerprint_texts(c: ConfigModel) -> Seq<Seq<char>> {
    seq![
        opt_text(c.entrypoint),
        opt_text(c.settings_manager),
        c.settings_manager_class,
        c.rule_annotation_class,
    ] + c.settings_classes + c.dependencies + source_texts(c.source)
}

/// What the 64-bit hasher makes of a list of numbers and a list of strings.
pub uninterp spec fn parts_hash(codes: Seq<u64>, texts: Seq<Seq<char>>) -> u64;

/// The fingerprint of an effective configuration.
pub open spec fn fingerprint(c: ConfigModel) -> u64 {
    parts_hash(fingerprint_codes(c), fingerprint_texts(c))
}

/// Relies on std's `DefaultHasher::new`, `Hash for Vec` and `Hasher::finish`:
/// the hasher starts from fixed keys, so the result depends on the hashed
/// values alone.
#[verifier::external_body]
fn hash_parts(codes: &Vec<u64>, texts: &Vec<String>) -> (r: u64)
    ensures
        r == parts_hash(codes@, texts.deep_view()),
{
    let mut hasher = std::collections::hash_map::DefaultHasher::new();
    std::hash::Hash::hash(codes, &mut hasher);
    std::hash::Hash::hash(texts, &mut hasher);
    std::hash::Hasher::finish(&hasher)
}

fn major_code_exec(m: MinecraftMajorVersion) -> (r: u64)
    ensures
        r == major_code(m),
{
    match m {
        MinecraftMajorVersion::V1_14 => 0,
        MinecraftMajorVersion::V1_15 => 1,
        MinecraftMajorVersion::V1_16 => 2,
        MinecraftMajorVersion::V1_17 => 3,
        MinecraftMajorVersion::V1_18 => 4,
        MinecraftMajorVersion::V1_19 => 5,
        MinecraftMajorVersion::V1_20 => 6,
    }
}

fn version_code_exec(v: MinecraftVersion) -> (r: u64)
    ensures
        r == version_code(v),
{
    match v {
        MinecraftVersion::V1_14_4 => 0,
        MinecraftVersion::V1_15 => 1,
        MinecraftVersion::V1_15_1 => 2,
        MinecraftVersion::V1_15_2 => 3,
        MinecraftVersion::V1_16_2 => 4,
        MinecraftVersion::V1_16_3 => 5,
        MinecraftVersion::V1_16_4 => 6,
        MinecraftVersion::V1_16_5 => 7,
        MinecraftVersion::V1_17_1 => 8,
        MinecraftVersion::V1_18_1 => 9,
        MinecraftVersion::V1_18_2 => 10,
        MinecraftVersion::V1_19 => 11,
        MinecraftVersion::V1_19_1 => 12,
        MinecraftVersion::V1_19_2 => 13,
        MinecraftVersion::V1_19_3 => 14,
        MinecraftVersion::V1_19_4 => 15,
        MinecraftVersion::V1_20 => 16,
        MinecraftVersion::V1_20_1 => 17,
    }
}

fn printer_code_exec(p: PrinterVersion) -> (r: u64)
    ensures
        r == printer_code(p),
{
    match p {
        PrinterVersion::V1 => 0,
        PrinterVersion::V2 => 1,
        PrinterVersion::V3 => 2,
        PrinterVersion::MagicLibV1 => 3,
        PrinterVersion::MagicLibV2 => 4,
    }
}

fn push_opt(codes: &mut Vec<u64>, texts: &mut Vec<String>, o: &Option<String>)
    ensures
        final(codes)@ == old(codes)@.push(opt_code(crate::config::opt_view(*o))),
        final(texts).deep_view() == old(texts).deep_view().push(
            opt_text(crate::config::opt_view(*o)),
        ),
{
    let ghost prev = texts@;
    match o {
        Some(s) => {
            codes.push(1);
            let t = s.clone();
            texts.push(t);
            assert(texts@ == prev.push(t));
        },
        None => {
            codes.push(0);
            let t = String::new();
            texts.push(t);
            assert(texts@ == prev.push(t));
        },
    }
    assert(texts.deep_view() =~= old(texts).deep_view().push(opt_text(crate::config::opt_view(*o))));
}

fn push_text(texts: &mut Vec<String>, s: &String)
    ensures
        final(texts).deep_view() == old(texts).deep_view().push(s@),
{
    let ghost prev = texts@;
    let t = s.clone();
    texts.push(t);
    assert(texts@ == prev.push(t));
    assert(texts.deep_view() =~= old(texts).deep_view().push(s@));
}

fn push_texts(texts: &mut Vec<String>, v: &Vec<String>)
    ensures
        final(texts).deep_view() == old(texts).deep_view() + v.deep_view(),
{
    let mut i: usize = 0;
    while i < v.len()
        invariant
            i <= v.len(),
            texts.deep_view() == old(texts).deep_view() + v.deep_view().subrange(0, i as int),
        decreases v.len() - i,
    {
        push_text(texts, &v[i]);
        assert(old(texts).deep_view() + v.deep_view().subrange(0, i + 1) =~= (old(texts).deep_view()
            + v.deep_view().subrange(0, i as int)).push(v.deep_view()[i as int]));
        i = i + 1;
    }
    assert(v.deep_view().subrange(0, v.len() as int) =~= v.deep_view());
}

/// The fingerprint of an effective configuration: a hash over every field.
pub fn hash(config: &EffectiveConfig) -> (r: u64)
    ensures
        r == fingerprint(config@),
{
    let mut codes: Vec<u64> = Vec::new();
    let mut texts: Vec<String> = Vec::new();
    codes.push(major_code_exec(config.major));
    codes.push(version_code_exec(config.minecraft_version));
    codes.push(printer_code_exec(config.printer_version));
    push_opt(&mut codes, &mut texts, &config.entrypoint);
    push_opt(&mut codes, &mut texts, &config.settings_manager);
    codes.push(config.settings_classes.len() as u64);
    codes.push(if config.run_client { 1 } else { 0 });
    codes.push(config.dependencies.len() as u64);
    push_text(&mut texts, &config.settings_manager_class);
    push_text(&mut texts, &config.rule_annotation_class);
    proof {
        let c = config@;
        assert(codes@ =~= seq![
            major_code(c.major),
            version_code(c.minecraft_version),
            printer_code(c.printer_version),
            opt_code(c.entrypoint),
            opt_code(c.settings_manager),
            c.settings_classes.len() as u64,
            if c.run_client { 1u64 } else { 0u64 },
            c.dependencies.len() as u64,
        ]);
    }
    let ghost four = texts.deep_view();
    proof {
        let c = config@;
        assert(four =~= seq![
            opt_text(c.entrypoint),
            opt_text(c.settings_manager),
            c.settings_manager_class,
            c.rule_annotation_class,
        ]);
    }
    push_texts(&mut texts, &config.settings_classes);
    push_texts(&mut texts, &config.dependencies);
    let ghost head_codes = codes@;
    let ghost head_texts = texts.deep_view();
    match &config.source {
        VersionSource::Modrinth { version, filename } => {
            codes.push(0);
            push_text(&mut texts, version);
            push_opt(&mut codes, &mut texts, filename);
        },
        VersionSource::CurseForge { file_id } => {
            codes.push(1);
            let shifted: i64 = *file_id as i64 + 0x8000_0000i64;
            codes.push(shifted as u64);
        },
        VersionSource::GitHub { tag, asset } => {
            codes.push(2);
            push_text(&mut texts, tag);
            push_text(&mut texts, asset);
        },
    }
    proof {
        let c = config@;
        assert(codes@ =~= head_codes + source_codes(c.source));
        assert(codes@ == fingerprint_codes(c));
        assert(head_texts == four + c.settings_classes + c.dependencies);
        assert(texts.deep_view() =~= head_texts + source_texts(c.source));
        assert(fingerprint_texts(c) =~= seq![
            opt_text(c.entrypoint),
            opt_text(c.settings_manager),
            c.settings_manager_class,
            c.rule_annotation_class,
        ] + c.settings_classes + c.dependencies + source_texts(c.source));
        assert(texts.deep_view() == fingerprint_texts(c));
    }
    hash_parts(&codes, &texts)
}

/// Configurations that differ in any field, whether resolved by the cascade
/// or not, hand different input to the hasher: equal fingerprints of
/// different configurations can only come from a collision of the 64-bit
/// hash.
pub proof fn lemma_fingerprint_input_injective(a: ConfigModel, b: ConfigModel)
    requires
        a.settings_classes.len() <= u64::MAX,
        a.dependencies.len() <= u64::MAX,
        b.settings_classes.len() <= u64::MAX,
        b.dependencies.len() <= u64::MAX,
        fingerprint_codes(a) == fingerprint_codes(b),
        fingerprint_texts(a) == fingerprint_texts(b),
    ensures
        a == b,
{
    let ca = fingerprint_codes(a);
    let cb = fingerprint_codes(b);
    let ta = fingerprint_texts(a);
    let tb = fingerprint_texts(b);
    assert(ca[0] == cb[0] && ca[1] == cb[1] && ca[2] == cb[2] && ca[3] == cb[3]);
    assert(ca[4] == cb[4] && ca[5] == cb[5] && ca[6] == cb[6] && ca[7] == cb[7] && ca[8] == cb[8]);
    assert(ca[0] == major_code(a.major) && cb[0] == major_code(b.major));
    assert(ca[1] == version_code(a.minecraft_version) && cb[1] == version_code(b.minecraft_version));
    assert(ca[2] == printer_code(a.printer_version) && cb[2] == printer_code(b.printer_version));
    assert(ca[3] == opt_code(a.entrypoint) && cb[3] == opt_code(b.entrypoint));
    assert(ca[4] == opt_code(a.settings_manager) && cb[4] == opt_code(b.settings_manager));
    assert(ca[5] == a.settings_classes.len() as u64 && cb[5] == b.settings_classes.len() as u64);
    assert(ca[6] == (if a.run_client { 1u64 } else { 0u64 }) && cb[6] == (if b.run_client { 1u64 } else { 0u64 }));
    assert(ca[7] == a.dependencies.len() as u64 && cb[7] == b.dependencies.len() as u64);
    assert(ca.subrange(8, ca.len() as int) =~= source_codes(a.source));
    assert(cb.subrange(8, cb.len() as int) =~= source_codes(b.source));
    assert(a.major == b.major);
    assert(a.minecraft_version == b.minecraft_version);
    assert(a.printer_version == b.printer_version);
    assert(a.run_client == b.run_client);
    let n1 = a.settings_classes.len() as int;
    let n2 = a.dependencies.len() as int;
    assert(n1 == b.settings_classes.len());
    assert(n2 == b.dependencies.len());
    assert(ta[0] == tb[0] && ta[1] == tb[1] && ta[2] == tb[2] && ta[3] == tb[3]);
    assert(ta[0] == opt_text(a.entrypoint) && tb[0] == opt_text(b.entrypoint));
    assert(ta[1] == opt_text(a.settings_manager) && tb[1] == opt_text(b.settings_manager));
    assert(ta[2] == a.settings_manager_class && tb[2] == b.settings_manager_class);
    assert(ta[3] == a.rule_annotation_class && tb[3] == b.rule_annotation_class);
    if a.entrypoint is Some {
        assert(a.entrypoint =~= b.entrypoint);
    }
    if a.settings_manager is Some {
        assert(a.settings_manager =~= b.settings_manager);
    }
    assert(a.settings_classes =~= ta.subrange(4, 4 + n1));
    assert(b.settings_classes =~= tb.subrange(4, 4 + n1));
    assert(a.dependencies =~= ta.subrange(4 + n1, 4 + n1 + n2));
    assert(b.dependencies =~= tb.subrange(4 + n1, 4 + n1 + n2));
    assert(source_texts(a.source) =~= ta.subrange(4 + n1 + n2, ta.len() as int));
    assert(source_texts(b.source) =~= tb.subrange(4 + n1 + n2, tb.len() as int));
    match a.source {
        SourceModel::Modrinth { version, filename } => {
            assert(ca[9] == cb[9]);
            assert(source_texts(a.source)[0] == source_texts(b.source)[0]);
            assert(source_texts(a.source)[1] == source_texts(b.source)[1]);
            if filename is Some {
                assert(a.source =~= b.source);
            }
        },
        SourceModel::CurseForge { file_id } => {
            assert(ca[9] == cb[9]);
        },
        SourceModel::GitHub { tag, asset } => {
            assert(source_texts(a.source)[0] == source_texts(b.source)[0]);
            assert(source_texts(a.source)[1] == source_texts(b.source)[1]);
        },
    }
    assert(a.source == b.source);
}

/// What to do about one (plugin, version) pair before any extraction.
#[derive(Debug)]
pub enum CacheDecision {
    /// The cache record is fresh: its rules are used as they are.
    Reuse(Vec<RawRule>),
    /// The pair has to be extracted.
    Extract,
}

/// Why the extraction of one (plugin, version) pair failed.
#[derive(Clone, Debug, PartialEq, Eq)]
pub enum ExtractError {
    /// A combine-only run met a pair whose cache record is not fresh.
    StaleCache,
    /// The build exited with a non-zero status.
    NonZeroExit,
    /// The build declared no output file.
    MissingOutput,
    /// The build's output holds no rule.
    EmptyRules,
}

/// A cache record may be trusted: its fingerprint is the current one and it
/// holds at least one rule.
pub open spec fn cache_fresh(record: Option<RulesJson>, fingerprint: u64) -> bool {
    record matches Some(rec) && rec.hash == fingerprint && rec.rules@.len() > 0
}

/// Decides from the cache record read for a pair (absent, or unreadable,
/// as `None`) whether the pair must be extracted.
pub fn check_cache(record: Option<RulesJson>, fingerprint: u64, combine_only: bool) -> (r: Result<
    CacheDecision,
    ExtractError,
>)
    ensures
        cache_fresh(record, fingerprint) <==> r is Ok && r->Ok_0 is Reuse,
        r matches Ok(CacheDecision::Reuse(rules)) ==> rules@ == record->Some_0.rules@,
        !cache_fresh(record, fingerprint) && combine_only <==> r == Err::<
            CacheDecision,
            ExtractError,
        >(ExtractError::StaleCache),
        !cache_fresh(record, fingerprint) && !combine_only <==> r matches Ok(CacheDecision::Extract),
{
    match record {
        Some(rec) => {
            if rec.hash == fingerprint && rec.rules.len() > 0 {
                return Ok(CacheDecision::Reuse(rec.rules));
            }
        },
        None => {},
    }
    if combine_only {
        Err(ExtractError::StaleCache)
    } else {
        Ok(CacheDecision::Extract)
    }
}

pub open spec fn raw_views(rules: Seq<RawRule>) -> Seq<RawRuleModel> {
    rules.map_values(|r: RawRule| r@)
}

/// Stable sort of raw rules by name.
pub open spec fn sort_raw_by_name(s: Seq<RawRuleModel>) -> Seq<RawRuleModel> {
    sort_by(s, |r: RawRuleModel| r.name)
}

impl Named for RawRule {
    open spec fn name_of(&self) -> Seq<char> {
        self.name@
    }

    fn name_text(&self) -> (r: &str) {
        self.name.as_str()
    }
}

/// Sorts raw rules by name, keeping the order of rules with equal names.
pub fn sort_raw_rules_by_name(rules: Vec<RawRule>) -> (r: Vec<RawRule>)
    ensures
        raw_views(r@) == sort_raw_by_name(raw_views(rules@)),
{
    let ghost input = rules@;
    let r = sort_items_by_name(rules);
    proof {
        let f = |x: RawRule| x@;
        let k2 = |m: RawRuleModel| m.name;
        assert forall|y: RawRule| #[trigger] by_name::<RawRule>()(y) == k2(f(y)) by {}
        lemma_sort_by_map(input, f, by_name::<RawRule>(), k2);
        assert(raw_views(r@) =~= r@.map_values(f));
        assert(raw_views(input) =~= input.map_values(f));
    }
    r
}

/// Accepts the result of a finished build: its exit status, and the rules of
/// its declared output file (`None` when the file is missing). On success the
/// rules, sorted by name, form the cache record to write.
pub fn finish_extraction(fingerprint: u64, exit_success: bool, rules: Option<Vec<RawRule>>) -> (r:
    Result<RulesJson, ExtractError>)
    ensures
        !exit_success <==> r == Err::<RulesJson, ExtractError>(ExtractError::NonZeroExit),
        exit_success && rules is None <==> r == Err::<RulesJson, ExtractError>(
            ExtractError::MissingOutput,
        ),
        (exit_success && (rules matches Some(v) && v@.len() == 0)) <==> r == Err::<
            RulesJson,
            ExtractError,
        >(ExtractError::EmptyRules),
        exit_success && (rules matches Some(v) && v@.len() > 0) <==> r is Ok,
        r matches Ok(rec) ==> rec.hash == fingerprint && rec.rules@.len() > 0 && raw_views(
            rec.rules@,
        ) == sort_raw_by_name(raw_views(rules->Some_0@)),
{
    if !exit_success {
        return Err(ExtractError::NonZeroExit);
    }
    match rules {
        None => Err(ExtractError::MissingOutput),
        Some(v) => {
            let ghost n = v@.len();
            let sorted = sort_raw_rules_by_name(v);
            proof {
                lemma_sort_by_len(raw_views(v@), |r: RawRuleModel| r.name);
            }
            if sorted.len() == 0 {
                Err(ExtractError::EmptyRules)
            } else {
                Ok(RulesJson { hash: fingerprint, rules: sorted })
            }
        },
    }
}

/// A record written after a successful extraction is fresh for the
/// configuration it was extracted with: running again with an unchanged
/// configuration reuses it and extracts nothing.
pub proof fn lemma_cache_idempotent(config: ConfigModel, rec: RulesJson)
    requires
        rec.hash == fingerprint(config),
        rec.rules@.len() > 0,
    ensures
        cache_fresh(Some(rec), fingerprint(config)),
{
}

} // verus!
