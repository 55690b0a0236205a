//! Cross-version, cross-plugin merge of extracted rules into one dataset.

use vstd::prelude::*;

use crate::sort::{
    by_name, insert_by, lemma_sort_by_contains, lemma_sort_by_map, lemma_sort_by_sorted, lemma_sort_by_stable,
    sort_by, sort_items_by_name, sorted_by, Named,
    with_key,
};
use crate::schema::{MinecraftMajorVersion, Output, RawRule, RawRuleModel, Rule, RuleModel};
use crate::text::{
    all_in, clone_strings, contains_all, lemma_lex_lt_irreflexive, lex_lt,
    strings_equal,
};

verus! {

/// A raw rule tagged with its plugin and with the one version it came from.
pub open spec fn tagged(
    raw: RawRuleModel,
    mod_name: Seq<char>,
    mod_slug: Seq<char>,
    mod_url: Seq<char>,
    version: MinecraftMajorVersion,
    version_url: Seq<char>,
) -> RuleModel {
    RuleModel {
        name: raw.name,
        description: raw.description,
        type_: raw.type_,
        value: raw.value,
        strict: raw.strict,
        categories: raw.categories,
        options: raw.options,
        extras: raw.extras,
        validators: raw.validators,
        config_files: raw.config_files,
        mod_name,
        mod_slug,
        mod_url,
        minecraft_versions: seq![version],
        version_urls: seq![version_url],
    }
}

/// The rules of one output, each tagged with the output's plugin and version.
pub open spec fn output_rules(o: Output) -> Seq<RuleModel> {
    o.rules@.map_values(
        |r: RawRule| tagged(r@, o.mod_name@, o.mod_slug@, o.mod_url@, o.minecraft_version, o.version_url@),
    )
}

/// All tagged rules of a list of outputs, in processing order.
pub open spec fn tagged_rules(outputs: Seq<Output>) -> Seq<RuleModel>
    decreases outputs.len(),
{
    if outputs.len() == 0 {
        Seq::empty()
    } else {
        tagged_rules(outputs.drop_last()) + output_rules(outputs.last())
    }
}

/// Two entries describe the same rule: equal in everything but description,
/// versions and validators, and with validator lists of which one contains
/// the other.
pub open spec fn same_rule(a: RuleModel, b: RuleModel) -> bool {
    &&& a.name == b.name
    &&& a.type_ == b.type_
    &&& a.value == b.value
    &&& a.strict == b.strict
    &&& a.categories == b.categories
    &&& a.options == b.options
    &&& (all_in(a.validators, b.validators) || all_in(b.validators, a.validators))
    &&& a.config_files == b.config_files
    &&& a.mod_name == b.mod_name
    &&& a.mod_slug == b.mod_slug
    &&& a.mod_url == b.mod_url
}

/// `existing` after `new` was found to be the same rule: the newer free-text
/// fields win and the versions of `new` are appended.
pub open spec fn absorb(existing: RuleModel, new: RuleModel) -> RuleModel {
    RuleModel {
        description: new.description,
        validators: new.validators,
        minecraft_versions: existing.minecraft_versions + new.minecraft_versions,
        version_urls: existing.version_urls + new.version_urls,
        ..existing
    }
}

/// One merge step: `new` is absorbed into every entry that is the same rule,
/// or appended when there is none.
pub open spec fn merge_into(combined: Seq<RuleModel>, new: RuleModel) -> Seq<RuleModel> {
    if exists|i: int| 0 <= i < combined.len() && same_rule(#[trigger] combined[i], new) {
        combined.map_values(|r: RuleModel| if same_rule(r, new) { absorb(r, new) } else { r })
    } else {
        combined.push(new)
    }
}

/// The merge of a sequence of tagged rules, in order.
pub open spec fn merge_seq(s: Seq<RuleModel>) -> Seq<RuleModel>
    decreases s.len(),
{
    if s.len() == 0 {
        Seq::empty()
    } else {
        merge_into(merge_seq(s.drop_last()), s.last())
    }
}

/// Stable sort of consolidated rules by name.
pub open spec fn sort_by_name(s: Seq<RuleModel>) -> Seq<RuleModel> {
    sort_by(s, |r: RuleModel| r.name)
}

/// The consolidated dataset of a run.
pub open spec fn consolidated(outputs: Seq<Output>) -> Seq<RuleModel> {
    sort_by_name(merge_seq(tagged_rules(outputs)))
}

pub open spec fn views(rules: Seq<Rule>) -> Seq<RuleModel> {
    rules.map_values(|r: Rule| r@)
}

fn clone_versions(v: &Vec<MinecraftMajorVersion>) -> (r: Vec<MinecraftMajorVersion>)
    ensures
        r@ == v@,
{
    let mut r: Vec<MinecraftMajorVersion> = Vec::new();
    let mut i: usize = 0;
    while i < v.len()
        invariant
            i <= v.len(),
            r@ =~= v@.subrange(0, i as int),
        decreases v.len() - i,
    {
        r.push(v[i]);
        i = i + 1;
    }
    r
}

/// Wraps a raw rule into a consolidated rule of one version.
fn tag_rule(raw: &RawRule, o: &Output) -> (r: Rule)
    ensures
        r@ == tagged(raw@, o.mod_name@, o.mod_slug@, o.mod_url@, o.minecraft_version, o.version_url@),
{
    let mut versions: Vec<MinecraftMajorVersion> = Vec::new();
    versions.push(o.minecraft_version);
    let mut urls: Vec<String> = Vec::new();
    urls.push(o.version_url.clone());
    let r = Rule {
        name: raw.name.clone(),
        description: raw.description.clone(),
        type_: raw.type_.clone(),
        value: raw.value.clone(),
        strict: raw.strict,
        categories: clone_strings(&raw.categories),
        options: clone_strings(&raw.options),
        extras: clone_strings(&raw.extras),
        validators: clone_strings(&raw.validators),
        config_files: clone_strings(&raw.config_files),
        mod_name: o.mod_name.clone(),
        mod_slug: o.mod_slug.clone(),
        mod_url: o.mod_url.clone(),
        minecraft_versions: versions,
        version_urls: urls,
    };
    assert(r@.minecraft_versions =~= seq![o.minecraft_version]);
    assert(r@.version_urls =~= seq![o.version_url@]);
    r
}

/// Whether two entries are the same rule.
pub fn is_same_rule(a: &Rule, b: &Rule) -> (r: bool)
    ensures
        r == same_rule(a@, b@),
{
    a.name == b.name && a.type_ == b.type_ && a.value == b.value && a.strict == b.strict
        && strings_equal(&a.categories, &b.categories) && strings_equal(&a.options, &b.options)
        && (contains_all(&a.validators, &b.validators) || contains_all(&b.validators, &a.validators))
        && strings_equal(&a.config_files, &b.config_files) && a.mod_name == b.mod_name
        && a.mod_slug == b.mod_slug && a.mod_url == b.mod_url
}

fn absorbed(existing: &Rule, new: &Rule) -> (r: Rule)
    ensures
        r@ == absorb(existing@, new@),
{
    let mut versions = clone_versions(&existing.minecraft_versions);
    let mut urls = clone_strings(&existing.version_urls);
    let mut i: usize = 0;
    while i < new.minecraft_versions.len()
        invariant
            i <= new.minecraft_versions.len(),
            versions@ =~= existing.minecraft_versions@ + new.minecraft_versions@.subrange(0, i as int),
        decreases new.minecraft_versions.len() - i,
    {
        versions.push(new.minecraft_versions[i]);
        i = i + 1;
    }
    assert(new.minecraft_versions@.subrange(0, i as int) =~= new.minecraft_versions@);
    proof {
        assert(urls@.len() == urls.deep_view().len());
        assert forall|k: int| 0 <= k < existing.version_urls@.len() implies #[trigger] urls@[k]@ == existing.version_urls@[k]@ by {
            assert(urls.deep_view()[k] == existing.version_urls.deep_view()[k]);
        }
    }
    let mut j: usize = 0;
    while j < new.version_urls.len()
        invariant
            j <= new.version_urls.len(),
            urls@.len() == existing.version_urls@.len() + j,
            forall|k: int| 0 <= k < existing.version_urls@.len() ==> #[trigger] urls@[k]@ == existing.version_urls@[k]@,
            forall|k: int| 0 <= k < j ==> #[trigger] urls@[existing.version_urls@.len() + k]@ == new.version_urls@[k]@,
        decreases new.version_urls.len() - j,
    {
        proof {
            assert(urls.deep_view().len() == urls@.len());
        }
        urls.push(new.version_urls[j].clone());
        j = j + 1;
    }
    let r = Rule {
        name: existing.name.clone(),
        description: new.description.clone(),
        type_: existing.type_.clone(),
        value: existing.value.clone(),
        strict: existing.strict,
        categories: clone_strings(&existing.categories),
        options: clone_strings(&existing.options),
        extras: clone_strings(&existing.extras),
        validators: clone_strings(&new.validators),
        config_files: clone_strings(&existing.config_files),
        mod_name: existing.mod_name.clone(),
        mod_slug: existing.mod_slug.clone(),
        mod_url: existing.mod_url.clone(),
        minecraft_versions: versions,
        version_urls: urls,
    };
    assert(r@.version_urls =~= existing@.version_urls + new@.version_urls) by {
        assert forall|k: int| 0 <= k < r@.version_urls.len() implies r@.version_urls[k] == (existing@.version_urls + new@.version_urls)[k] by {
            if k >= existing.version_urls@.len() {
                let m = k - existing.version_urls@.len();
                assert(urls@[existing.version_urls@.len() + m]@ == new.version_urls@[m]@);
            }
        }
    }
    r
}

/// Merges one tagged rule into the running result set.
fn merge_rule(combined: &mut Vec<Rule>, new_rule: Rule)
    ensures
        views(final(combined)@) == merge_into(views(old(combined)@), new_rule@),
{
    let ghost before = views(combined@);
    let mut did_modify = false;
    let mut j: usize = 0;
    while j < combined.len()
        invariant
            before.len() == combined@.len(),
            j <= combined.len(),
            forall|k: int| 0 <= k < j ==> #[trigger] views(combined@)[k] == (if same_rule(before[k], new_rule@) { absorb(before[k], new_rule@) } else { before[k] }),
            forall|k: int| j <= k < combined@.len() ==> #[trigger] views(combined@)[k] == before[k],
            did_modify == exists|k: int| 0 <= k < j && same_rule(#[trigger] before[k], new_rule@),
        decreases combined.len() - j,
    {
        assert(views(combined@)[j as int] == combined@[j as int]@);
        let ghost prev = combined@;
        if is_same_rule(&combined[j], &new_rule) {
            let r = absorbed(&combined[j], &new_rule);
            combined[j] = r;
            did_modify = true;
            assert(combined@ == prev.update(j as int, r));
        }
        assert forall|k: int| 0 <= k < combined@.len() && k != j implies #[trigger] views(combined@)[k] == views(prev)[k] by {
            assert(combined@[k] == prev[k]);
        }
        j = j + 1;
    }
    if !did_modify {
        assert forall|k: int| 0 <= k < before.len() implies #[trigger] views(combined@)[k] == before[k] by {
            assert(!same_rule(before[k], new_rule@));
        }
        let ghost prev = combined@;
        combined.push(new_rule);
        assert forall|k: int| 0 <= k < before.len() implies #[trigger] views(combined@)[k] == before[k] by {
            assert(combined@[k] == prev[k]);
            assert(views(prev)[k] == before[k]);
        }
        assert(views(combined@) =~= before.push(new_rule@));
    } else {
        assert(views(combined@) =~= before.map_values(|r: RuleModel| if same_rule(r, new_rule@) { absorb(r, new_rule@) } else { r }));
    }
}

proof fn lemma_tagged_rules_step(outputs: Seq<Output>, i: int)
    requires
        0 <= i < outputs.len(),
    ensures
        tagged_rules(outputs.subrange(0, i + 1)) == tagged_rules(outputs.subrange(0, i)) + output_rules(outputs[i]),
{
    assert(outputs.subrange(0, i + 1).drop_last() =~= outputs.subrange(0, i));
}

proof fn lemma_merge_seq_push(s: Seq<RuleModel>, x: RuleModel)
    ensures
        merge_seq(s.push(x)) == merge_into(merge_seq(s), x),
{
    assert(s.push(x).drop_last() =~= s);
}

/// Merges the tagged rules of all outputs, in processing order.
pub fn merge_outputs(outputs: &Vec<Output>) -> (r: Vec<Rule>)
    ensures
        views(r@) == merge_seq(tagged_rules(outputs@)),
{
    let mut combined: Vec<Rule> = Vec::new();
    let mut i: usize = 0;
    assert(views(combined@) =~= Seq::<RuleModel>::empty());
    while i < outputs.len()
        invariant
            i <= outputs.len(),
            views(combined@) == merge_seq(tagged_rules(outputs@.subrange(0, i as int))),
        decreases outputs.len() - i,
    {
        let o = &outputs[i];
        let ghost done = tagged_rules(outputs@.subrange(0, i as int));
        let ghost mine = output_rules(*o);
        let mut k: usize = 0;
        assert(done + mine.subrange(0, 0) =~= done);
        while k < o.rules.len()
            invariant
                o == outputs@[i as int],
                mine == output_rules(*o),
                k <= o.rules.len(),
                views(combined@) == merge_seq(done + mine.subrange(0, k as int)),
            decreases o.rules.len() - k,
        {
            let new_rule = tag_rule(&o.rules[k], o);
            merge_rule(&mut combined, new_rule);
            proof {
                assert(mine[k as int] == new_rule@);
                assert(done + mine.subrange(0, k + 1) =~= (done + mine.subrange(0, k as int)).push(new_rule@));
                lemma_merge_seq_push(done + mine.subrange(0, k as int), new_rule@);
            }
            k = k + 1;
        }
        proof {
            assert(mine.subrange(0, k as int) =~= mine);
            lemma_tagged_rules_step(outputs@, i as int);
        }
        i = i + 1;
    }
    assert(outputs@.subrange(0, outputs.len() as int) =~= outputs@);
    combined
}

impl Named for Rule {
    open spec fn name_of(&self) -> Seq<char> {
        self.name@
    }

    fn name_text(&self) -> (r: &str) {
        self.name.as_str()
    }
}

/// Sorts rules by name, keeping the order of rules with equal names.
pub fn sort_rules_by_name(rules: Vec<Rule>) -> (r: Vec<Rule>)
    ensures
        views(r@) == sort_by_name(views(rules@)),
{
    let ghost input = rules@;
    let r = sort_items_by_name(rules);
    proof {
        let f = |x: Rule| x@;
        let k2 = |m: RuleModel| m.name;
        assert forall|y: Rule| #[trigger] by_name::<Rule>()(y) == k2(f(y)) by {}
        lemma_sort_by_map(input, f, by_name::<Rule>(), k2);
        assert(views(r@) =~= r@.map_values(f));
        assert(views(input) =~= input.map_values(f));
    }
    r
}

/// The consolidated dataset: all outputs merged, then sorted by rule name.
pub fn combine(outputs: &Vec<Output>) -> (r: Vec<Rule>)
    ensures
        views(r@) == consolidated(outputs@),
{
    let merged = merge_outputs(outputs);
    sort_rules_by_name(merged)
}

proof fn lemma_tagged_rules_pair(o1: Output, o2: Output)
    requires
        o1.rules@.len() == 1,
        o2.rules@.len() == 1,
    ensures
        tagged_rules(seq![o1, o2]) == seq![output_rules(o1)[0], output_rules(o2)[0]],
{
    let s = seq![o1, o2];
    assert(s.drop_last() =~= seq![o1]);
    assert(seq![o1].drop_last() =~= Seq::<Output>::empty());
    assert(tagged_rules(Seq::<Output>::empty()) == Seq::<RuleModel>::empty());
    assert(tagged_rules(seq![o1]) == tagged_rules(Seq::<Output>::empty()) + output_rules(o1));
    assert(tagged_rules(seq![o1]) =~= output_rules(o1));
    assert(output_rules(o1) =~= seq![output_rules(o1)[0]]);
    assert(output_rules(o2) =~= seq![output_rules(o2)[0]]);
    assert(tagged_rules(s) =~= seq![output_rules(o1)[0], output_rules(o2)[0]]);
}

proof fn lemma_merge_pair(a: RuleModel, b: RuleModel)
    ensures
        merge_seq(seq![a, b]) == merge_into(seq![a], b),
{
    assert(seq![a, b].drop_last() =~= seq![a]);
    assert(seq![a].drop_last() =~= Seq::<RuleModel>::empty());
    assert(merge_seq(Seq::<RuleModel>::empty()) == Seq::<RuleModel>::empty());
    assert(merge_seq(seq![a]) == merge_into(merge_seq(Seq::<RuleModel>::empty()), a));
    assert(merge_into(Seq::<RuleModel>::empty(), a) =~= seq![a]);
    assert(merge_seq(seq![a, b]) == merge_into(merge_seq(seq![a]), b));
}

proof fn lemma_sort_single(a: RuleModel)
    ensures
        sort_by_name(seq![a]) == seq![a],
{
    assert(seq![a].drop_last() =~= Seq::<RuleModel>::empty());
    assert(sort_by_name(Seq::<RuleModel>::empty()) == Seq::<RuleModel>::empty());
    assert(sort_by_name(seq![a]) == insert_by(Seq::<RuleModel>::empty(), a, |r: RuleModel| r.name));
}

/// The same rule reported by one plugin for two major versions, with the
/// validator list of one version containing that of the other, ends up as
/// one consolidated entry: it lists both versions and both release URLs in
/// processing order, and carries the later description and validators.
pub proof fn lemma_versions_of_one_rule_merge(o1: Output, o2: Output)
    requires
        o1.rules@.len() == 1,
        o2.rules@.len() == 1,
        o1.mod_name@ == o2.mod_name@,
        o1.mod_slug@ == o2.mod_slug@,
        o1.mod_url@ == o2.mod_url@,
        o1.rules@[0]@.name == o2.rules@[0]@.name,
        o1.rules@[0]@.type_ == o2.rules@[0]@.type_,
        o1.rules@[0]@.value == o2.rules@[0]@.value,
        o1.rules@[0]@.strict == o2.rules@[0]@.strict,
        o1.rules@[0]@.categories == o2.rules@[0]@.categories,
        o1.rules@[0]@.options == o2.rules@[0]@.options,
        o1.rules@[0]@.config_files == o2.rules@[0]@.config_files,
        all_in(o1.rules@[0]@.validators, o2.rules@[0]@.validators) || all_in(
            o2.rules@[0]@.validators,
            o1.rules@[0]@.validators,
        ),
    ensures
        consolidated(seq![o1, o2]).len() == 1,
        consolidated(seq![o1, o2])[0].name == o1.rules@[0]@.name,
        consolidated(seq![o1, o2])[0].minecraft_versions == seq![o1.minecraft_version, o2.minecraft_version],
        consolidated(seq![o1, o2])[0].version_urls == seq![o1.version_url@, o2.version_url@],
        consolidated(seq![o1, o2])[0].validators == o2.rules@[0]@.validators,
        consolidated(seq![o1, o2])[0].description == o2.rules@[0]@.description,
{
    let t1 = output_rules(o1)[0];
    let t2 = output_rules(o2)[0];
    lemma_tagged_rules_pair(o1, o2);
    lemma_merge_pair(t1, t2);
    assert(same_rule(seq![t1][0], t2));
    let m = absorb(t1, t2);
    assert(merge_into(seq![t1], t2) =~= seq![m]);
    lemma_sort_single(m);
    assert(m.minecraft_versions =~= seq![o1.minecraft_version, o2.minecraft_version]);
    assert(m.version_urls =~= seq![o1.version_url@, o2.version_url@]);
}

/// Identical rules of two different plugins stay two entries, in processing
/// order.
pub proof fn lemma_plugins_never_merge(o1: Output, o2: Output)
    requires
        o1.rules@.len() == 1,
        o2.rules@.len() == 1,
        o1.rules@[0]@ == o2.rules@[0]@,
        o1.mod_name@ != o2.mod_name@ || o1.mod_slug@ != o2.mod_slug@ || o1.mod_url@ != o2.mod_url@,
    ensures
        consolidated(seq![o1, o2]) == seq![output_rules(o1)[0], output_rules(o2)[0]],
        consolidated(seq![o1, o2])[0].mod_slug == o1.mod_slug@,
        consolidated(seq![o1, o2])[1].mod_slug == o2.mod_slug@,
{
    let t1 = output_rules(o1)[0];
    let t2 = output_rules(o2)[0];
    lemma_tagged_rules_pair(o1, o2);
    lemma_merge_pair(t1, t2);
    assert(!same_rule(t1, t2));
    assert(merge_into(seq![t1], t2) =~= seq![t1, t2]);
    assert(seq![t1, t2].drop_last() =~= seq![t1]);
    lemma_sort_single(t1);
    lemma_lex_lt_irreflexive(t1.name);
    assert(seq![t1].drop_first() =~= Seq::<RuleModel>::empty());
    assert(t1.name == t2.name);
    assert(!lex_lt(t2.name, seq![t1][0].name));
    let key = |r: RuleModel| r.name;
    assert(insert_by(Seq::<RuleModel>::empty(), t2, key) == seq![t2]);
    assert(insert_by(seq![t1], t2, key) == seq![t1] + insert_by(seq![t1].drop_first(), t2, key));
    assert(insert_by(seq![t1], t2, key) =~= seq![t1, t2]);
    assert(sort_by_name(seq![t1, t2]) == insert_by(sort_by_name(seq![t1]), t2, key));
}

/// The consolidated dataset is in ascending order of rule name, and the
/// entries that share a name keep the order in which the merge first saw
/// them.
pub proof fn lemma_consolidated_sorted_and_stable(outputs: Seq<Output>, name: Seq<char>)
    ensures
        sorted_by(consolidated(outputs), |r: RuleModel| r.name),
        with_key(consolidated(outputs), |r: RuleModel| r.name, name) == with_key(
            merge_seq(tagged_rules(outputs)),
            |r: RuleModel| r.name,
            name,
        ),
{
    lemma_sort_by_sorted(merge_seq(tagged_rules(outputs)), |r: RuleModel| r.name);
    lemma_sort_by_stable(merge_seq(tagged_rules(outputs)), |r: RuleModel| r.name, name);
}

/// Two entries belong to the same plugin.
pub open spec fn same_plugin(a: RuleModel, b: RuleModel) -> bool {
    a.mod_name == b.mod_name && a.mod_slug == b.mod_slug && a.mod_url == b.mod_url
}

/// A tagged rule of exactly one version.
pub open spec fn single(t: RuleModel) -> bool {
    t.minecraft_versions.len() == 1 && t.version_urls.len() == 1
}

/// Version `k` of entry `e`, with its release URL, is the one of tagged rule
/// `t`, which belongs to the same plugin.
pub open spec fn contributed_by(e: RuleModel, k: int, t: RuleModel) -> bool {
    &&& same_plugin(e, t)
    &&& e.minecraft_versions[k] == t.minecraft_versions[0]
    &&& e.version_urls[k] == t.version_urls[0]
}

/// Version `k` of entry `e` comes from some tagged rule of `s`.
pub open spec fn from_some(e: RuleModel, k: int, s: Seq<RuleModel>) -> bool {
    exists|j: int| 0 <= j < s.len() && #[trigger] contributed_by(e, k, s[j])
}

/// Tagged rule `t` contributes a version to some entry of `res`.
pub open spec fn placed(res: Seq<RuleModel>, t: RuleModel) -> bool {
    exists|p: int, k: int|
        0 <= p < res.len() && 0 <= k < res[p].minecraft_versions.len() && #[trigger] contributed_by(
            res[p],
            k,
            t,
        )
}

/// Every version of every entry comes from a tagged rule of its own plugin.
pub open spec fn entries_from(res: Seq<RuleModel>, s: Seq<RuleModel>) -> bool {
    &&& forall|p: int| 0 <= p < res.len() ==> (#[trigger] res[p]).minecraft_versions.len()
        == res[p].version_urls.len()
    &&& forall|p: int, k: int|
        0 <= p < res.len() && 0 <= k < res[p].minecraft_versions.len() ==> #[trigger] from_some(res[p], k, s)
}

/// Every tagged rule's version lands in an entry of its own plugin.
pub open spec fn all_placed(res: Seq<RuleModel>, s: Seq<RuleModel>) -> bool {
    forall|j: int| 0 <= j < s.len() ==> #[trigger] placed(res, s[j])
}

proof fn lemma_merge_provenance(s: Seq<RuleModel>)
    requires
        forall|j: int| 0 <= j < s.len() ==> single(#[trigger] s[j]),
    ensures
        entries_from(merge_seq(s), s),
        all_placed(merge_seq(s), s),
    decreases s.len(),
{
    if s.len() > 0 {
        let prev = s.drop_last();
        let x = s.last();
        assert forall|j: int| 0 <= j < prev.len() implies single(#[trigger] prev[j]) by {
            assert(prev[j] == s[j]);
        }
        lemma_merge_provenance(prev);
        let old_res = merge_seq(prev);
        let res = merge_seq(s);
        assert(res == merge_into(old_res, x));
        assert(single(s[s.len() - 1]));
        if exists|i: int| 0 <= i < old_res.len() && same_rule(#[trigger] old_res[i], x) {
            let f = |r: RuleModel| if same_rule(r, x) { absorb(r, x) } else { r };
            assert(res == old_res.map_values(f));
            assert forall|p: int| 0 <= p < res.len() implies (#[trigger] res[p]).minecraft_versions.len()
                == res[p].version_urls.len() by {
                assert(res[p] == f(old_res[p]));
                assert(old_res[p].minecraft_versions.len() == old_res[p].version_urls.len());
            }
            assert forall|p: int, k: int|
                0 <= p < res.len() && 0 <= k < res[p].minecraft_versions.len() implies #[trigger] from_some(res[p], k, s) by {
                assert(res[p] == f(old_res[p]));
                let n = old_res[p].minecraft_versions.len();
                if k < n {
                    assert(from_some(old_res[p], k, prev));
                    let j = choose|j: int| 0 <= j < prev.len() && #[trigger] contributed_by(old_res[p], k, prev[j]);
                    assert(prev[j] == s[j]);
                    assert(contributed_by(res[p], k, s[j]));
                } else {
                    assert(contributed_by(res[p], k, s[s.len() - 1]));
                }
            }
            assert forall|j: int| 0 <= j < s.len() implies #[trigger] placed(res, s[j]) by {
                if j < prev.len() {
                    assert(prev[j] == s[j]);
                    assert(placed(old_res, prev[j]));
                    let (p, k) = choose|p: int, k: int|
                        0 <= p < old_res.len() && 0 <= k < old_res[p].minecraft_versions.len()
                            && #[trigger] contributed_by(old_res[p], k, prev[j]);
                    assert(res[p] == f(old_res[p]));
                    assert(contributed_by(res[p], k, s[j]));
                } else {
                    let i = choose|i: int| 0 <= i < old_res.len() && same_rule(#[trigger] old_res[i], x);
                    assert(res[i] == absorb(old_res[i], x));
                    let k = old_res[i].minecraft_versions.len() as int;
                    assert(contributed_by(res[i], k, s[j]));
                }
            }
        } else {
            assert(res == old_res.push(x));
            assert forall|p: int| 0 <= p < res.len() implies (#[trigger] res[p]).minecraft_versions.len()
                == res[p].version_urls.len() by {
                if p < old_res.len() {
                    assert(res[p] == old_res[p]);
                }
            }
            assert forall|p: int, k: int|
                0 <= p < res.len() && 0 <= k < res[p].minecraft_versions.len() implies #[trigger] from_some(res[p], k, s) by {
                if p < old_res.len() {
                    assert(res[p] == old_res[p]);
                    assert(from_some(old_res[p], k, prev));
                    let j = choose|j: int| 0 <= j < prev.len() && #[trigger] contributed_by(old_res[p], k, prev[j]);
                    assert(prev[j] == s[j]);
                    assert(contributed_by(res[p], k, s[j]));
                } else {
                    assert(contributed_by(res[p], k, s[s.len() - 1]));
                }
            }
            assert forall|j: int| 0 <= j < s.len() implies #[trigger] placed(res, s[j]) by {
                if j < prev.len() {
                    assert(prev[j] == s[j]);
                    assert(placed(old_res, prev[j]));
                    let (p, k) = choose|p: int, k: int|
                        0 <= p < old_res.len() && 0 <= k < old_res[p].minecraft_versions.len()
                            && #[trigger] contributed_by(old_res[p], k, prev[j]);
                    assert(res[p] == old_res[p]);
                    assert(contributed_by(res[p], k, s[j]));
                } else {
                    assert(contributed_by(res[old_res.len() as int], 0, s[j]));
                }
            }
        }
    }
}

proof fn lemma_tagged_rules_single(outputs: Seq<Output>)
    ensures
        forall|j: int| 0 <= j < tagged_rules(outputs).len() ==> single(#[trigger] tagged_rules(outputs)[j]),
    decreases outputs.len(),
{
    if outputs.len() > 0 {
        lemma_tagged_rules_single(outputs.drop_last());
        let a = tagged_rules(outputs.drop_last());
        let b = output_rules(outputs.last());
        assert(tagged_rules(outputs) == a + b);
        assert forall|j: int| 0 <= j < (a + b).len() implies single(#[trigger] (a + b)[j]) by {
            if j >= a.len() {
                assert((a + b)[j] == b[j - a.len()]);
            }
        }
    }
}

/// Rules of different plugins never share an entry of the consolidated
/// dataset: every version (with its release URL) listed by an entry comes
/// from a rule of that entry's own plugin, and every extracted rule's
/// version is listed by an entry of its own plugin.
pub proof fn lemma_versions_stay_with_their_plugin(outputs: Seq<Output>)
    ensures
        entries_from(consolidated(outputs), tagged_rules(outputs)),
        all_placed(consolidated(outputs), tagged_rules(outputs)),
{
    let s = tagged_rules(outputs);
    let m = merge_seq(s);
    let c = consolidated(outputs);
    let key = |r: RuleModel| r.name;
    lemma_tagged_rules_single(outputs);
    lemma_merge_provenance(s);
    assert forall|p: int| 0 <= p < c.len() implies exists|q: int| 0 <= q < m.len() && m[q] == #[trigger] c[p] by {
        lemma_sort_by_contains(m, key, c[p]);
        assert(c.contains(c[p]));
    }
    assert forall|p: int| 0 <= p < c.len() implies (#[trigger] c[p]).minecraft_versions.len()
        == c[p].version_urls.len() by {
        let q = choose|q: int| 0 <= q < m.len() && m[q] == c[p];
        assert(m[q].minecraft_versions.len() == m[q].version_urls.len());
    }
    assert forall|p: int, k: int|
        0 <= p < c.len() && 0 <= k < c[p].minecraft_versions.len() implies #[trigger] from_some(c[p], k, s) by {
        let q = choose|q: int| 0 <= q < m.len() && m[q] == c[p];
        assert(from_some(m[q], k, s));
    }
    assert forall|j: int| 0 <= j < s.len() implies #[trigger] placed(c, s[j]) by {
        assert(placed(m, s[j]));
        let (p, k) = choose|p: int, k: int|
            0 <= p < m.len() && 0 <= k < m[p].minecraft_versions.len() && #[trigger] contributed_by(m[p], k, s[j]);
        lemma_sort_by_contains(m, key, m[p]);
        assert(m.contains(m[p]));
        let p2 = choose|p2: int| 0 <= p2 < c.len() && c[p2] == m[p];
        assert(contributed_by(c[p2], k, s[j]));
    }
}

/// `r` is an entry of the plugin of `t` with the name of `t`.
pub open spec fn has_key(r: RuleModel, t: RuleModel) -> bool {
    same_plugin(r, t) && r.name == t.name
}

/// `e` is the one entry of `res` with the plugin and name of `t`.
pub open spec fn unique_entry(res: Seq<RuleModel>, t: RuleModel, e: RuleModel) -> bool {
    exists|p: int|
        0 <= p < res.len() && #[trigger] res[p] == e && forall|q: int|
            0 <= q < res.len() && q != p ==> !has_key(#[trigger] res[q], t)
}

pub open spec fn no_entry(res: Seq<RuleModel>, t: RuleModel) -> bool {
    forall|q: int| 0 <= q < res.len() ==> !has_key(#[trigger] res[q], t)
}

/// The merge state after the first `n` tagged rules, for the pair `i`, `j`.
pub open spec fn pair_state(res: Seq<RuleModel>, s: Seq<RuleModel>, i: int, j: int, n: int) -> bool {
    if n <= i {
        no_entry(res, s[i])
    } else if n <= j {
        unique_entry(res, s[i], s[i])
    } else {
        unique_entry(res, s[i], absorb(s[i], s[j]))
    }
}

proof fn lemma_merge_into_keys(res: Seq<RuleModel>, x: RuleModel, t: RuleModel)
    ensures
        ({
            let out = merge_into(res, x);
            &&& out.len() >= res.len()
            &&& forall|q: int| 0 <= q < res.len() ==> has_key(#[trigger] out[q], t) == has_key(res[q], t)
            &&& forall|q: int| 0 <= q < res.len() && !same_rule(res[q], x) ==> #[trigger] out[q] == res[q]
            &&& forall|q: int| 0 <= q < res.len() && same_rule(res[q], x) ==> #[trigger] out[q] == absorb(res[q], x)
            &&& (out.len() > res.len() ==> out.len() == res.len() + 1 && out[res.len() as int] == x
                && forall|q: int| 0 <= q < res.len() ==> !same_rule(#[trigger] res[q], x))
        }),
{
    let out = merge_into(res, x);
    if exists|i: int| 0 <= i < res.len() && same_rule(#[trigger] res[i], x) {
        let f = |r: RuleModel| if same_rule(r, x) { absorb(r, x) } else { r };
        assert(out == res.map_values(f));
        assert forall|q: int| 0 <= q < res.len() implies has_key(#[trigger] out[q], t) == has_key(res[q], t) by {
            assert(out[q] == f(res[q]));
        }
        assert forall|q: int| 0 <= q < res.len() && !same_rule(res[q], x) implies #[trigger] out[q] == res[q] by {
            assert(out[q] == f(res[q]));
        }
        assert forall|q: int| 0 <= q < res.len() && same_rule(res[q], x) implies #[trigger] out[q] == absorb(res[q], x) by {
            assert(out[q] == f(res[q]));
        }
    } else {
        assert(out == res.push(x));
        assert forall|q: int| 0 <= q < res.len() implies has_key(#[trigger] out[q], t) == has_key(res[q], t) by {
            assert(out[q] == res[q]);
        }
    }
}

proof fn lemma_pair_state(s: Seq<RuleModel>, i: int, j: int, n: int)
    requires
        0 <= i < j < s.len(),
        0 <= n <= s.len(),
        same_rule(s[i], s[j]),
        forall|l: int| 0 <= l < s.len() && l != i && l != j ==> !has_key(#[trigger] s[l], s[i]),
    ensures
        pair_state(merge_seq(s.subrange(0, n)), s, i, j, n),
    decreases n,
{
    if n == 0 {
        assert(s.subrange(0, 0) =~= Seq::<RuleModel>::empty());
    } else {
        let k = n - 1;
        lemma_pair_state(s, i, j, k);
        let prev = s.subrange(0, k);
        assert(s.subrange(0, n).drop_last() =~= prev);
        let res = merge_seq(prev);
        let x = s[k];
        let out = merge_seq(s.subrange(0, n));
        assert(out == merge_into(res, x));
        let t = s[i];
        lemma_merge_into_keys(res, x, t);
        assert(has_key(t, t));
        if k == i {
            assert(no_entry(res, t));
            assert forall|q: int| 0 <= q < res.len() implies !same_rule(#[trigger] res[q], x) by {
                assert(!has_key(res[q], t));
            }
            assert(out.len() != res.len()) by {
                if out.len() == res.len() {
                    let w = choose|w: int| 0 <= w < res.len() && same_rule(#[trigger] res[w], x);
                    assert(!has_key(res[w], t));
                }
            }
            let p = res.len() as int;
            assert(out[p] == t);
            assert forall|q: int| 0 <= q < out.len() && q != p implies !has_key(#[trigger] out[q], t) by {
                assert(has_key(out[q], t) == has_key(res[q], t));
            }
            assert(unique_entry(out, t, t));
        } else if k == j {
            let p = choose|p: int|
                0 <= p < res.len() && #[trigger] res[p] == t && forall|q: int|
                    0 <= q < res.len() && q != p ==> !has_key(#[trigger] res[q], t);
            assert(same_rule(res[p], x));
            assert(out.len() == res.len());
            assert(out[p] == absorb(t, x));
            assert forall|q: int| 0 <= q < out.len() && q != p implies !has_key(#[trigger] out[q], t) by {
                assert(has_key(out[q], t) == has_key(res[q], t));
            }
            assert(unique_entry(out, t, absorb(s[i], s[j])));
        } else {
            assert(!has_key(x, t));
            if k < i {
                assert forall|q: int| 0 <= q < out.len() implies !has_key(#[trigger] out[q], t) by {
                    if q < res.len() {
                        assert(has_key(out[q], t) == has_key(res[q], t));
                    } else {
                        assert(out[q] == x);
                    }
                }
            } else {
                let e = if k < j { t } else { absorb(s[i], s[j]) };
                assert(unique_entry(res, t, e));
                let p = choose|p: int|
                    0 <= p < res.len() && #[trigger] res[p] == e && forall|q: int|
                        0 <= q < res.len() && q != p ==> !has_key(#[trigger] res[q], t);
                assert(has_key(e, t));
                assert(!same_rule(res[p], x));
                assert(out[p] == e);
                assert forall|q: int| 0 <= q < out.len() && q != p implies !has_key(#[trigger] out[q], t) by {
                    if q < res.len() {
                        assert(has_key(out[q], t) == has_key(res[q], t));
                    } else {
                        assert(out[q] == x);
                    }
                }
                assert(unique_entry(out, t, e));
            }
        }
    }
}

/// Two extractions of the same rule by one plugin (equal in everything but
/// description and validators, with validator lists of which one contains
/// the other), where no other extracted rule of that plugin has that name,
/// end as exactly one merged entry: it lists the versions and release URLs
/// of both, in processing order, and carries the later description and
/// validators. The entry stands in the consolidated dataset, which keeps
/// the merged entries of each name in their order.
pub proof fn lemma_same_rule_merges(outputs: Seq<Output>, i: int, j: int)
    requires
        0 <= i < j < tagged_rules(outputs).len(),
        same_rule(tagged_rules(outputs)[i], tagged_rules(outputs)[j]),
        forall|l: int|
            0 <= l < tagged_rules(outputs).len() && l != i && l != j ==> !has_key(
                #[trigger] tagged_rules(outputs)[l],
                tagged_rules(outputs)[i],
            ),
    ensures
        ({
            let s = tagged_rules(outputs);
            let e = absorb(s[i], s[j]);
            &&& unique_entry(merge_seq(s), s[i], e)
            &&& e.minecraft_versions == seq![s[i].minecraft_versions[0], s[j].minecraft_versions[0]]
            &&& e.version_urls == seq![s[i].version_urls[0], s[j].version_urls[0]]
            &&& consolidated(outputs).contains(e)
        }),
{
    let s = tagged_rules(outputs);
    lemma_pair_state(s, i, j, s.len() as int);
    assert(s.subrange(0, s.len() as int) =~= s);
    lemma_tagged_rules_single(outputs);
    assert(single(s[i]) && single(s[j]));
    let e = absorb(s[i], s[j]);
    assert(e.minecraft_versions =~= seq![s[i].minecraft_versions[0], s[j].minecraft_versions[0]]);
    assert(e.version_urls =~= seq![s[i].version_urls[0], s[j].version_urls[0]]);
    let m = merge_seq(s);
    let p = choose|p: int|
        0 <= p < m.len() && #[trigger] m[p] == e && forall|q: int|
            0 <= q < m.len() && q != p ==> !has_key(#[trigger] m[q], s[i]);
    assert(m.contains(e));
    lemma_sort_by_contains(m, |r: RuleModel| r.name, e);
}

} // verus!
