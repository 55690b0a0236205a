//! Summary statistics of a consolidated dataset: how many distinct rule names
//! each plugin, major version and category has.

use vstd::prelude::*;

use crate::consolidate::views;
use crate::schema::{MinecraftMajorVersion, Rule, RuleModel};
use crate::text::{contains_string, lemma_lex_lt_total, lex_lt};

verus! {

/// What the rules are grouped by.
#[derive(Clone, Copy, Debug, PartialEq, Eq)]
pub enum Dimension {
    Plugin,
    Version,
    Category,
}

/// The keys a rule is counted under in a dimension.
pub open spec fn keys_of(r: RuleModel, d: Dimension) -> Seq<Seq<char>> {
    match d {
        Dimension::Plugin => seq![r.mod_name],
        Dimension::Version => r.minecraft_versions.map_values(|v: MinecraftMajorVersion| v.spec_name()),
        Dimension::Category => r.categories,
    }
}

/// Every key that some rule is counted under.
pub open spec fn all_keys(rules: Seq<RuleModel>, d: Dimension) -> Set<Seq<char>> {
    Set::new(|k: Seq<char>| exists|i: int| 0 <= i < rules.len() && #[trigger] keys_of(rules[i], d).contains(k))
}

/// The distinct names of the rules counted under a key.
pub open spec fn names_under(rules: Seq<RuleModel>, d: Dimension, k: Seq<char>) -> Set<Seq<char>> {
    Set::new(|n: Seq<char>| exists|i: int| 0 <= i < rules.len() && #[trigger] keys_of(rules[i], d).contains(k) && rules[i].name == n)
}

/// One line of the statistics: a key and its number of distinct rule names.
#[derive(Clone, Debug, PartialEq, Eq)]
pub struct StatEntry {
    pub key: String,
    pub count: usize,
}

/// Some entry of the table has this key.
pub open spec fn has_entry(t: Seq<StatEntry>, k: Seq<char>) -> bool {
    exists|a: int| 0 <= a < t.len() && #[trigger] t[a].key@ == k
}

/// Presentation order: larger counts first, equal counts by key.
pub open spec fn precedes(a: StatEntry, b: StatEntry) -> bool {
    a.count > b.count || (a.count == b.count && lex_lt(a.key@, b.key@))
}

/// The statistics of one dimension, as they must come out.
pub open spec fn is_stat_table(t: Seq<StatEntry>, rules: Seq<RuleModel>, d: Dimension) -> bool {
    &&& forall|i: int| 0 <= i < t.len() ==> all_keys(rules, d).contains(#[trigger] t[i].key@)
    &&& forall|i: int| 0 <= i < t.len() ==> (#[trigger] t[i]).count == names_under(rules, d, t[i].key@).len()
    &&& forall|k: Seq<char>| #[trigger] all_keys(rules, d).contains(k) ==> has_entry(t, k)
    &&& forall|i: int, j: int| 0 <= i < j < t.len() ==> t[i].key@ != t[j].key@
    &&& forall|i: int| 0 <= i < t.len() - 1 ==> precedes(#[trigger] t[i], t[i + 1])
}

fn rule_keys(r: &Rule, d: Dimension) -> (ks: Vec<String>)
    ensures
        ks.deep_view() == keys_of(r@, d),
{
    match d {
        Dimension::Plugin => {
            let mut ks: Vec<String> = Vec::new();
            ks.push(r.mod_name.clone());
            assert(ks.deep_view() =~= keys_of(r@, d));
            ks
        },
        Dimension::Version => {
            let mut ks: Vec<String> = Vec::new();
            let mut i: usize = 0;
            while i < r.minecraft_versions.len()
                invariant
                    i <= r.minecraft_versions.len(),
                    ks.deep_view() =~= r@.minecraft_versions.subrange(0, i as int).map_values(
                        |v: MinecraftMajorVersion| v.spec_name(),
                    ),
                decreases r.minecraft_versions.len() - i,
            {
                let t = r.minecraft_versions[i].name().to_owned();
                assert(t@ == r@.minecraft_versions[i as int].spec_name());
                let ghost prevd = ks.deep_view();
                let ghost before = ks@;
                ks.push(t);
                proof {
                    assert(ks@ == before.push(t));
                    assert(ks.deep_view() =~= prevd.push(t@));
                    assert(ks.deep_view() =~= r@.minecraft_versions.subrange(0, i + 1).map_values(
                        |v: MinecraftMajorVersion| v.spec_name(),
                    ));
                }
                i = i + 1;
            }
            assert(r@.minecraft_versions.subrange(0, i as int) =~= r@.minecraft_versions);
            ks
        },
        Dimension::Category => crate::text::clone_strings(&r.categories),
    }
}

/// Adds `s` unless it is already there.
fn add_distinct(v: &mut Vec<String>, s: &String)
    requires
        old(v).deep_view().no_duplicates(),
    ensures
        final(v).deep_view().no_duplicates(),
        final(v).deep_view().to_set() == old(v).deep_view().to_set().insert(s@),
{
    if !contains_string(v, s) {
        let ghost prev = v.deep_view();
        let t = s.clone();
        let ghost before = v@;
        v.push(t);
        assert(v@ == before.push(t));
        assert(v.deep_view() =~= prev.push(s@));
        proof {
            prev.lemma_push_to_set_commute(s@);
        }
    } else {
        assert(old(v).deep_view().to_set().contains(s@));
        assert(v.deep_view().to_set() =~= old(v).deep_view().to_set().insert(s@));
    }
}

proof fn lemma_all_keys_step(rules: Seq<RuleModel>, d: Dimension, i: int)
    requires
        0 <= i < rules.len(),
    ensures
        all_keys(rules.subrange(0, i + 1), d) == all_keys(rules.subrange(0, i), d) + keys_of(rules[i], d).to_set(),
{
    let a = all_keys(rules.subrange(0, i + 1), d);
    let b = all_keys(rules.subrange(0, i), d) + keys_of(rules[i], d).to_set();
    assert forall|k: Seq<char>| a.contains(k) <==> b.contains(k) by {
        if a.contains(k) {
            let j = choose|j: int| 0 <= j < i + 1 && #[trigger] keys_of(rules.subrange(0, i + 1)[j], d).contains(k);
            if j < i {
                assert(rules.subrange(0, i)[j] == rules.subrange(0, i + 1)[j]);
            }
        }
        if b.contains(k) {
            if all_keys(rules.subrange(0, i), d).contains(k) {
                let j = choose|j: int| 0 <= j < i && #[trigger] keys_of(rules.subrange(0, i)[j], d).contains(k);
                assert(rules.subrange(0, i)[j] == rules.subrange(0, i + 1)[j]);
            } else {
                assert(rules.subrange(0, i + 1)[i] == rules[i]);
            }
        }
    }
    assert(a =~= b);
}

/// The distinct keys of a dimension, in order of first appearance.
fn collect_keys(rules: &Vec<Rule>, d: Dimension) -> (r: Vec<String>)
    ensures
        r.deep_view().no_duplicates(),
        r.deep_view().to_set() == all_keys(views(rules@), d),
{
    let ghost rs = views(rules@);
    let mut keys: Vec<String> = Vec::new();
    let mut i: usize = 0;
    assert(keys.deep_view().to_set() =~= all_keys(rs.subrange(0, 0), d));
    while i < rules.len()
        invariant
            i <= rules.len(),
            rs == views(rules@),
            keys.deep_view().no_duplicates(),
            keys.deep_view().to_set() == all_keys(rs.subrange(0, i as int), d),
        decreases rules.len() - i,
    {
        let ks = rule_keys(&rules[i], d);
        let ghost base = keys.deep_view().to_set();
        let mut j: usize = 0;
        assert(ks.deep_view().subrange(0, 0).to_set() =~= Set::<Seq<char>>::empty());
        assert(base =~= base + ks.deep_view().subrange(0, 0).to_set());
        while j < ks.len()
            invariant
                j <= ks.len(),
                keys.deep_view().no_duplicates(),
                keys.deep_view().to_set() == base + ks.deep_view().subrange(0, j as int).to_set(),
            decreases ks.len() - j,
        {
            add_distinct(&mut keys, &ks[j]);
            proof {
                assert(ks.deep_view().subrange(0, j + 1) =~= ks.deep_view().subrange(0, j as int).push(ks.deep_view()[j as int]));
                ks.deep_view().subrange(0, j as int).lemma_push_to_set_commute(ks.deep_view()[j as int]);
            }
            assert(keys.deep_view().to_set() =~= base + ks.deep_view().subrange(0, j + 1).to_set());
            j = j + 1;
        }
        proof {
            assert(ks.deep_view().subrange(0, ks.len() as int) =~= ks.deep_view());
            assert(rs[i as int] == rules@[i as int]@);
            lemma_all_keys_step(rs, d, i as int);
        }
        i = i + 1;
    }
    assert(rs.subrange(0, rules.len() as int) =~= rs);
    keys
}

proof fn lemma_names_under_step(rules: Seq<RuleModel>, d: Dimension, k: Seq<char>, i: int)
    requires
        0 <= i < rules.len(),
    ensures
        names_under(rules.subrange(0, i + 1), d, k) == if keys_of(rules[i], d).contains(k) {
            names_under(rules.subrange(0, i), d, k).insert(rules[i].name)
        } else {
            names_under(rules.subrange(0, i), d, k)
        },
{
    let a = names_under(rules.subrange(0, i + 1), d, k);
    let b = if keys_of(rules[i], d).contains(k) {
        names_under(rules.subrange(0, i), d, k).insert(rules[i].name)
    } else {
        names_under(rules.subrange(0, i), d, k)
    };
    assert forall|n: Seq<char>| a.contains(n) <==> b.contains(n) by {
        if a.contains(n) {
            let j = choose|j: int| 0 <= j < i + 1 && #[trigger] keys_of(rules.subrange(0, i + 1)[j], d).contains(k) && rules.subrange(0, i + 1)[j].name == n;
            if j < i {
                assert(rules.subrange(0, i)[j] == rules.subrange(0, i + 1)[j]);
            }
        }
        if b.contains(n) {
            if names_under(rules.subrange(0, i), d, k).contains(n) {
                let j = choose|j: int| 0 <= j < i && #[trigger] keys_of(rules.subrange(0, i)[j], d).contains(k) && rules.subrange(0, i)[j].name == n;
                assert(rules.subrange(0, i)[j] == rules.subrange(0, i + 1)[j]);
            } else {
                assert(rules.subrange(0, i + 1)[i] == rules[i]);
            }
        }
    }
    assert(a =~= b);
}

/// The number of distinct names of the rules counted under `key`.
fn count_names(rules: &Vec<Rule>, d: Dimension, key: &String) -> (r: usize)
    ensures
        names_under(views(rules@), d, key@).finite(),
        r == names_under(views(rules@), d, key@).len(),
{
    let ghost rs = views(rules@);
    let mut names: Vec<String> = Vec::new();
    let mut i: usize = 0;
    assert(names.deep_view().to_set() =~= names_under(rs.subrange(0, 0), d, key@));
    while i < rules.len()
        invariant
            i <= rules.len(),
            rs == views(rules@),
            names.deep_view().no_duplicates(),
            names.deep_view().to_set() == names_under(rs.subrange(0, i as int), d, key@),
        decreases rules.len() - i,
    {
        let ks = rule_keys(&rules[i], d);
        proof {
            assert(rs[i as int] == rules@[i as int]@);
            lemma_names_under_step(rs, d, key@, i as int);
        }
        if contains_string(&ks, key) {
            add_distinct(&mut names, &rules[i].name);
        }
        i = i + 1;
    }
    proof {
        assert(rs.subrange(0, rules.len() as int) =~= rs);
        names.deep_view().unique_seq_to_set();
    }
    names.len()
}

proof fn lemma_precedes_total(a: StatEntry, b: StatEntry)
    requires
        a.key@ != b.key@,
    ensures
        precedes(a, b) || precedes(b, a),
{
    lemma_lex_lt_total(a.key@, b.key@);
}

#[verifier::rlimit(100)]
#[verifier::spinoff_prover]
/// The statistics of one dimension: each key with its number of distinct
/// rule names, larger counts first and equal counts by key.
pub fn count_by(rules: &Vec<Rule>, d: Dimension) -> (r: Vec<StatEntry>)
    ensures
        is_stat_table(r@, views(rules@), d),
{
    let ghost rs = views(rules@);
    let keys = collect_keys(rules, d);
    let mut sorted: Vec<StatEntry> = Vec::new();
    let mut i: usize = 0;
    while i < keys.len()
        invariant
            i <= keys.len(),
            rs == views(rules@),
            keys.deep_view().no_duplicates(),
            keys.deep_view().to_set() == all_keys(rs, d),
            sorted@.len() == i,
            forall|a: int| 0 <= a < sorted@.len() ==> keys.deep_view().subrange(0, i as int).contains(#[trigger] sorted@[a].key@),
            forall|b: int| 0 <= b < i ==> has_entry(sorted@, #[trigger] keys.deep_view()[b]),
            forall|a: int| 0 <= a < sorted@.len() ==> (#[trigger] sorted@[a]).count == names_under(rs, d, sorted@[a].key@).len(),
            forall|a: int, b: int| 0 <= a < b < sorted@.len() ==> sorted@[a].key@ != sorted@[b].key@,
            forall|a: int| 0 <= a < sorted@.len() - 1 ==> precedes(#[trigger] sorted@[a], sorted@[a + 1]),
        decreases keys.len() - i,
    {
        let count = count_names(rules, d, &keys[i]);
        let e = StatEntry { key: keys[i].clone(), count };
        assert(e.key@ == keys.deep_view()[i as int]);
        proof {
            assert forall|a: int| 0 <= a < sorted@.len() implies sorted@[a].key@ != e.key@ by {
                let b = choose|b: int| 0 <= b < i && keys.deep_view().subrange(0, i as int)[b] == sorted@[a].key@;
                assert(keys.deep_view()[b] == sorted@[a].key@);
            }
        }
        let mut j: usize = 0;
        while j < sorted.len() && !(e.count > sorted[j].count || (e.count == sorted[j].count
            && crate::text::chars_lt(&crate::text::chars_of(e.key.as_str()), &crate::text::chars_of(sorted[j].key.as_str()))))
            invariant
                j <= sorted@.len(),
                forall|a: int| 0 <= a < j ==> !precedes(e, #[trigger] sorted@[a]),
            decreases sorted@.len() - j,
        {
            j = j + 1;
        }
        let ghost prev = sorted@;
        proof {
            if j > 0 {
                lemma_precedes_total(e, prev[j - 1]);
            }
        }
        sorted.insert(j, e);
        proof {
            assert(sorted@ == prev.insert(j as int, e));
            assert forall|a: int| 0 <= a < sorted@.len() - 1 implies precedes(#[trigger] sorted@[a], sorted@[a + 1]) by {
                if a + 1 < j {
                    assert(sorted@[a] == prev[a] && sorted@[a + 1] == prev[a + 1]);
                } else if a + 1 == j {
                    assert(sorted@[a] == prev[a] && sorted@[a + 1] == e);
                } else if a == j {
                    assert(sorted@[a + 1] == prev[a]);
                } else {
                    assert(sorted@[a] == prev[a - 1] && sorted@[a + 1] == prev[a]);
                }
            }
            assert forall|a: int| 0 <= a < sorted@.len() implies keys.deep_view().subrange(0, i + 1).contains(#[trigger] sorted@[a].key@) by {
                if a == j {
                    assert(keys.deep_view().subrange(0, i + 1)[i as int] == e.key@);
                } else {
                    let p = if a < j { a } else { a - 1 };
                    assert(sorted@[a] == prev[p]);
                    let b = choose|b: int| 0 <= b < i && keys.deep_view().subrange(0, i as int)[b] == prev[p].key@;
                    assert(keys.deep_view().subrange(0, i + 1)[b] == prev[p].key@);
                }
            }
            assert forall|b: int| 0 <= b < i + 1 implies has_entry(sorted@, #[trigger] keys.deep_view()[b]) by {
                if b == i {
                    assert(sorted@[j as int].key@ == keys.deep_view()[b]);
                } else {
                    assert(has_entry(prev, keys.deep_view()[b]));
                    let a = choose|a: int| 0 <= a < prev.len() && #[trigger] prev[a].key@ == keys.deep_view()[b];
                    if a < j {
                        assert(sorted@[a] == prev[a]);
                    } else {
                        assert(sorted@[a + 1] == prev[a]);
                    }
                }
            }
            assert forall|a: int| 0 <= a < sorted@.len() implies (#[trigger] sorted@[a]).count == names_under(rs, d, sorted@[a].key@).len() by {
                if a < j {
                    assert(sorted@[a] == prev[a]);
                } else if a > j {
                    assert(sorted@[a] == prev[a - 1]);
                }
            }
            assert forall|a: int, b: int| 0 <= a < b < sorted@.len() implies sorted@[a].key@ != sorted@[b].key@ by {
                let pa = if a < j { a } else { a - 1 };
                let pb = if b < j { b } else { b - 1 };
                if a != j && b != j {
                    assert(sorted@[a] == prev[pa] && sorted@[b] == prev[pb]);
                } else if a == j {
                    assert(sorted@[b] == prev[pb]);
                } else {
                    assert(sorted@[a] == prev[pa]);
                }
            }
        }
        i = i + 1;
    }
    proof {
        assert(keys.deep_view().subrange(0, keys.len() as int) =~= keys.deep_view());
        assert forall|k: Seq<char>| #[trigger] all_keys(rs, d).contains(k) implies has_entry(sorted@, k) by {
            assert(keys.deep_view().to_set().contains(k));
            let b = choose|b: int| 0 <= b < keys.deep_view().len() && keys.deep_view()[b] == k;
            assert(has_entry(sorted@, keys.deep_view()[b]));
        }
        assert forall|a: int| 0 <= a < sorted@.len() implies all_keys(rs, d).contains(#[trigger] sorted@[a].key@) by {
            assert(keys.deep_view().to_set().contains(sorted@[a].key@));
        }
    }
    sorted
}

/// The statistics of a consolidated dataset.
#[derive(Debug)]
pub struct Stats {
    pub by_plugin: Vec<StatEntry>,
    pub by_version: Vec<StatEntry>,
    pub by_category: Vec<StatEntry>,
}

/// Counts distinct rule names per plugin, per major version and per
/// category.
pub fn rule_stats(rules: &Vec<Rule>) -> (r: Stats)
    ensures
        is_stat_table(r.by_plugin@, views(rules@), Dimension::Plugin),
        is_stat_table(r.by_version@, views(rules@), Dimension::Version),
        is_stat_table(r.by_category@, views(rules@), Dimension::Category),
{
    Stats {
        by_plugin: count_by(rules, Dimension::Plugin),
        by_version: count_by(rules, Dimension::Version),
        by_category: count_by(rules, Dimension::Category),
    }
}

/// The sum of the counts of a table.
pub open spec fn sum_counts(t: Seq<StatEntry>) -> int
    decreases t.len(),
{
    if t.len() == 0 {
        0
    } else {
        sum_counts(t.drop_last()) + t.last().count
    }
}

/// The number of rules reported in total: the per-plugin counts summed.
pub fn total_count(stats: &Stats) -> (r: u128)
    ensures
        r == sum_counts(stats.by_plugin@),
{
    let t = &stats.by_plugin;
    let mut total: u128 = 0;
    let mut i: usize = 0;
    while i < t.len()
        invariant
            i <= t.len(),
            total == sum_counts(t@.subrange(0, i as int)),
            total <= i * 0xffff_ffff_ffff_ffff,
        decreases t.len() - i,
    {
        proof {
            assert(t@.subrange(0, i + 1).drop_last() =~= t@.subrange(0, i as int));
            assert((i as int) * 0xffff_ffff_ffff_ffff <= 0xffff_ffff_ffff_ffff * 0xffff_ffff_ffff_ffff) by (nonlinear_arith)
                requires i <= 0xffff_ffff_ffff_ffff;
        }
        total = total + t[i].count as u128;
        i = i + 1;
    }
    assert(t@.subrange(0, t.len() as int) =~= t@);
    total
}

} // verus!
