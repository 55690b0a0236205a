//! The command surface: which work a run does for its single optional
//! argument.

use vstd::prelude::*;

use crate::config::opt_view;

verus! {

/// What an extraction run does.
#[derive(Debug)]
pub struct RunPlan {
    /// Regenerate the project skeletons before extraction.
    pub generate_templates: bool,
    /// Extract only the plugin with this slug.
    pub only_mod: Option<String>,
    /// Extract nothing: every pair must be cache-fresh.
    pub combine_only: bool,
    /// Consolidate the results at the end.
    pub consolidate: bool,
}

/// The command of one invocation.
#[derive(Debug)]
pub enum Command {
    /// Report newer plugin versions on the registries.
    Update,
    /// Emit the list of plugin slugs for fan-out scheduling.
    GetMatrix,
    /// Extract and consolidate.
    Run(RunPlan),
}

pub open spec fn mod_prefix() -> Seq<char> {
    "mod:"@
}

/// `s` names one plugin to extract.
pub open spec fn has_mod_prefix(s: Seq<char>) -> bool {
    s.len() >= mod_prefix().len() && s.subrange(0, mod_prefix().len() as int) == mod_prefix()
}

/// `r` is a run with this plan.
pub open spec fn plan_is(
    r: Command,
    generate_templates: bool,
    only_mod: Option<Seq<char>>,
    combine_only: bool,
    consolidate: bool,
) -> bool {
    match r {
        Command::Run(p) => p.generate_templates == generate_templates && opt_view(p.only_mod)
            == only_mod && p.combine_only == combine_only && p.consolidate == consolidate,
        _ => false,
    }
}

/// Whether two texts are equal.
pub fn text_eq(a: &str, b: &str) -> (r: bool)
    ensures
        r == (a@ == b@),
{
    let n = a.unicode_len();
    if n != b.unicode_len() {
        return false;
    }
    let mut i: usize = 0;
    while i < n
        invariant
            n == a@.len(),
            n == b@.len(),
            i <= n,
            forall|k: int| 0 <= k < i ==> a@[k] == b@[k],
        decreases n - i,
    {
        if a.get_char(i) != b.get_char(i) {
            return false;
        }
        i = i + 1;
    }
    assert(a@ =~= b@);
    true
}

/// The rest of `s` after `prefix`, if `s` starts with it.
pub fn strip_prefix(s: &str, prefix: &str) -> (r: Option<String>)
    ensures
        r is Some <==> prefix@.len() <= s@.len() && s@.subrange(0, prefix@.len() as int) == prefix@,
        r matches Some(rest) ==> rest@ == s@.subrange(prefix@.len() as int, s@.len() as int),
{
    let n = s.unicode_len();
    let m = prefix.unicode_len();
    if m > n {
        return None;
    }
    let head = s.substring_char(0, m);
    if !text_eq(head, prefix) {
        return None;
    }
    Some(s.substring_char(m, n).to_owned())
}

/// Parses the optional argument: `update`, `get-matrix`, `combine`,
/// `mod:<slug>`, or none. Any other argument extracts every plugin without
/// consolidating.
pub fn parse_command(arg: Option<&str>) -> (r: Command)
    ensures
        arg is None ==> plan_is(r, true, None, false, true),
        arg matches Some(a) ==> (a@ == "update"@ ==> r is Update),
        arg matches Some(a) ==> (a@ == "get-matrix"@ ==> r is GetMatrix),
        arg matches Some(a) ==> (a@ == "combine"@ ==> plan_is(r, false, None, true, true)),
        arg matches Some(a) ==> (has_mod_prefix(a@) ==> plan_is(
            r,
            true,
            Some(a@.subrange(4, a@.len() as int)),
            false,
            true,
        )),
        arg matches Some(a) ==> (a@ != "update"@ && a@ != "get-matrix"@ && a@ != "combine"@
            && !has_mod_prefix(a@) ==> plan_is(r, true, None, false, false)),
{
    proof {
        reveal_strlit("mod:");
        reveal_strlit("update");
        reveal_strlit("get-matrix");
        reveal_strlit("combine");
        assert("update"@.len() == 6 && "get-matrix"@.len() == 10 && "combine"@.len() == 7);
        assert("update"@[0] == 'u' && "get-matrix"@[0] == 'g' && "combine"@[0] == 'c');
        assert("mod:"@[0] == 'm');
        assert(mod_prefix().len() == 4);
    }
    match arg {
        None => Command::Run(
            RunPlan { generate_templates: true, only_mod: None, combine_only: false, consolidate: true },
        ),
        Some(a) => {
            if text_eq(a, "update") {
                Command::Update
            } else if text_eq(a, "get-matrix") {
                Command::GetMatrix
            } else if text_eq(a, "combine") {
                Command::Run(
                    RunPlan {
                        generate_templates: false,
                        only_mod: None,
                        combine_only: true,
                        consolidate: true,
                    },
                )
            } else {
                match strip_prefix(a, "mod:") {
                    Some(slug) => Command::Run(
                        RunPlan {
                            generate_templates: true,
                            only_mod: Some(slug),
                            combine_only: false,
                            consolidate: true,
                        },
                    ),
                    None => Command::Run(
                        RunPlan {
                            generate_templates: true,
                            only_mod: None,
                            combine_only: false,
                            consolidate: false,
                        },
                    ),
                }
            }
        },
    }
}

impl RunPlan {
    /// Whether the plugin with this slug is extracted by the run.
    pub fn selects(&self, slug: &str) -> (r: bool)
        ensures
            r == (self.only_mod matches Some(s) ==> s@ == slug@),
    {
        match &self.only_mod {
            Some(s) => text_eq(s.as_str(), slug),
            None => true,
        }
    }
}

} // verus!
