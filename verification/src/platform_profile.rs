//! Firmware thermal profiles via the standard ACPI platform_profile interface.
//! This is a stable kernel ABI and every write is validated against the
//! advertised choices, so an unknown value is never written.

use vstd::prelude::*;
use crate::error::{not_available_message, ErrorKind, HalError};
use crate::plan::{plan_fail, plan_write, Plan, PlanView, Write};
use crate::sysfs::{opt_view, SysFs};
use crate::text::{append_str, chars_of, join_strings, lower_all, lower_seq, seq_eq, string_views};

verus! {

pub const PROFILE: &'static str = "/sys/firmware/acpi/platform_profile";

pub const CHOICES: &'static str = "/sys/firmware/acpi/platform_profile_choices";

pub open spec fn spec_choices(fs: SysFs) -> Seq<Seq<char>> {
    fs.spec_words(CHOICES@)
}

pub fn supported(fs: &SysFs) -> (b: bool)
    ensures
        b == fs.spec_exists(PROFILE@),
{
    fs.path_exists(&String::from_str(PROFILE))
}

pub fn choices(fs: &SysFs) -> (v: Vec<String>)
    ensures
        string_views(v@) == spec_choices(*fs),
{
    fs.words(&String::from_str(CHOICES))
}

pub fn get(fs: &SysFs) -> (r: Option<String>)
    ensures
        opt_view(r) == fs.spec_read_trim(PROFILE@),
{
    fs.read_trim(&String::from_str(PROFILE))
}

pub open spec fn spec_set(fs: SysFs, name: Seq<char>) -> PlanView {
    if spec_choices(fs).contains(name) {
        plan_write(PROFILE@, name)
    } else {
        plan_fail(ErrorKind::InvalidInput, not_available_message("profile"@, name, spec_choices(fs)))
    }
}

/// Is `x` one of the strings of `v`?
pub fn contains_string(v: &[String], x: &str) -> (b: bool)
    ensures
        b == string_views(v@).contains(x@),
{
    let xs = String::from_str(x);
    let mut i: usize = 0;
    while i < v.len()
        invariant
            i <= v@.len(),
            xs@ == x@,
            forall|k: int| 0 <= k < i ==> (#[trigger] v@[k])@ != x@,
        decreases v@.len() - i,
    {
        if v[i] == xs {
            assert(string_views(v@)[i as int] == x@);
            return true;
        }
        i = i + 1;
    }
    proof {
        if string_views(v@).contains(x@) {
            let k = choose|k: int| 0 <= k < string_views(v@).len() && string_views(v@)[k] == x@;
            assert(v@[k]@ == x@);
        }
    }
    false
}

/// Select a firmware profile, refusing a name the firmware does not advertise.
pub fn set(fs: &SysFs, name: &str) -> (p: Plan)
    ensures
        p@ == spec_set(*fs, name@),
{
    let choices = choices(fs);
    if !contains_string(choices.as_slice(), name) {
        let mut msg = String::from_str("profile '");
        append_str(&mut msg, name);
        append_str(&mut msg, "' not available; options: ");
        let opts = join_strings(choices.as_slice(), ", ");
        append_str(&mut msg, opts.as_str());
        assert(msg@ =~= not_available_message("profile"@, name@, spec_choices(*fs))) by {
            reveal_strlit("profile '");
            reveal_strlit("profile");
            reveal_strlit(" '");
            assert("profile '"@ =~= "profile"@ + " '"@);
        }
        let p = Plan::fail(HalError { kind: ErrorKind::InvalidInput, message: msg });
        assert(p@.0 =~= seq![]);
        return p;
    }
    Plan::single(Write { path: String::from_str(PROFILE), value: String::from_str(name), required: true })
}

/// The first choice equal to `p` ignoring ASCII case.
pub open spec fn first_ci_match(cs: Seq<Seq<char>>, p: Seq<char>) -> Option<Seq<char>>
    decreases cs.len(),
{
    if cs.len() == 0 {
        None
    } else if lower_seq(cs[0]) == lower_seq(p) {
        Some(cs[0])
    } else {
        first_ci_match(cs.drop_first(), p)
    }
}

/// `pick`: for the first preference that some choice matches (ignoring ASCII
/// case), the first such choice.
pub open spec fn spec_pick(cs: Seq<Seq<char>>, prefs: Seq<Seq<char>>) -> Option<Seq<char>>
    decreases prefs.len(),
{
    if prefs.len() == 0 {
        None
    } else {
        match first_ci_match(cs, prefs[0]) {
            Some(c) => Some(c),
            None => spec_pick(cs, prefs.drop_first()),
        }
    }
}

pub open spec fn str_views(v: Seq<&str>) -> Seq<Seq<char>> {
    v.map_values(|s: &str| s@)
}

fn first_match(cs: &Vec<String>, p: &str) -> (r: Option<String>)
    ensures
        opt_view(r) == first_ci_match(string_views(cs@), p@),
{
    let pc = chars_of(p);
    let pl = lower_all(&pc);
    let mut i: usize = 0;
    let ghost all = string_views(cs@);
    assert(all.skip(0) =~= all);
    while i < cs.len()
        invariant
            i <= cs@.len(),
            all == string_views(cs@),
            pl@ == lower_seq(p@),
            first_ci_match(all, p@) == first_ci_match(all.skip(i as int), p@),
        decreases cs@.len() - i,
    {
        let cc = chars_of(cs[i].as_str());
        let cl = lower_all(&cc);
        assert(all.skip(i as int)[0] == cs@[i as int]@);
        if seq_eq(&cl, pl.as_slice()) {
            return Some(cs[i].clone());
        }
        assert(all.skip(i as int).drop_first() =~= all.skip(i + 1));
        i = i + 1;
    }
    None
}

/// Return the first preference that the firmware actually advertises.
pub fn pick(fs: &SysFs, prefs: &[&str]) -> (r: Option<String>)
    ensures
        opt_view(r) == spec_pick(spec_choices(*fs), str_views(prefs@)),
{
    let cs = choices(fs);
    let ghost pv = str_views(prefs@);
    let mut i: usize = 0;
    assert(pv.skip(0) =~= pv);
    while i < prefs.len()
        invariant
            i <= prefs@.len(),
            pv == str_views(prefs@),
            string_views(cs@) == spec_choices(*fs),
            spec_pick(spec_choices(*fs), pv) == spec_pick(spec_choices(*fs), pv.skip(i as int)),
        decreases prefs@.len() - i,
    {
        assert(pv.skip(i as int)[0] == prefs@[i as int]@);
        match first_match(&cs, prefs[i]) {
            Some(c) => {
                return Some(c);
            },
            None => {},
        }
        assert(pv.skip(i as int).drop_first() =~= pv.skip(i + 1));
        i = i + 1;
    }
    None
}

/// A picked name is always one the firmware advertises.
pub proof fn lemma_pick_is_choice(cs: Seq<Seq<char>>, prefs: Seq<Seq<char>>)
    ensures
        spec_pick(cs, prefs) matches Some(c) ==> cs.contains(c),
    decreases prefs.len(),
{
    if prefs.len() > 0 {
        lemma_first_match_is_choice(cs, prefs[0]);
        lemma_pick_is_choice(cs, prefs.drop_first());
    }
}

proof fn lemma_first_match_is_choice(cs: Seq<Seq<char>>, p: Seq<char>)
    ensures
        first_ci_match(cs, p) matches Some(c) ==> cs.contains(c) && lower_seq(c) == lower_seq(p),
    decreases cs.len(),
{
    if cs.len() > 0 {
        if lower_seq(cs[0]) == lower_seq(p) {
            assert(cs[0] == cs[0]);
            assert(cs.contains(cs[0]));
        } else {
            lemma_first_match_is_choice(cs.drop_first(), p);
            if let Some(c) = first_ci_match(cs.drop_first(), p) {
                let k = choose|k: int| 0 <= k < cs.drop_first().len() && cs.drop_first()[k] == c;
                assert(cs[k + 1] == c);
            }
        }
    }
}

/// A profile write only ever names an advertised choice.
pub proof fn lemma_set_only_advertised(fs: SysFs, name: Seq<char>)
    ensures
        spec_set(fs, name).0.len() > 0 ==> spec_choices(fs).contains(name),
{
}

} // verus!
