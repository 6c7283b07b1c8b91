//! Characters: which motion group plays a semantic action, which parameter
//! moves the mouth, what a character is called, and which one is active.
//!
//! Listing the `characters/` directory (in sorted order) and reading each
//! `character.json` is done by the caller, which hands over what each load
//! gave; a package that fails to load is reported and skipped, never fatal.
use vstd::prelude::*;
use crate::behavior::PetAction;
use crate::text::{is_blank, is_blank_str, push_str, str_eq};

verus! {

/// A character's model files: the asset directory and the model's name
/// (`<dir>/<name>.model3.json`).
#[derive(Debug, Clone)]
pub struct CharacterAssets {
    pub dir: String,
    pub name: String,
}

/// The motion group that plays a semantic action: the four known actions
/// play the group of the same name, anything else the idle group.
pub open spec fn spec_action_group(action: Seq<char>) -> Seq<char> {
    if action == "Idle"@ {
        "Idle"@
    } else if action == "Blink"@ {
        "Blink"@
    } else if action == "Nod"@ {
        "Nod"@
    } else if action == "Shake"@ {
        "Shake"@
    } else {
        "Idle"@
    }
}

impl CharacterAssets {
    /// Semantic action name to motion group name.
    pub fn action_group(&self, action_name: &str) -> (r: &'static str)
        ensures
            r@ == spec_action_group(action_name@),
    {
        if str_eq(action_name, "Idle") {
            "Idle"
        } else if str_eq(action_name, "Blink") {
            "Blink"
        } else if str_eq(action_name, "Nod") {
            "Nod"
        } else if str_eq(action_name, "Shake") {
            "Shake"
        } else {
            "Idle"
        }
    }
}

/// Semantic parameters mapped to model parameter ids.
#[derive(Debug, Clone)]
pub struct ParametersMeta {
    /// The parameter that opens the mouth.
    pub mouth_open: String,
}

/// The mouth parameter when a character names none.
pub fn default_mouth_open() -> (r: String)
    ensures
        r@ == "ParamMouthOpenY"@,
{
    String::from_str("ParamMouthOpenY")
}

impl Default for ParametersMeta {
    fn default() -> (r: ParametersMeta)
        ensures
            r.mouth_open@ == "ParamMouthOpenY"@,
    {
        ParametersMeta { mouth_open: default_mouth_open() }
    }
}

/// The name that the interface shows: the display name, or the id when the
/// display name is empty.
pub fn display_name<'a>(id: &'a str, shown: &'a str) -> (r: &'a str)
    ensures
        r@ == (if shown@.len() == 0 {
            id@
        } else {
            shown@
        }),
{
    if shown.is_empty() {
        id
    } else {
        shown
    }
}

/// The motion group that a semantic action plays for a character whose
/// `motions` table maps actions to groups: the first entry for the action,
/// else the group of the same name.
pub open spec fn spec_motion_group(motions: Seq<(Seq<char>, Seq<char>)>, action: Seq<char>) -> Seq<
    char,
>
    decreases motions.len(),
{
    if motions.len() == 0 {
        action
    } else if motions[0].0 == action {
        motions[0].1
    } else {
        spec_motion_group(motions.drop_first(), action)
    }
}

/// Why a character package is refused, from its id and its model path (with
/// what the path says of itself: absolute, or holding a `..` component).
pub open spec fn spec_check_package(
    id: Seq<char>,
    model3: Seq<char>,
    absolute: bool,
    has_parent: bool,
) -> Option<Seq<char>> {
    if is_blank(id) {
        Some("character.json: id is empty"@)
    } else if absolute {
        Some("character.json: model3 must be relative, got "@ + model3)
    } else if has_parent {
        Some("character.json: model3 must not contain '..' (path escape): "@ + model3)
    } else {
        None
    }
}

/// Checks a package's metadata: a non-blank id, and a model path that stays
/// inside the character's directory.
pub fn check_package(id: &str, model3: &str, absolute: bool, has_parent: bool) -> (r: Result<
    (),
    String,
>)
    ensures
        match spec_check_package(id@, model3@, absolute, has_parent) {
            Some(e) => r is Err && r->Err_0@ == e,
            None => r is Ok,
        },
{
    if is_blank_str(id) {
        return Err(String::from_str("character.json: id is empty"));
    }
    if absolute {
        let mut s = String::from_str("character.json: model3 must be relative, got ");
        push_str(&mut s, model3);
        return Err(s);
    }
    if has_parent {
        let mut s = String::from_str(
            "character.json: model3 must not contain '..' (path escape): ",
        );
        push_str(&mut s, model3);
        return Err(s);
    }
    Ok(())
}

/// The view of a table of string pairs.
pub open spec fn pairs_view(p: Seq<(String, String)>) -> Seq<(Seq<char>, Seq<char>)> {
    p.map_values(|e: (String, String)| (e.0@, e.1@))
}

/// A character's motion group for a semantic action.
pub fn motion_group(motions: &[(String, String)], action: &str) -> (r: String)
    ensures
        r@ == spec_motion_group(pairs_view(motions@), action@),
{
    let ghost all = pairs_view(motions@);
    assert(all.subrange(0, all.len() as int) =~= all);
    let mut i: usize = 0;
    while i < motions.len()
        invariant
            i <= motions@.len(),
            all == pairs_view(motions@),
            spec_motion_group(all, action@) == spec_motion_group(
                all.subrange(i as int, all.len() as int),
                action@,
            ),
        decreases motions@.len() - i,
    {
        let ghost rest = all.subrange(i as int, all.len() as int);
        assert(rest[0] == all[i as int]);
        assert(rest.drop_first() =~= all.subrange(i + 1, all.len() as int));
        if str_eq(motions[i].0.as_str(), action) {
            return motions[i].1.clone();
        }
        i = i + 1;
    }
    assert(all.subrange(i as int, all.len() as int).len() == 0);
    String::from_str(action)
}

/// Which character is active: the one with the preferred id, else the first,
/// else none.
pub fn resolve_active(ids: &[String], preferred: &str) -> (r: Option<usize>)
    ensures
        match r {
            Some(i) => {
                &&& i < ids@.len()
                &&& (ids@[i as int]@ == preferred@ && forall|k: int|
                    0 <= k < i ==> ids@[k]@ != preferred@) || (i == 0 && forall|k: int|
                    0 <= k < ids@.len() ==> ids@[k]@ != preferred@)
            },
            None => ids@.len() == 0,
        },
{
    let mut i: usize = 0;
    while i < ids.len()
        invariant
            i <= ids@.len(),
            forall|k: int| 0 <= k < i ==> ids@[k]@ != preferred@,
        decreases ids@.len() - i,
    {
        if str_eq(ids[i].as_str(), preferred) {
            return Some(i);
        }
        i = i + 1;
    }
    if ids.len() > 0 {
        Some(0)
    } else {
        None
    }
}

/// The packages that loaded, in directory order.
pub open spec fn loaded<T>(s: Seq<Result<T, String>>) -> Seq<T>
    decreases s.len(),
{
    if s.len() == 0 {
        Seq::empty()
    } else {
        match s.last() {
            Ok(p) => loaded(s.drop_last()).push(p),
            Err(_) => loaded(s.drop_last()),
        }
    }
}

/// The errors of the packages that did not load, in directory order.
pub open spec fn load_errors<T>(s: Seq<Result<T, String>>) -> Seq<Seq<char>>
    decreases s.len(),
{
    if s.len() == 0 {
        Seq::empty()
    } else {
        match s.last() {
            Ok(_) => load_errors(s.drop_last()),
            Err(e) => load_errors(s.drop_last()).push(e@),
        }
    }
}

/// Strings by their views.
pub open spec fn texts_view(v: Seq<String>) -> Seq<Seq<char>> {
    v.map_values(|s: String| s@)
}

/// A directory scan from the load outcome of each package directory, in
/// directory order: the packages that loaded, in that order, and the errors
/// to report for the others, which are skipped. A bad package never stops
/// the scan.
pub fn scan_outcomes<T>(outcomes: Vec<Result<T, String>>) -> (r: (Vec<T>, Vec<String>))
    ensures
        r.0@ == loaded(outcomes@),
        texts_view(r.1@) == load_errors(outcomes@),
{
    let ghost all = outcomes@;
    let mut rest = outcomes;
    let mut packages: Vec<T> = Vec::new();
    let mut errors: Vec<String> = Vec::new();
    let mut k: usize = 0;
    let total: usize = rest.len();
    assert(all.skip(0) =~= all);
    while rest.len() > 0
        invariant
            k <= all.len(),
            rest@ == all.skip(k as int),
            rest@.len() == all.len() - k,
            all.len() == total,
            packages@ == loaded(all.take(k as int)),
            texts_view(errors@) == load_errors(all.take(k as int)),
        decreases rest@.len(),
    {
        let o = rest.remove(0);
        proof {
            assert(o == all[k as int]);
            assert(rest@ =~= all.skip(k + 1));
            assert(all.take(k + 1).drop_last() =~= all.take(k as int));
            assert(all.take(k + 1).last() == all[k as int]);
        }
        match o {
            Ok(p) => {
                packages.push(p);
            },
            Err(e) => {
                let ghost e0 = errors@;
                errors.push(e);
                proof {
                    assert(texts_view(errors@) =~= texts_view(e0).push(e@));
                }
            },
        }
        k = k + 1;
    }
    assert(all.take(k as int) =~= all);
    (packages, errors)
}

/// Each semantic action the character plays (idle, blink, nod, shake) plays
/// the motion group named like the action; the control actions (reset
/// position, quit) fall back to the idle group.
pub proof fn lemma_action_group_by_name(a: PetAction)
    ensures
        (a == PetAction::Idle || a == PetAction::Blink || a == PetAction::Nod || a
            == PetAction::Shake) ==> spec_action_group(a.spec_name()) == a.spec_name(),
        (a == PetAction::ResetPosition || a == PetAction::Quit) ==> spec_action_group(
            a.spec_name(),
        ) == "Idle"@,
{
    reveal_strlit("Idle");
    reveal_strlit("Blink");
    reveal_strlit("Nod");
    reveal_strlit("Shake");
    reveal_strlit("ResetPosition");
    reveal_strlit("Quit");
    assert("Idle"@.len() == 4);
    assert("Blink"@.len() == 5);
    assert("Nod"@.len() == 3);
    assert("Shake"@.len() == 5);
    assert("ResetPosition"@.len() == 13);
    assert("Quit"@.len() == 4);
    assert("Shake"@[0] != "Blink"@[0]);
    assert("Quit"@[0] != "Idle"@[0]);
}

} // verus!
