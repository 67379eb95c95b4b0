//! Save slots other than the game's own `Player` slot are kept as files in the
//! mod's saves directory.

use vstd::prelude::*;
use crate::installation::{PathComponent, copy_component};
use crate::ue::string::{FString, utf16_encode, text_units};

verus! {

/// The name components of a path, in order.
pub open spec fn name_components(cs: Seq<PathComponent>) -> Seq<PathComponent> {
    cs.filter(|c: PathComponent| c is Normal)
}

/// The text of a save slot's file: the slot's text followed by `.sav`;
/// `None` when the slot's name is not valid UTF-16.
pub fn slot_file_text(slot_name: &FString) -> (r: Option<String>)
    ensures
        r is None <==> !(exists|c: Seq<char>| utf16_encode(c) == text_units(slot_name@)),
        r matches Some(t) ==> exists|c: Seq<char>|
            utf16_encode(c) == text_units(slot_name@) && t@ == c + ".sav"@,
{
    match slot_name.to_string() {
        Some(s) => {
            let mut t = s;
            t.append(".sav");
            Some(t)
        },
        None => None,
    }
}

/// The file of a save slot: the saves directory followed by the name
/// components of the slot file's path; `None` while no saves directory is
/// set. Roots, prefixes, `.` and `..` are dropped, so the file lies inside the
/// saves directory.
pub fn get_path_for_slot(saves_dir: &Option<Vec<PathComponent>>, slot_path: &[PathComponent]) -> (r:
    Option<Vec<PathComponent>>)
    ensures
        r is None <==> saves_dir is None,
        saves_dir matches Some(d) ==> r matches Some(p) && p@ == d@ + name_components(slot_path@)
            && p@.subrange(0, d@.len() as int) == d@ && forall|i: int|
            d@.len() <= i < p@.len() ==> (#[trigger] p@[i]) is Normal,
{
    match saves_dir {
        Some(d) => Some(join_slot_path(d.as_slice(), slot_path)),
        None => None,
    }
}

/// The saves directory followed by the name components of the slot file's path.
fn join_slot_path(saves_dir: &[PathComponent], slot_path: &[PathComponent]) -> (r: Vec<
    PathComponent,
>)
    ensures
        r@ == saves_dir@ + name_components(slot_path@),
        r@.subrange(0, saves_dir@.len() as int) == saves_dir@,
        forall|i: int| saves_dir@.len() <= i < r@.len() ==> (#[trigger] r@[i]) is Normal,
{
    let mut out: Vec<PathComponent> = Vec::new();
    let mut i: usize = 0;
    while i < saves_dir.len()
        invariant
            i <= saves_dir@.len(),
            out@ == saves_dir@.subrange(0, i as int),
        decreases saves_dir@.len() - i,
    {
        out.push(copy_component(&saves_dir[i]));
        i = i + 1;
        assert(out@ =~= saves_dir@.subrange(0, i as int));
    }
    assert(saves_dir@.subrange(0, i as int) =~= saves_dir@);
    let mut j: usize = 0;
    while j < slot_path.len()
        invariant
            j <= slot_path@.len(),
            out@ == saves_dir@ + name_components(slot_path@.subrange(0, j as int)),
        decreases slot_path@.len() - j,
    {
        let c = &slot_path[j];
        let ghost prefix = slot_path@.subrange(0, j as int);
        assert(slot_path@.subrange(0, j + 1) =~= prefix.push(slot_path@[j as int]));
        proof {
            prefix.lemma_filter_push(slot_path@[j as int], |c: PathComponent| c is Normal);
        }
        match c {
            PathComponent::Normal(_) => {
                out.push(copy_component(c));
            },
            _ => {},
        }
        j = j + 1;
        assert(out@ =~= saves_dir@ + name_components(slot_path@.subrange(0, j as int)));
    }
    assert(slot_path@.subrange(0, j as int) =~= slot_path@);
    proof {
        let names = name_components(slot_path@);
        assert forall|k: int| 0 <= k < names.len() implies (#[trigger] names[k]) is Normal by {
            slot_path@.lemma_filter_pred(|c: PathComponent| c is Normal, k);
        }
        assert forall|i: int| saves_dir@.len() <= i < out@.len() implies (#[trigger] out@[i]) is Normal by {
            assert(out@[i] == names[i - saves_dir@.len()]);
        }
        assert(out@.subrange(0, saves_dir@.len() as int) =~= saves_dir@);
    }
    out
}

/// Whether a save slot is the game's own: its text is `Player`. `None` when the
/// slot's name is not valid UTF-16.
pub fn is_player_slot(slot_name: &FString) -> (r: Option<bool>)
    ensures
        r is None <==> !(exists|c: Seq<char>| utf16_encode(c) == text_units(slot_name@)),
        r matches Some(b) ==> exists|c: Seq<char>|
            utf16_encode(c) == text_units(slot_name@) && b == (c == "Player"@),
{
    match slot_name.to_string() {
        Some(s) => {
            let player = "Player".to_owned();
            Some(s == player)
        },
        None => None,
    }
}

} // verus!
