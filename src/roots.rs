use vstd::prelude::*;

use crate::path::{single_root, NavPath, PathModel};

verus! {

/// The ASCII code of the first drive letter, `A`.
pub const FIRST_DRIVE_LETTER: u8 = 65;

/// How many drive letters a system with several roots can have.
pub const DRIVE_LETTERS: usize = 26;

/// The root of drive `letter`, written without a separator (`C:`).
pub open spec fn drive_root_model(letter: u8) -> PathModel {
    PathModel { drive: Some(letter), absolute: false, parts: Seq::empty() }
}

/// The drive letter at `index`, counting from `A`.
pub open spec fn drive_letter(index: int) -> u8 {
    (FIRST_DRIVE_LETTER + index) as u8
}

/// The roots of the first `n` drive letters that `present` marks as present,
/// in ascending letter order.
pub open spec fn present_drive_roots(present: Seq<bool>, n: nat) -> Seq<PathModel>
    decreases n,
{
    if n == 0 {
        Seq::empty()
    } else {
        let i = n - 1;
        let earlier = present_drive_roots(present, i as nat);
        if i < present.len() && present[i] {
            earlier.push(drive_root_model(drive_letter(i)))
        } else {
            earlier
        }
    }
}

/// The navigable roots: the single root, or each present drive in letter order.
pub open spec fn roots_of(multi_root: bool, present: Seq<bool>) -> Seq<PathModel> {
    if multi_root {
        present_drive_roots(present, DRIVE_LETTERS as nat)
    } else {
        seq![single_root()]
    }
}

/// The models of a sequence of paths.
pub open spec fn path_models(v: Seq<NavPath>) -> Seq<PathModel> {
    v.map_values(|p: NavPath| p@)
}

/// Every candidate drive root, `A:` to `Z:`, for the caller to probe.
pub fn drive_candidates() -> (r: Vec<NavPath>)
    ensures
        r.len() == DRIVE_LETTERS,
        forall|i: int| 0 <= i < DRIVE_LETTERS ==> (#[trigger] r@[i])@ == drive_root_model(drive_letter(i)),
{
    let mut r: Vec<NavPath> = Vec::new();
    let mut i: usize = 0;
    while i < DRIVE_LETTERS
        invariant
            i <= DRIVE_LETTERS,
            r.len() == i,
            forall|k: int| 0 <= k < i ==> (#[trigger] r@[k])@ == drive_root_model(drive_letter(k)),
        decreases DRIVE_LETTERS - i,
    {
        let p = NavPath::drive_root(FIRST_DRIVE_LETTER + i as u8);
        assert(p@.parts =~= Seq::<Seq<char>>::empty());
        r.push(p);
        i = i + 1;
    }
    r
}

/// The navigable roots. On a system with one root that root alone; on a
/// system with drive letters each drive whose entry in `present` is true,
/// in ascending letter order (a missing entry counts as absent).
pub fn available_roots(multi_root: bool, present: &Vec<bool>) -> (r: Vec<NavPath>)
    ensures
        path_models(r@) == roots_of(multi_root, present@),
{
    let mut r: Vec<NavPath> = Vec::new();
    if !multi_root {
        r.push(NavPath::root());
        assert(path_models(r@) =~= seq![single_root()]);
        return r;
    }
    let mut i: usize = 0;
    assert(path_models(r@) =~= present_drive_roots(present@, 0));
    while i < DRIVE_LETTERS
        invariant
            i <= DRIVE_LETTERS,
            path_models(r@) == present_drive_roots(present@, i as nat),
        decreases DRIVE_LETTERS - i,
    {
        if i < present.len() && present[i] {
            let p = NavPath::drive_root(FIRST_DRIVE_LETTER + i as u8);
            assert(p@ == drive_root_model(drive_letter(i as int))) by {
                assert(p@.parts =~= Seq::<Seq<char>>::empty());
            }
            let ghost prev = path_models(r@);
            r.push(p);
            assert(path_models(r@) =~= prev.push(drive_root_model(drive_letter(i as int))));
        }
        i = i + 1;
    }
    r
}

} // verus!
