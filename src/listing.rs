use vstd::prelude::*;
use vstd::seq_lib::{
    lemma_multiset_commutative, to_multiset_build, to_multiset_insert, to_multiset_len,
    to_multiset_remove,
};
use vstd::multiset::Multiset;
use vstd::utf8::{encode_utf8, encode_utf8_decode_utf8};

use crate::path::{has_parent, NavPath, PathModel};

verus! {

/// A child of a directory as read from the filesystem: its name and whether it
/// was a directory when it was read.
#[derive(Debug, PartialEq, Eq)]
pub struct DirChild {
    pub name: String,
    pub is_dir: bool,
}

/// The mathematical value of a [`DirChild`].
pub struct ChildModel {
    pub name: Seq<char>,
    pub is_dir: bool,
}

impl View for DirChild {
    type V = ChildModel;

    open spec fn view(&self) -> ChildModel {
        ChildModel { name: self.name@, is_dir: self.is_dir }
    }
}

/// The models of a sequence of children.
pub open spec fn child_models(v: Seq<DirChild>) -> Seq<ChildModel> {
    v.map_values(|c: DirChild| c@)
}

/// The models of a sequence of targets.
pub open spec fn target_models(v: Seq<Target>) -> Seq<TargetModel> {
    v.map_values(|t: Target| t@)
}

/// Byte sequences in lexicographic order: `a` comes no later than `b`.
pub open spec fn bytes_le(a: Seq<u8>, b: Seq<u8>) -> bool
    decreases a.len(),
{
    if a.len() == 0 {
        true
    } else if b.len() == 0 {
        false
    } else if a[0] != b[0] {
        a[0] < b[0]
    } else {
        bytes_le(a.drop_first(), b.drop_first())
    }
}

/// Names compare by their UTF-8 bytes.
pub open spec fn name_le(a: Seq<char>, b: Seq<char>) -> bool {
    bytes_le(encode_utf8(a), encode_utf8(b))
}

/// Display order of children: directories before files, then by name.
pub open spec fn child_le(a: ChildModel, b: ChildModel) -> bool {
    (a.is_dir && !b.is_dir) || (a.is_dir == b.is_dir && name_le(a.name, b.name))
}

/// Every pair of children stands in display order.
pub open spec fn is_display_sorted(s: Seq<ChildModel>) -> bool {
    forall|i: int, j: int| 0 <= i < j < s.len() ==> child_le(#[trigger] s[i], #[trigger] s[j])
}

/// `x` inserted into `s` before the first element it does not follow.
pub open spec fn insert_child(s: Seq<ChildModel>, x: ChildModel) -> Seq<ChildModel>
    decreases s.len(),
{
    if s.len() == 0 {
        seq![x]
    } else if child_le(x, s[0]) {
        seq![x] + s
    } else {
        seq![s[0]] + insert_child(s.drop_first(), x)
    }
}

/// The children in display order.
pub open spec fn sort_children(s: Seq<ChildModel>) -> Seq<ChildModel>
    decreases s.len(),
{
    if s.len() == 0 {
        Seq::empty()
    } else {
        insert_child(sort_children(s.drop_first()), s[0])
    }
}

/// An element of a listing, and a target of navigation.
#[derive(Debug, PartialEq, Eq)]
pub enum Target {
    /// The synthetic entry that leads to the parent directory.
    ParentMarker,
    /// A path: relative to the current directory, or one that replaces it.
    Path(NavPath),
}

/// The mathematical value of a [`Target`].
pub enum TargetModel {
    ParentMarker,
    Path(PathModel),
}

impl View for Target {
    type V = TargetModel;

    open spec fn view(&self) -> TargetModel {
        match self {
            Target::ParentMarker => TargetModel::ParentMarker,
            Target::Path(p) => TargetModel::Path(p@),
        }
    }
}

/// The listing entry of a child: a relative path of its name.
pub open spec fn child_entry(c: ChildModel) -> TargetModel {
    TargetModel::Path(PathModel { drive: None, absolute: false, parts: seq![c.name] })
}

/// The listing of `dir` with the given children: the parent marker when `dir`
/// has a parent, then the children in display order.
pub open spec fn listing(dir: PathModel, children: Seq<ChildModel>) -> Seq<TargetModel> {
    let head = if has_parent(dir) {
        seq![TargetModel::ParentMarker]
    } else {
        Seq::empty()
    };
    head + sort_children(children).map_values(|c: ChildModel| child_entry(c))
}

pub proof fn lemma_bytes_le_total(a: Seq<u8>, b: Seq<u8>)
    ensures
        bytes_le(a, b) || bytes_le(b, a),
    decreases a.len(),
{
    if a.len() > 0 && b.len() > 0 && a[0] == b[0] {
        lemma_bytes_le_total(a.drop_first(), b.drop_first());
    }
}

pub proof fn lemma_bytes_le_transitive(a: Seq<u8>, b: Seq<u8>, c: Seq<u8>)
    requires
        bytes_le(a, b),
        bytes_le(b, c),
    ensures
        bytes_le(a, c),
    decreases a.len(),
{
    if a.len() > 0 && b.len() > 0 && c.len() > 0 && a[0] == b[0] && b[0] == c[0] {
        lemma_bytes_le_transitive(a.drop_first(), b.drop_first(), c.drop_first());
    }
}

pub proof fn lemma_child_le_total(a: ChildModel, b: ChildModel)
    ensures
        child_le(a, b) || child_le(b, a),
{
    lemma_bytes_le_total(encode_utf8(a.name), encode_utf8(b.name));
}

pub proof fn lemma_child_le_transitive(a: ChildModel, b: ChildModel, c: ChildModel)
    requires
        child_le(a, b),
        child_le(b, c),
    ensures
        child_le(a, c),
{
    if a.is_dir == b.is_dir && b.is_dir == c.is_dir {
        lemma_bytes_le_transitive(encode_utf8(a.name), encode_utf8(b.name), encode_utf8(c.name));
    }
}

/// Inserting places `x` at the first position whose element it does not follow.
proof fn lemma_insert_child_at(s: Seq<ChildModel>, x: ChildModel, j: int)
    requires
        0 <= j <= s.len(),
        forall|k: int| 0 <= k < j ==> !child_le(x, #[trigger] s[k]),
        j < s.len() ==> child_le(x, s[j]),
    ensures
        insert_child(s, x) == s.insert(j, x),
    decreases s.len(),
{
    if s.len() == 0 {
        assert(s.insert(j, x) =~= seq![x]);
    } else if j == 0 {
        assert(s.insert(j, x) =~= seq![x] + s);
    } else {
        let t = s.drop_first();
        assert forall|k: int| 0 <= k < j - 1 implies !child_le(x, #[trigger] t[k]) by {
            assert(t[k] == s[k + 1]);
        }
        lemma_insert_child_at(t, x, j - 1);
        assert(s.insert(j, x) =~= seq![s[0]] + t.insert(j - 1, x));
    }
}

/// The first position in `s` whose element `x` does not follow.
spec fn insert_pos(s: Seq<ChildModel>, x: ChildModel) -> int
    decreases s.len(),
{
    if s.len() == 0 || child_le(x, s[0]) {
        0
    } else {
        1 + insert_pos(s.drop_first(), x)
    }
}

proof fn lemma_insert_pos(s: Seq<ChildModel>, x: ChildModel)
    ensures
        0 <= insert_pos(s, x) <= s.len(),
        forall|k: int| 0 <= k < insert_pos(s, x) ==> !child_le(x, #[trigger] s[k]),
        insert_pos(s, x) < s.len() ==> child_le(x, s[insert_pos(s, x)]),
    decreases s.len(),
{
    if s.len() > 0 && !child_le(x, s[0]) {
        let t = s.drop_first();
        lemma_insert_pos(t, x);
        assert forall|k: int| 0 <= k < insert_pos(s, x) implies !child_le(x, #[trigger] s[k]) by {
            if k > 0 {
                assert(s[k] == t[k - 1]);
            }
        }
    }
}

proof fn lemma_insert_child_sorted(s: Seq<ChildModel>, x: ChildModel)
    requires
        is_display_sorted(s),
    ensures
        is_display_sorted(insert_child(s, x)),
        insert_child(s, x).to_multiset() == s.to_multiset().insert(x),
{
    lemma_insert_pos(s, x);
    let j = insert_pos(s, x);
    lemma_insert_child_at(s, x, j);
    to_multiset_insert(s, j, x);
    let r = s.insert(j, x);
    assert forall|a: int, b: int| 0 <= a < b < r.len() implies child_le(#[trigger] r[a], #[trigger] r[b]) by {
        if a < j && b == j {
            lemma_child_le_total(x, s[a]);
        } else if a < j && b > j {
            lemma_child_le_total(x, s[a]);
            assert(child_le(s[a], s[b - 1]));
        } else if a == j {
            if b - 1 > j {
                assert(child_le(s[j], s[b - 1]));
                lemma_child_le_transitive(x, s[j], s[b - 1]);
            }
        } else if a > j {
            assert(child_le(s[a - 1], s[b - 1]));
        } else {
            assert(child_le(s[a], s[b]));
        }
    }
}

/// Sorting yields the same children in display order.
pub proof fn lemma_sort_children(s: Seq<ChildModel>)
    ensures
        is_display_sorted(sort_children(s)),
        sort_children(s).to_multiset() == s.to_multiset(),
    decreases s.len(),
{
    if s.len() == 0 {
        assert(s =~= Seq::<ChildModel>::empty());
    } else {
        let t = s.drop_first();
        lemma_sort_children(t);
        lemma_insert_child_sorted(sort_children(t), s[0]);
        lemma_multiset_commutative(seq![s[0]], t);
        to_multiset_build(Seq::<ChildModel>::empty(), s[0]);
        assert(seq![s[0]] + t =~= s);
        assert(Seq::<ChildModel>::empty().push(s[0]) =~= seq![s[0]]);
        vstd::seq_lib::to_multiset_len(Seq::<ChildModel>::empty());
        assert(Seq::<ChildModel>::empty().to_multiset() =~= Multiset::empty()) by {
            broadcast use vstd::multiset::group_multiset_axioms;

            vstd::multiset::lemma_multiset_empty_len(Seq::<ChildModel>::empty().to_multiset());
        }
        assert(s.to_multiset() =~= t.to_multiset().insert(s[0])) by {
            broadcast use vstd::multiset::group_multiset_axioms;

        }
    }
}

pub proof fn lemma_bytes_le_antisymmetric(a: Seq<u8>, b: Seq<u8>)
    requires
        bytes_le(a, b),
        bytes_le(b, a),
    ensures
        a == b,
    decreases a.len(),
{
    if a.len() > 0 && b.len() > 0 {
        lemma_bytes_le_antisymmetric(a.drop_first(), b.drop_first());
        assert(a =~= seq![a[0]] + a.drop_first());
        assert(b =~= seq![b[0]] + b.drop_first());
    } else {
        assert(a =~= b);
    }
}

/// Two children that each come no later than the other are the same child.
pub proof fn lemma_child_le_antisymmetric(a: ChildModel, b: ChildModel)
    requires
        child_le(a, b),
        child_le(b, a),
    ensures
        a == b,
{
    lemma_bytes_le_antisymmetric(encode_utf8(a.name), encode_utf8(b.name));
    encode_utf8_decode_utf8(a.name);
    encode_utf8_decode_utf8(b.name);
}

/// Two sequences in display order that hold the same children are equal.
pub proof fn lemma_display_sorted_unique(s1: Seq<ChildModel>, s2: Seq<ChildModel>)
    requires
        is_display_sorted(s1),
        is_display_sorted(s2),
        s1.to_multiset() == s2.to_multiset(),
    ensures
        s1 == s2,
    decreases s1.len(),
{
    to_multiset_len(s1);
    to_multiset_len(s2);
    if s1.len() == 0 {
        assert(s1 =~= s2);
    } else {
        let a = s1[0];
        let b = s2[0];
        vstd::seq_lib::to_multiset_contains(s1, a);
        vstd::seq_lib::to_multiset_contains(s2, a);
        vstd::seq_lib::to_multiset_contains(s2, b);
        vstd::seq_lib::to_multiset_contains(s1, b);
        assert(s1.contains(a));
        assert(s2.contains(b));
        let k2 = choose|k: int| 0 <= k < s2.len() && s2[k] == a;
        let k1 = choose|k: int| 0 <= k < s1.len() && s1[k] == b;
        if k2 > 0 {
            assert(child_le(s2[0], s2[k2]));
        } else {
            lemma_child_le_total(a, b);
        }
        if k1 > 0 {
            assert(child_le(s1[0], s1[k1]));
        } else {
            lemma_child_le_total(a, b);
        }
        lemma_child_le_antisymmetric(a, b);
        to_multiset_remove(s1, 0);
        to_multiset_remove(s2, 0);
        assert(s1.remove(0) =~= s1.drop_first());
        assert(s2.remove(0) =~= s2.drop_first());
        lemma_display_sorted_unique(s1.drop_first(), s2.drop_first());
        assert(s1 =~= seq![a] + s1.drop_first());
        assert(s2 =~= seq![b] + s2.drop_first());
    }
}

/// The parent marker heads the listing of a directory exactly when the
/// directory has a parent, and appears nowhere else in it.
pub proof fn lemma_parent_marker_first(dir: PathModel, children: Seq<ChildModel>)
    ensures
        has_parent(dir) ==> listing(dir, children).len() > 0 && listing(dir, children)[0] is ParentMarker,
        forall|i: int|
            0 <= i < listing(dir, children).len() && (i > 0 || !has_parent(dir)) ==> !(
            #[trigger] listing(dir, children)[i] is ParentMarker),
{
    let l = listing(dir, children);
    let entries = sort_children(children).map_values(|c: ChildModel| child_entry(c));
    let off: int = if has_parent(dir) { 1 } else { 0 };
    assert forall|i: int| 0 <= i < l.len() && (i > 0 || !has_parent(dir)) implies !(
    #[trigger] l[i] is ParentMarker) by {
        assert(l[i] == entries[i - off]);
    }
}

/// A listing shows the children it was given, all of them and no others,
/// directories before files and, within each group, names in byte order,
/// whatever order the children were read in.
pub proof fn lemma_display_order(children: Seq<ChildModel>)
    ensures
        sort_children(children).to_multiset() == children.to_multiset(),
        forall|i: int, j: int|
            0 <= i < j < sort_children(children).len() && (#[trigger] sort_children(children)[j]).is_dir
                ==> (#[trigger] sort_children(children)[i]).is_dir,
        forall|i: int, j: int|
            0 <= i < j < sort_children(children).len() && (#[trigger] sort_children(children)[i]).is_dir
                == (#[trigger] sort_children(children)[j]).is_dir ==> name_le(
                sort_children(children)[i].name,
                sort_children(children)[j].name,
            ),
{
    lemma_sort_children(children);
}

/// Listing a directory twice over the same children gives the same listing,
/// even when the children were read in a different order.
pub proof fn lemma_listing_deterministic(
    dir: PathModel,
    first: Seq<ChildModel>,
    second: Seq<ChildModel>,
)
    requires
        first.to_multiset() == second.to_multiset(),
    ensures
        listing(dir, first) == listing(dir, second),
{
    lemma_sort_children(first);
    lemma_sort_children(second);
    lemma_display_sorted_unique(sort_children(first), sort_children(second));
}

/// Whether `a` comes no later than `b` in lexicographic byte order.
fn bytes_le_exec(a: &[u8], b: &[u8]) -> (r: bool)
    ensures
        r == bytes_le(a@, b@),
{
    let mut i: usize = 0;
    assert(a@.skip(0) =~= a@);
    assert(b@.skip(0) =~= b@);
    while i < a.len() && i < b.len()
        invariant
            i <= a.len(),
            i <= b.len(),
            bytes_le(a@, b@) == bytes_le(a@.skip(i as int), b@.skip(i as int)),
        decreases a.len() - i,
    {
        assert(a@.skip(i as int)[0] == a@[i as int]);
        assert(b@.skip(i as int)[0] == b@[i as int]);
        if a[i] != b[i] {
            return a[i] < b[i];
        }
        assert(a@.skip(i as int).drop_first() =~= a@.skip(i + 1));
        assert(b@.skip(i as int).drop_first() =~= b@.skip(i + 1));
        i = i + 1;
    }
    i == a.len()
}

impl DirChild {
    /// Whether this child is shown no later than `other`: directories come
    /// before files, and within each group names compare by their bytes.
    pub fn precedes(&self, other: &DirChild) -> (r: bool)
        ensures
            r == child_le(self@, other@),
    {
        if self.is_dir != other.is_dir {
            self.is_dir
        } else {
            bytes_le_exec(self.name.as_str().as_bytes(), other.name.as_str().as_bytes())
        }
    }
}

/// The children in display order.
pub fn sort_for_display(children: Vec<DirChild>) -> (r: Vec<DirChild>)
    ensures
        child_models(r@) == sort_children(child_models(children@)),
{
    let ghost orig = child_models(children@);
    let mut input = children;
    let mut out: Vec<DirChild> = Vec::new();
    assert(orig.skip(orig.len() as int) =~= Seq::<ChildModel>::empty());
    assert(child_models(out@) =~= Seq::<ChildModel>::empty());
    assert(child_models(input@) =~= orig.take(orig.len() as int));
    while input.len() > 0
        invariant
            input.len() <= orig.len(),
            child_models(input@) == orig.take(input.len() as int),
            child_models(out@) == sort_children(orig.skip(input.len() as int)),
        decreases input.len(),
    {
        let ghost n = input.len() as int;
        let ghost before = input@;
        let x = input.pop().unwrap();
        assert(x@ == orig[n - 1]) by {
            assert(child_models(before)[n - 1] == before[n - 1]@);
        }
        assert(child_models(input@) =~= orig.take(n - 1)) by {
            assert(input@ =~= before.drop_last());
        }
        let ghost sorted = child_models(out@);
        let mut j: usize = 0;
        while j < out.len() && !x.precedes(&out[j])
            invariant
                j <= out.len(),
                sorted == child_models(out@),
                forall|k: int| 0 <= k < j ==> !child_le(x@, #[trigger] sorted[k]),
            decreases out.len() - j,
        {
            j = j + 1;
        }
        proof {
            lemma_insert_child_at(sorted, x@, j as int);
        }
        let ghost xm = x@;
        out.insert(j, x);
        assert(child_models(out@) =~= sorted.insert(j as int, xm));
        assert(orig.skip(n - 1).drop_first() =~= orig.skip(n));
        assert(orig.skip(n - 1)[0] == orig[n - 1]);
    }
    out
}

/// The listing of `dir` whose children are `children`: the parent marker
/// when `dir` has a parent, then each child as a relative path of its name,
/// directories first and names in byte order within each group.
pub fn list(dir: &NavPath, children: Vec<DirChild>) -> (r: Vec<Target>)
    ensures
        target_models(r@) == listing(dir@, child_models(children@)),
{
    let ghost cs = child_models(children@);
    let sorted = sort_for_display(children);
    let ghost entries = sort_children(cs).map_values(|c: ChildModel| child_entry(c));
    let mut r: Vec<Target> = Vec::new();
    if dir.has_parent() {
        r.push(Target::ParentMarker);
    }
    let ghost head = target_models(r@);
    assert(head =~= (if has_parent(dir@) {
        seq![TargetModel::ParentMarker]
    } else {
        Seq::empty()
    }));
    let mut i: usize = 0;
    assert(target_models(r@) =~= head + entries.take(0));
    while i < sorted.len()
        invariant
            i <= sorted.len(),
            child_models(sorted@) == sort_children(cs),
            entries == sort_children(cs).map_values(|c: ChildModel| child_entry(c)),
            target_models(r@) == head + entries.take(i as int),
        decreases sorted.len() - i,
    {
        let name = sorted[i].name.clone();
        let p = NavPath::named(name);
        let ghost prev = target_models(r@);
        assert(child_models(sorted@)[i as int] == sorted@[i as int]@);
        r.push(Target::Path(p));
        assert(target_models(r@) =~= prev.push(entries[i as int]));
        i = i + 1;
        assert(target_models(r@) =~= head + entries.take(i as int));
    }
    assert(entries.take(i as int) =~= entries);
    r
}

} // verus!
