use vstd::prelude::*;

verus! {

/// A filesystem location as the navigation logic sees it: an optional drive
/// letter, whether the path starts at a root directory, and its named components.
#[derive(Debug, PartialEq, Eq)]
pub struct NavPath {
    /// The drive letter (an ASCII byte such as `b'C'`) on systems with several roots.
    pub drive: Option<u8>,
    /// Whether the path starts at a root directory.
    pub absolute: bool,
    /// The named components, outermost first.
    pub parts: Vec<String>,
}

/// The mathematical value of a [`NavPath`].
pub struct PathModel {
    pub drive: Option<u8>,
    pub absolute: bool,
    pub parts: Seq<Seq<char>>,
}

impl View for NavPath {
    type V = PathModel;

    open spec fn view(&self) -> PathModel {
        PathModel { drive: self.drive, absolute: self.absolute, parts: self.parts.deep_view() }
    }
}

/// A path has a parent when it has at least one named component.
pub open spec fn has_parent(p: PathModel) -> bool {
    p.parts.len() > 0
}

/// The path without its last component.
pub open spec fn parent_of(p: PathModel) -> PathModel
    recommends
        has_parent(p),
{
    PathModel { drive: p.drive, absolute: p.absolute, parts: p.parts.drop_last() }
}

/// A path is relative when it names neither a drive nor a root.
pub open spec fn is_relative(p: PathModel) -> bool {
    p.drive is None && !p.absolute
}

/// `base` joined with `target`: a relative target extends `base`, any other replaces it.
pub open spec fn join(base: PathModel, target: PathModel) -> PathModel {
    if is_relative(target) {
        PathModel { drive: base.drive, absolute: base.absolute, parts: base.parts + target.parts }
    } else {
        target
    }
}

/// The single root of a system with one filesystem root.
pub open spec fn single_root() -> PathModel {
    PathModel { drive: None, absolute: true, parts: Seq::empty() }
}

/// Copies of the strings of `v` appended to `out`.
fn append_parts(out: &mut Vec<String>, v: &Vec<String>)
    ensures
        final(out).deep_view() == old(out).deep_view() + v.deep_view(),
{
    let ghost start = out.deep_view();
    let mut i: usize = 0;
    while i < v.len()
        invariant
            i <= v.len(),
            out.deep_view() == start + v.deep_view().take(i as int),
        decreases v.len() - i,
    {
        let s = v[i].clone();
        let ghost prev = out.deep_view();
        out.push(s);
        assert(out.deep_view() =~= prev.push(v.deep_view()[i as int]));
        i = i + 1;
        assert(out.deep_view() =~= start + v.deep_view().take(i as int));
    }
    assert(v.deep_view().take(i as int) =~= v.deep_view());
}

impl NavPath {
    /// The root directory of a system with a single root.
    pub fn root() -> (r: NavPath)
        ensures
            r@ == single_root(),
    {
        let r = NavPath { drive: None, absolute: true, parts: Vec::new() };
        assert(r@.parts =~= Seq::<Seq<char>>::empty());
        r
    }

    /// The root of drive `letter` on a system with several roots.
    pub fn drive_root(letter: u8) -> (r: NavPath)
        ensures
            r@.drive == Some(letter),
            !r@.absolute,
            r@.parts.len() == 0,
    {
        NavPath { drive: Some(letter), absolute: false, parts: Vec::new() }
    }

    /// A relative path of one component.
    pub fn named(name: String) -> (r: NavPath)
        ensures
            is_relative(r@),
            r@.parts == seq![name@],
    {
        let mut parts: Vec<String> = Vec::new();
        let ghost v = name@;
        parts.push(name);
        let r = NavPath { drive: None, absolute: false, parts };
        assert(r@.parts =~= seq![v]);
        r
    }

    /// A copy with the same model.
    pub fn duplicate(&self) -> (r: NavPath)
        ensures
            r@ == self@,
    {
        let mut parts: Vec<String> = Vec::new();
        append_parts(&mut parts, &self.parts);
        let r = NavPath { drive: self.drive, absolute: self.absolute, parts };
        assert(r@.parts =~= self@.parts);
        r
    }

    /// Whether the path has a parent.
    pub fn has_parent(&self) -> (r: bool)
        ensures
            r == has_parent(self@),
    {
        self.parts.len() > 0
    }

    /// The parent path, if there is one.
    pub fn parent(&self) -> (r: Option<NavPath>)
        ensures
            has_parent(self@) <==> r is Some,
            r matches Some(p) ==> p@ == parent_of(self@),
    {
        if self.parts.len() == 0 {
            None
        } else {
            let mut parts: Vec<String> = Vec::new();
            append_parts(&mut parts, &self.parts);
            parts.pop();
            let r = NavPath { drive: self.drive, absolute: self.absolute, parts };
            assert(r@.parts =~= self@.parts.drop_last());
            Some(r)
        }
    }

    /// Whether the path names neither a drive nor a root.
    pub fn is_relative(&self) -> (r: bool)
        ensures
            r == is_relative(self@),
    {
        self.drive.is_none() && !self.absolute
    }

    /// This path joined with `target`.
    pub fn join(&self, target: &NavPath) -> (r: NavPath)
        ensures
            r@ == join(self@, target@),
    {
        if target.is_relative() {
            let mut parts: Vec<String> = Vec::new();
            append_parts(&mut parts, &self.parts);
            append_parts(&mut parts, &target.parts);
            let r = NavPath { drive: self.drive, absolute: self.absolute, parts };
            assert(r@.parts =~= self@.parts + target@.parts);
            r
        } else {
            target.duplicate()
        }
    }
}

} // verus!
