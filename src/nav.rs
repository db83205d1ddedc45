use vstd::prelude::*;

use crate::click::{click_kind, ClickKind, ClickTimer};
use crate::listing::{
    child_models, list, listing, target_models, ChildModel, DirChild, Target, TargetModel,
};
use crate::path::{has_parent, is_relative, join, parent_of, NavPath, PathModel};
use crate::roots::path_models;

verus! {

/// Where a navigation target leads from `current`: the parent marker leads to
/// the parent (or stays put at a root), a relative path is joined to
/// `current`, and any other path is taken as it is.
pub open spec fn resolve_target(target: TargetModel, current: PathModel) -> PathModel {
    match target {
        TargetModel::ParentMarker => if has_parent(current) {
            parent_of(current)
        } else {
            current
        },
        TargetModel::Path(p) => join(current, p),
    }
}

/// The parent marker leads to the parent of a directory that has one, and
/// leaves a directory without a parent unchanged.
pub proof fn lemma_resolve_parent_marker(current: PathModel)
    ensures
        has_parent(current) ==> resolve_target(TargetModel::ParentMarker, current) == parent_of(current),
        !has_parent(current) ==> resolve_target(TargetModel::ParentMarker, current) == current,
{
}

/// A relative target leads to the current directory joined with it: the
/// current components followed by the target's.
pub proof fn lemma_resolve_relative(current: PathModel, target: PathModel)
    requires
        is_relative(target),
    ensures
        resolve_target(TargetModel::Path(target), current) == join(current, target),
        resolve_target(TargetModel::Path(target), current) == (PathModel {
            drive: current.drive,
            absolute: current.absolute,
            parts: current.parts + target.parts,
        }),
{
}

/// A target that names a root or a drive leads to itself.
pub proof fn lemma_resolve_absolute(current: PathModel, target: PathModel)
    requires
        !is_relative(target),
    ensures
        resolve_target(TargetModel::Path(target), current) == target,
{
}

/// The destination of `target` seen from `current`; no filesystem access.
pub fn resolve(target: &Target, current: &NavPath) -> (r: NavPath)
    ensures
        r@ == resolve_target(target@, current@),
{
    match target {
        Target::ParentMarker => match current.parent() {
            Some(p) => p,
            None => current.duplicate(),
        },
        Target::Path(p) => current.join(p),
    }
}

/// The path to open for a click: the clicked entry when the click activates,
/// the entry is a path rather than the parent marker, and it is a plain file.
pub open spec fn path_to_open(
    kind: ClickKind,
    target: TargetModel,
    current: PathModel,
    entry_is_file: bool,
) -> Option<PathModel> {
    if kind == ClickKind::Activate && target is Path && entry_is_file {
        Some(resolve_target(target, current))
    } else {
        None
    }
}

/// An event from the presentation layer.
#[derive(Debug)]
pub enum Message {
    /// An entry of the listing was clicked.
    FileClicked(Target),
    /// The listing of the current directory should be read again.
    Refresh,
    /// The user asked for the parent directory.
    GoUp,
    /// A root was chosen.
    DriveSelected(NavPath),
}

/// What the filesystem showed of the place an event leads to: whether it is a
/// plain file, and its children when it is a readable directory.
#[derive(Debug)]
pub struct Probe {
    pub is_file: bool,
    pub children: Option<Vec<DirChild>>,
}

/// The children a probe found, none when it found no directory.
pub open spec fn probed_children(probe: Probe) -> Seq<ChildModel> {
    match probe.children {
        Some(c) => child_models(c@),
        None => Seq::empty(),
    }
}

/// What the presentation layer reads after each event: the current directory,
/// its listing, whether root selection is shown, and the known roots.
pub struct NavigationState {
    pub current: NavPath,
    pub listing: Vec<Target>,
    pub roots_visible: bool,
    pub roots: Vec<NavPath>,
    pub timer: ClickTimer,
}

impl NavigationState {
    /// Browsing `start`, whose children are `children`, with root selection hidden.
    pub fn new(start: NavPath, roots: Vec<NavPath>, children: Vec<DirChild>) -> (r: NavigationState)
        ensures
            r.current@ == start@,
            target_models(r.listing@) == listing(start@, child_models(children@)),
            !r.roots_visible,
            path_models(r.roots@) == path_models(roots@),
            r.timer.last_click_ms is None,
    {
        let listing = list(&start, children);
        NavigationState {
            current: start,
            listing,
            roots_visible: false,
            roots,
            timer: ClickTimer::new(),
        }
    }

    /// The destination of `target` from the current directory.
    pub fn destination(&self, target: &Target) -> (r: NavPath)
        ensures
            r@ == resolve_target(target@, self.current@),
    {
        resolve(target, &self.current)
    }

    /// Rebuilds the listing of the current directory from its children as just read.
    pub fn refresh(&mut self, children: Vec<DirChild>)
        ensures
            final(self).current@ == old(self).current@,
            target_models(final(self).listing@) == listing(old(self).current@, child_models(children@)),
            final(self).roots_visible == old(self).roots_visible,
            final(self).roots == old(self).roots,
            final(self).timer == old(self).timer,
    {
        self.listing = list(&self.current, children);
    }

    /// Moves to `dir`, whose children are `children`, and hides root selection.
    fn browse(&mut self, dir: NavPath, children: Vec<DirChild>)
        ensures
            final(self).current@ == dir@,
            target_models(final(self).listing@) == listing(dir@, child_models(children@)),
            !final(self).roots_visible,
            final(self).roots == old(self).roots,
            final(self).timer == old(self).timer,
    {
        self.listing = list(&dir, children);
        self.current = dir;
        self.roots_visible = false;
    }

    /// Goes to the parent directory, whose children are `parent_children`;
    /// at a directory without a parent, shows root selection instead and
    /// leaves the directory and its listing as they are.
    pub fn go_up(&mut self, parent_children: Vec<DirChild>)
        ensures
            has_parent(old(self).current@) ==> {
                &&& final(self).current@ == parent_of(old(self).current@)
                &&& target_models(final(self).listing@) == listing(
                    parent_of(old(self).current@),
                    child_models(parent_children@),
                )
                &&& !final(self).roots_visible
            },
            !has_parent(old(self).current@) ==> {
                &&& final(self).current == old(self).current
                &&& final(self).listing == old(self).listing
                &&& final(self).roots_visible
            },
            final(self).roots == old(self).roots,
            final(self).timer == old(self).timer,
    {
        match self.current.parent() {
            Some(p) => self.browse(p, parent_children),
            None => {
                self.roots_visible = true;
            },
        }
    }

    /// Moves to the chosen `root`, whose children are `children`, from either
    /// browsing or root selection, and hides root selection.
    pub fn root_selected(&mut self, root: NavPath, children: Vec<DirChild>)
        ensures
            final(self).current@ == root@,
            target_models(final(self).listing@) == listing(root@, child_models(children@)),
            !final(self).roots_visible,
            final(self).roots == old(self).roots,
            final(self).timer == old(self).timer,
    {
        self.browse(root, children);
    }

    /// Handles a click on `target` at `now_ms`. `entry_is_file` says whether
    /// the destination of `target` is a plain file, and `dest_children` holds
    /// its children when it is a directory (`None` when it is not one).
    /// Returns the path to open with the default program, if the click asks
    /// for that; the navigation moves to the destination when it is a
    /// directory and otherwise stays where it is.
    pub fn entry_clicked(
        &mut self,
        target: &Target,
        now_ms: u64,
        entry_is_file: bool,
        dest_children: Option<Vec<DirChild>>,
    ) -> (r: Option<NavPath>)
        ensures
            final(self).timer.last_click_ms == Some(now_ms),
            ({
                let kind = click_kind(old(self).timer.last_click_ms, now_ms);
                match path_to_open(kind, target@, old(self).current@, entry_is_file) {
                    Some(p) => r matches Some(q) && q@ == p,
                    None => r is None,
                }
            }),
            match dest_children {
                Some(children) => {
                    &&& final(self).current@ == resolve_target(target@, old(self).current@)
                    &&& target_models(final(self).listing@) == listing(
                        resolve_target(target@, old(self).current@),
                        child_models(children@),
                    )
                    &&& !final(self).roots_visible
                },
                None => {
                    &&& final(self).current == old(self).current
                    &&& final(self).listing == old(self).listing
                    &&& final(self).roots_visible == old(self).roots_visible
                },
            },
            final(self).roots == old(self).roots,
    {
        let kind = self.timer.click(now_ms);
        let dest = resolve(target, &self.current);
        let is_path = match target {
            Target::ParentMarker => false,
            Target::Path(_) => true,
        };
        let open = if kind == ClickKind::Activate && is_path && entry_is_file {
            Some(dest.duplicate())
        } else {
            None
        };
        match dest_children {
            Some(children) => self.browse(dest, children),
            None => {},
        }
        open
    }

    /// The place that `message` leads to, which the caller probes before
    /// calling [`NavigationState::update`]; `None` for going up from a
    /// directory without a parent.
    pub fn probe_target(&self, message: &Message) -> (r: Option<NavPath>)
        ensures
            match message {
                Message::FileClicked(t) => r matches Some(p) && p@ == resolve_target(t@, self.current@),
                Message::Refresh => r matches Some(p) && p@ == self.current@,
                Message::GoUp => if has_parent(self.current@) {
                    r matches Some(p) && p@ == parent_of(self.current@)
                } else {
                    r is None
                },
                Message::DriveSelected(d) => r matches Some(p) && p@ == d@,
            },
    {
        match message {
            Message::FileClicked(t) => Some(self.destination(t)),
            Message::Refresh => Some(self.current.duplicate()),
            Message::GoUp => self.current.parent(),
            Message::DriveSelected(d) => Some(d.duplicate()),
        }
    }

    /// Handles one event, given what `probe` found at the place the event
    /// leads to (see [`NavigationState::probe_target`]). A directory that
    /// could not be read lists no children. Returns the path to open with
    /// the default program, if a click asks for that.
    pub fn update(&mut self, message: Message, now_ms: u64, probe: Probe) -> (r: Option<NavPath>)
        ensures
            final(self).roots == old(self).roots,
            match message {
                Message::FileClicked(t) => {
                    let kind = click_kind(old(self).timer.last_click_ms, now_ms);
                    let dest = resolve_target(t@, old(self).current@);
                    &&& final(self).timer.last_click_ms == Some(now_ms)
                    &&& match path_to_open(kind, t@, old(self).current@, probe.is_file) {
                        Some(p) => r matches Some(q) && q@ == p,
                        None => r is None,
                    }
                    &&& if probe.children is Some {
                        &&& final(self).current@ == dest
                        &&& target_models(final(self).listing@) == listing(dest, probed_children(probe))
                        &&& !final(self).roots_visible
                    } else {
                        &&& final(self).current == old(self).current
                        &&& final(self).listing == old(self).listing
                        &&& final(self).roots_visible == old(self).roots_visible
                    }
                },
                Message::Refresh => {
                    &&& r is None
                    &&& final(self).timer == old(self).timer
                    &&& final(self).current@ == old(self).current@
                    &&& target_models(final(self).listing@) == listing(old(self).current@, probed_children(probe))
                    &&& final(self).roots_visible == old(self).roots_visible
                },
                Message::GoUp => {
                    &&& r is None
                    &&& final(self).timer == old(self).timer
                    &&& if has_parent(old(self).current@) {
                        &&& final(self).current@ == parent_of(old(self).current@)
                        &&& target_models(final(self).listing@) == listing(
                            parent_of(old(self).current@),
                            probed_children(probe),
                        )
                        &&& !final(self).roots_visible
                    } else {
                        &&& final(self).current == old(self).current
                        &&& final(self).listing == old(self).listing
                        &&& final(self).roots_visible
                    }
                },
                Message::DriveSelected(d) => {
                    &&& r is None
                    &&& final(self).timer == old(self).timer
                    &&& final(self).current@ == d@
                    &&& target_models(final(self).listing@) == listing(d@, probed_children(probe))
                    &&& !final(self).roots_visible
                },
            },
    {
        let ghost probed = probed_children(probe);
        let Probe { is_file, children } = probe;
        let found = children.is_some();
        let children = match children {
            Some(c) => c,
            None => Vec::new(),
        };
        assert(child_models(children@) =~= probed);
        match message {
            Message::FileClicked(t) => {
                let dest_children = if found { Some(children) } else { None };
                self.entry_clicked(&t, now_ms, is_file, dest_children)
            },
            Message::Refresh => {
                self.refresh(children);
                None
            },
            Message::GoUp => {
                self.go_up(children);
                None
            },
            Message::DriveSelected(d) => {
                self.root_selected(d, children);
                None
            },
        }
    }
}

} // verus!
