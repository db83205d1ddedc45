use file_explorer::click::{ClickKind, ClickTimer, DOUBLE_CLICK_WINDOW_MS};
use file_explorer::listing::{list, sort_for_display, DirChild, Target};
use file_explorer::nav::{resolve, Message, NavigationState, Probe};
use file_explorer::path::NavPath;
use file_explorer::roots::{available_roots, drive_candidates, DRIVE_LETTERS};

fn abs(s: &str) -> NavPath {
    NavPath {
        drive: None,
        absolute: true,
        parts: s.split('/').filter(|c| !c.is_empty()).map(String::from).collect(),
    }
}

fn rel(s: &str) -> NavPath {
    NavPath {
        drive: None,
        absolute: false,
        parts: s.split('/').filter(|c| !c.is_empty()).map(String::from).collect(),
    }
}

fn dir(name: &str) -> DirChild {
    DirChild { name: name.to_string(), is_dir: true }
}

fn file(name: &str) -> DirChild {
    DirChild { name: name.to_string(), is_dir: false }
}

fn entry(name: &str) -> Target {
    Target::Path(rel(name))
}

fn probe_dir(children: Vec<DirChild>) -> Probe {
    Probe { is_file: false, children: Some(children) }
}

fn probe_file() -> Probe {
    Probe { is_file: true, children: None }
}

fn home_children() -> Vec<DirChild> {
    vec![file("notes.txt"), dir("bob"), file("a.out"), dir("alice"), dir("Zed")]
}

#[test]
fn click_within_window_activates() {
    let mut t = ClickTimer::new();
    assert_eq!(t.click(0), ClickKind::Select);
    assert_eq!(t.click(300), ClickKind::Activate);
    assert_eq!(t.last_click_ms, Some(300));
}

#[test]
fn click_after_window_selects() {
    let mut t = ClickTimer::new();
    assert_eq!(t.click(0), ClickKind::Select);
    assert_eq!(t.click(600), ClickKind::Select);
    assert_eq!(t.click(600 + DOUBLE_CLICK_WINDOW_MS - 1), ClickKind::Activate);
    assert_eq!(t.click(1099 + DOUBLE_CLICK_WINDOW_MS), ClickKind::Select);
}

#[test]
fn click_window_boundary_is_exclusive() {
    let mut t = ClickTimer::new();
    t.click(1000);
    assert_eq!(t.click(1500), ClickKind::Select);
    assert_eq!(t.click(1999), ClickKind::Activate);
}

#[test]
fn click_earlier_than_last_counts_as_no_delay() {
    let mut t = ClickTimer::new();
    t.click(5000);
    assert_eq!(t.click(100), ClickKind::Activate);
}

#[test]
fn double_click_on_different_entries_opens_second_file() {
    let start = abs("/home/alice");
    let mut st = NavigationState::new(start, available_roots(false, &vec![]), vec![file("a.txt"), file("b.txt")]);
    let first = st.update(Message::FileClicked(entry("a.txt")), 0, probe_file());
    assert_eq!(first, None);
    let second = st.update(Message::FileClicked(entry("b.txt")), 300, probe_file());
    assert_eq!(second, Some(abs("/home/alice/b.txt")));
    assert_eq!(st.current, abs("/home/alice"));
    let third = st.update(Message::FileClicked(entry("b.txt")), 900, probe_file());
    assert_eq!(third, None);
}

#[test]
fn double_click_on_parent_marker_opens_nothing() {
    let mut st = NavigationState::new(abs("/home/alice"), vec![], vec![]);
    st.update(Message::FileClicked(entry("x")), 0, Probe { is_file: false, children: None });
    let r = st.update(Message::FileClicked(Target::ParentMarker), 100, Probe { is_file: true, children: Some(vec![]) });
    assert_eq!(r, None);
    assert_eq!(st.current, abs("/home"));
}

#[test]
fn listing_has_parent_marker_first() {
    let l = list(&abs("/home"), home_children());
    assert_eq!(l[0], Target::ParentMarker);
    assert!(l[1..].iter().all(|t| *t != Target::ParentMarker));
}

#[test]
fn root_listing_has_no_parent_marker() {
    let l = list(&NavPath::root(), vec![dir("home"), file("swap")]);
    assert_eq!(l, vec![entry("home"), entry("swap")]);
}

#[test]
fn empty_directory_lists_only_parent_marker() {
    assert_eq!(list(&abs("/tmp/empty"), vec![]), vec![Target::ParentMarker]);
    assert_eq!(list(&NavPath::root(), vec![]), vec![]);
}

#[test]
fn listing_puts_directories_first_in_byte_order() {
    let l = list(&abs("/home"), home_children());
    assert_eq!(
        l,
        vec![
            Target::ParentMarker,
            entry("Zed"),
            entry("alice"),
            entry("bob"),
            entry("a.out"),
            entry("notes.txt"),
        ]
    );
}

#[test]
fn sort_orders_by_bytes_and_prefix() {
    let sorted = sort_for_display(vec![file("ab"), file("a"), file("B"), file("\u{e9}"), file("z")]);
    let names: Vec<&str> = sorted.iter().map(|c| c.name.as_str()).collect();
    assert_eq!(names, vec!["B", "a", "ab", "z", "\u{e9}"]);
}

#[test]
fn listing_is_the_same_twice_and_in_any_read_order() {
    let first = list(&abs("/home"), home_children());
    let second = list(&abs("/home"), home_children());
    let mut reversed = home_children();
    reversed.reverse();
    let third = list(&abs("/home"), reversed);
    assert_eq!(first, second);
    assert_eq!(first, third);
}

#[test]
fn precedes_compares_kind_then_name() {
    assert!(dir("z").precedes(&file("a")));
    assert!(!file("a").precedes(&dir("z")));
    assert!(file("a").precedes(&file("b")));
    assert!(!file("b").precedes(&file("a")));
    assert!(file("a").precedes(&file("a")));
}

#[test]
fn resolve_parent_marker() {
    assert_eq!(resolve(&Target::ParentMarker, &abs("/home/alice")), abs("/home"));
    assert_eq!(resolve(&Target::ParentMarker, &abs("/home")), NavPath::root());
    assert_eq!(resolve(&Target::ParentMarker, &NavPath::root()), NavPath::root());
    let c = NavPath::drive_root(b'C');
    assert_eq!(resolve(&Target::ParentMarker, &c), NavPath::drive_root(b'C'));
}

#[test]
fn resolve_relative_joins() {
    assert_eq!(resolve(&entry("docs"), &abs("/home/alice")), abs("/home/alice/docs"));
    assert_eq!(resolve(&Target::Path(rel("a/b")), &abs("/x")), abs("/x/a/b"));
    let on_c = NavPath { drive: Some(b'C'), absolute: true, parts: vec!["Users".to_string()] };
    let joined = resolve(&entry("me"), &on_c);
    assert_eq!(joined, NavPath { drive: Some(b'C'), absolute: true, parts: vec!["Users".to_string(), "me".to_string()] });
}

#[test]
fn resolve_absolute_unchanged() {
    assert_eq!(resolve(&Target::Path(abs("/etc/hosts")), &abs("/home/alice")), abs("/etc/hosts"));
    assert_eq!(resolve(&Target::Path(NavPath::drive_root(b'D')), &abs("/home")), NavPath::drive_root(b'D'));
}

#[test]
fn path_parent_and_join() {
    assert_eq!(abs("/a/b").parent(), Some(abs("/a")));
    assert_eq!(NavPath::root().parent(), None);
    assert!(!NavPath::root().has_parent());
    assert!(rel("x").has_parent());
    assert_eq!(rel("x").parent(), Some(rel("")));
    assert_eq!(abs("/a").join(&rel("b")), abs("/a/b"));
    assert_eq!(abs("/a").join(&abs("/c")), abs("/c"));
    assert!(rel("x").is_relative());
    assert!(!abs("/x").is_relative());
    assert_eq!(NavPath::named("n".to_string()), rel("n"));
    assert_eq!(abs("/q/r").duplicate(), abs("/q/r"));
}

#[test]
fn go_up_without_parent_shows_roots() {
    let mut st = NavigationState::new(NavPath::root(), available_roots(false, &vec![]), vec![dir("home")]);
    let before = st.listing.len();
    let r = st.update(Message::GoUp, 0, probe_dir(vec![dir("ignored")]));
    assert_eq!(r, None);
    assert!(st.roots_visible);
    assert_eq!(st.current, NavPath::root());
    assert_eq!(st.listing.len(), before);
    assert_eq!(st.listing, vec![entry("home")]);
}

#[test]
fn go_up_with_parent_moves_and_hides_roots() {
    let mut st = NavigationState::new(abs("/home/alice"), vec![], vec![]);
    st.roots_visible = true;
    assert_eq!(st.probe_target(&Message::GoUp), Some(abs("/home")));
    st.update(Message::GoUp, 0, probe_dir(home_children()));
    assert_eq!(st.current, abs("/home"));
    assert!(!st.roots_visible);
    assert_eq!(st.listing[0], Target::ParentMarker);
}

#[test]
fn probe_target_for_each_message() {
    let st = NavigationState::new(NavPath::root(), vec![], vec![]);
    assert_eq!(st.probe_target(&Message::GoUp), None);
    assert_eq!(st.probe_target(&Message::Refresh), Some(NavPath::root()));
    assert_eq!(st.probe_target(&Message::FileClicked(entry("etc"))), Some(abs("/etc")));
    assert_eq!(st.probe_target(&Message::DriveSelected(abs("/mnt"))), Some(abs("/mnt")));
}

#[test]
fn root_selected_from_root_selection() {
    let mut st = NavigationState::new(NavPath::root(), available_roots(false, &vec![]), vec![]);
    st.update(Message::GoUp, 0, probe_dir(vec![]));
    assert!(st.roots_visible);
    st.update(Message::DriveSelected(abs("/mnt/data")), 10, probe_dir(vec![file("x.bin"), dir("photos")]));
    assert_eq!(st.current, abs("/mnt/data"));
    assert!(!st.roots_visible);
    assert_eq!(st.listing, vec![Target::ParentMarker, entry("photos"), entry("x.bin")]);
}

#[test]
fn root_selected_drive_without_parent() {
    let mut st = NavigationState::new(abs("/x"), vec![], vec![]);
    st.root_selected(NavPath::drive_root(b'E'), vec![file("f")]);
    assert_eq!(st.current, NavPath::drive_root(b'E'));
    assert_eq!(st.listing, vec![entry("f")]);
    assert!(!st.roots_visible);
}

#[test]
fn parent_marker_click_from_home_alice() {
    let mut st = NavigationState::new(abs("/home/alice"), vec![], vec![file("todo")]);
    let dest = st.probe_target(&Message::FileClicked(Target::ParentMarker));
    assert_eq!(dest, Some(abs("/home")));
    st.update(Message::FileClicked(Target::ParentMarker), 0, probe_dir(home_children()));
    assert_eq!(st.current, abs("/home"));
    assert_eq!(
        st.listing,
        vec![
            Target::ParentMarker,
            entry("Zed"),
            entry("alice"),
            entry("bob"),
            entry("a.out"),
            entry("notes.txt"),
        ]
    );
}

#[test]
fn clicking_a_file_keeps_the_directory() {
    let mut st = NavigationState::new(abs("/home"), vec![], home_children());
    st.roots_visible = true;
    let r = st.update(Message::FileClicked(entry("notes.txt")), 0, probe_file());
    assert_eq!(r, None);
    assert_eq!(st.current, abs("/home"));
    assert!(st.roots_visible);
    assert_eq!(st.listing.len(), 6);
    assert_eq!(st.timer.last_click_ms, Some(0));
}

#[test]
fn refresh_rebuilds_listing() {
    let mut st = NavigationState::new(abs("/srv"), vec![], vec![file("old")]);
    st.update(Message::Refresh, 0, probe_dir(vec![file("new"), dir("d")]));
    assert_eq!(st.current, abs("/srv"));
    assert_eq!(st.listing, vec![Target::ParentMarker, entry("d"), entry("new")]);
    st.update(Message::Refresh, 0, Probe { is_file: false, children: None });
    assert_eq!(st.listing, vec![Target::ParentMarker]);
    assert_eq!(st.timer.last_click_ms, None);
}

#[test]
fn single_root_system_has_one_root() {
    assert_eq!(available_roots(false, &vec![true, true]), vec![NavPath::root()]);
}

#[test]
fn drive_roots_in_letter_order() {
    let mut present = vec![false; DRIVE_LETTERS];
    present[4] = true;
    present[2] = true;
    present[25] = true;
    let roots = available_roots(true, &present);
    assert_eq!(roots, vec![NavPath::drive_root(b'C'), NavPath::drive_root(b'E'), NavPath::drive_root(b'Z')]);
    assert_eq!(available_roots(true, &vec![true]), vec![NavPath::drive_root(b'A')]);
    assert_eq!(available_roots(true, &vec![]), vec![]);
}

#[test]
fn drive_candidates_cover_a_to_z() {
    let c = drive_candidates();
    assert_eq!(c.len(), 26);
    assert_eq!(c[0], NavPath::drive_root(b'A'));
    assert_eq!(c[25], NavPath::drive_root(b'Z'));
}
