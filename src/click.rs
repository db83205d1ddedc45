use vstd::prelude::*;

verus! {

/// Two clicks closer together than this many milliseconds form an activation.
pub const DOUBLE_CLICK_WINDOW_MS: u64 = 500;

/// What a click on an entry means.
#[derive(Clone, Copy, Debug, PartialEq, Eq, Structural)]
pub enum ClickKind {
    /// A single click: navigate only.
    Select,
    /// A second click within the window of the previous one: open.
    Activate,
}

/// Milliseconds elapsed from `earlier` to `now`, zero when `now` comes first.
pub open spec fn elapsed_ms(earlier: u64, now: u64) -> nat {
    if now >= earlier { (now - earlier) as nat } else { 0 }
}

/// The kind of a click at `now`, given the instant of the previous click of any entry.
pub open spec fn click_kind(last: Option<u64>, now: u64) -> ClickKind {
    match last {
        Some(t) if elapsed_ms(t, now) < DOUBLE_CLICK_WINDOW_MS => ClickKind::Activate,
        _ => ClickKind::Select,
    }
}

/// A click activates exactly when the previous click, of whichever entry,
/// came less than the window earlier; the first click only selects.
pub proof fn lemma_activation_window(last: u64, delay: u64)
    requires
        last + delay <= u64::MAX,
    ensures
        click_kind(Some(last), (last + delay) as u64) == (if delay < DOUBLE_CLICK_WINDOW_MS {
            ClickKind::Activate
        } else {
            ClickKind::Select
        }),
        click_kind(None, (last + delay) as u64) == ClickKind::Select,
{
}

/// Remembers when the last entry click happened.
#[derive(Clone, Copy, Debug, PartialEq, Eq, Structural)]
pub struct ClickTimer {
    pub last_click_ms: Option<u64>,
}

impl ClickTimer {
    /// A timer that has seen no click.
    pub fn new() -> (r: ClickTimer)
        ensures
            r.last_click_ms is None,
    {
        ClickTimer { last_click_ms: None }
    }

    /// Classifies a click at `now_ms` and records it as the last click.
    pub fn click(&mut self, now_ms: u64) -> (r: ClickKind)
        ensures
            r == click_kind(old(self).last_click_ms, now_ms),
            final(self).last_click_ms == Some(now_ms),
    {
        let kind = match self.last_click_ms {
            Some(t) => {
                let elapsed: u64 = if now_ms >= t { now_ms - t } else { 0 };
                if elapsed < DOUBLE_CLICK_WINDOW_MS {
                    ClickKind::Activate
                } else {
                    ClickKind::Select
                }
            },
            None => ClickKind::Select,
        };
        self.last_click_ms = Some(now_ms);
        kind
    }
}

} // verus!
