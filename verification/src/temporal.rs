//! Temporal validity for bitemporal facts.
//!
//! Instants are milliseconds since the Unix epoch (UTC); durations are
//! milliseconds. Records carry a validity window `[from, to)` describing
//! when the fact was true in the world, separate from when the row was
//! written.
use vstd::prelude::*;

verus! {

/// `chrono::Utc::now()` as milliseconds since the epoch. The wall clock
/// is read, so nothing is promised about the value.
#[verifier::external_body]
pub(crate) fn now_millis() -> (t: i64) {
    chrono::Utc::now().timestamp_millis()
}

/// A closed-open interval `[from, to)` during which a fact holds; `None`
/// bounds mean unbounded past or future.
#[derive(Clone, Copy, Debug, PartialEq, Eq, Structural)]
pub struct ValidityWindow {
    pub from: Option<i64>,
    pub to: Option<i64>,
}

/// `at` lies inside the window.
pub open spec fn window_contains(w: ValidityWindow, at: int) -> bool {
    (w.from matches Some(f) ==> f <= at) && (w.to matches Some(t) ==> at < t)
}

/// The two windows share at least one instant, judged on their bounds.
pub open spec fn window_overlaps(a: ValidityWindow, b: ValidityWindow) -> bool {
    let starts_before_other_ends = match b.to {
        None => true,
        Some(o) => match a.from {
            None => true,
            Some(s) => s < o,
        },
    };
    let ends_after_other_starts = match b.from {
        None => true,
        Some(o) => match a.to {
            None => true,
            Some(e) => o < e,
        },
    };
    starts_before_other_ends && ends_after_other_starts
}

/// The window ended at or before `now`.
pub open spec fn window_ended(w: ValidityWindow, now: int) -> bool {
    w.to matches Some(t) && t <= now
}

/// The window holds at least one instant.
pub open spec fn window_nonempty(w: ValidityWindow) -> bool {
    match (w.from, w.to) {
        (Some(f), Some(t)) => f < t,
        _ => true,
    }
}

impl ValidityWindow {
    /// Window covering all time.
    pub fn always() -> (w: Self)
        ensures
            w.from is None && w.to is None,
    {
        ValidityWindow { from: None, to: None }
    }

    /// Window starting at `from` with no end.
    pub fn from_instant(from: i64) -> (w: Self)
        ensures
            w.from == Some(from),
            w.to is None,
    {
        ValidityWindow { from: Some(from), to: None }
    }

    /// True when `at` falls inside the window.
    pub fn contains(&self, at: i64) -> (b: bool)
        ensures
            b == window_contains(*self, at as int),
    {
        let after_start = match self.from {
            None => true,
            Some(f) => f <= at,
        };
        let before_end = match self.to {
            None => true,
            Some(t) => at < t,
        };
        after_start && before_end
    }

    /// True if the two windows share at least one instant.
    pub fn overlaps(&self, other: &ValidityWindow) -> (b: bool)
        ensures
            b == window_overlaps(*self, *other),
    {
        let starts_before_other_ends = match other.to {
            None => true,
            Some(o) => match self.from {
                None => true,
                Some(s) => s < o,
            },
        };
        let ends_after_other_starts = match other.from {
            None => true,
            Some(o) => match self.to {
                None => true,
                Some(e) => o < e,
            },
        };
        starts_before_other_ends && ends_after_other_starts
    }

    /// True if this window has already ended at `now`.
    pub fn has_ended(&self, now: i64) -> (b: bool)
        ensures
            b == window_ended(*self, now as int),
    {
        match self.to {
            Some(t) => t <= now,
            None => false,
        }
    }
}

impl Default for ValidityWindow {
    fn default() -> (w: Self)
        ensures
            w.from is None && w.to is None,
    {
        ValidityWindow { from: None, to: None }
    }
}

/// Overlap is symmetric, and for windows that hold at least one instant
/// it means exactly that some instant lies in both.
pub proof fn lemma_overlap_is_shared_instant(a: ValidityWindow, b: ValidityWindow)
    ensures
        window_overlaps(a, b) == window_overlaps(b, a),
        window_nonempty(a) && window_nonempty(b) ==> (window_overlaps(a, b) <==> exists|t: int|
            window_contains(a, t) && window_contains(b, t)),
{
    if window_nonempty(a) && window_nonempty(b) && window_overlaps(a, b) {
        let lo: int = match (a.from, b.from) {
            (Some(x), Some(y)) => if x < y {
                y as int
            } else {
                x as int
            },
            (Some(x), None) => x as int,
            (None, Some(y)) => y as int,
            (None, None) => match (a.to, b.to) {
                (Some(x), Some(y)) => if x < y {
                    x - 1
                } else {
                    y - 1
                },
                (Some(x), None) => x - 1,
                (None, Some(y)) => y - 1,
                (None, None) => 0,
            },
        };
        assert(window_contains(a, lo) && window_contains(b, lo));
    }
}

/// A window that has ended by `now` contains no instant from `now` on.
pub proof fn lemma_ended_excludes_later(w: ValidityWindow, now: int, at: int)
    requires
        window_ended(w, now),
        now <= at,
    ensures
        !window_contains(w, at),
{
}

} // verus!
