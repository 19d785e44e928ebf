//! Beat tracking for visualizers: the last triggered beat and a short
//! history of beat events.

use vstd::prelude::*;

verus! {

/// How many beat events the history keeps.
pub const MAX_BEAT_HISTORY: usize = 32;

/// The history after recording `entry`: appended, and the oldest entry
/// dropped once more than `MAX_BEAT_HISTORY` are held.
pub open spec fn recorded<T>(history: Seq<T>, entry: T) -> Seq<T> {
    let grown = history.push(entry);
    if grown.len() > MAX_BEAT_HISTORY {
        grown.subrange(1, grown.len() as int)
    } else {
        grown
    }
}

/// Tracks beat events: each recorded as its beat number, whether it was
/// accented, and the event itself.
#[derive(Debug, Clone)]
#[verifier::reject_recursive_types(E)]
pub struct BeatTracker<E> {
    /// Recent beat events, oldest first; the last one is the current beat
    beat_history: Vec<(u8, bool, E)>,
}

impl<E> BeatTracker<E> {
    /// The recent beat events, oldest first.
    pub closed spec fn history_view(&self) -> Seq<(u8, bool, E)> {
        self.beat_history@
    }

    /// The history holds at most `MAX_BEAT_HISTORY` events.
    pub closed spec fn wf(&self) -> bool {
        self.beat_history@.len() <= MAX_BEAT_HISTORY
    }

    /// A tracker that has seen no beat.
    pub fn new() -> (r: Self)
        ensures
            r.wf(),
            r.history_view() == Seq::<(u8, bool, E)>::empty(),
    {
        Self { beat_history: Vec::new() }
    }

    /// Record a beat event: it becomes the current beat and joins the
    /// history, which drops its oldest event beyond `MAX_BEAT_HISTORY`.
    pub fn record_beat(&mut self, beat_number: u8, accent: bool, event: E)
        requires
            old(self).wf(),
        ensures
            final(self).wf(),
            final(self).history_view() == recorded(old(self).history_view(), (beat_number, accent, event)),
    {
        let ghost entry = (beat_number, accent, event);
        self.beat_history.push((beat_number, accent, event));
        if self.beat_history.len() > MAX_BEAT_HISTORY {
            self.beat_history.remove(0);
        }
        assert(self.beat_history@ =~= recorded(old(self).history_view(), entry));
    }

    /// The current beat and whether it was accented; beat 1 unaccented before
    /// any beat was recorded.
    pub fn get_current_beat(&self) -> (r: (u8, bool))
        ensures
            r == if self.history_view().len() == 0 {
                (1u8, false)
            } else {
                (self.history_view().last().0, self.history_view().last().1)
            },
    {
        let n = self.beat_history.len();
        if n == 0 {
            (1, false)
        } else {
            (self.beat_history[n - 1].0, self.beat_history[n - 1].1)
        }
    }

    /// The event of the current beat, if a beat was recorded.
    pub fn current_event(&self) -> (r: Option<&E>)
        ensures
            r matches Some(e) ==> self.history_view().len() > 0 && *e == self.history_view().last().2,
            r is None <==> self.history_view().len() == 0,
    {
        let n = self.beat_history.len();
        if n == 0 {
            None
        } else {
            Some(&self.beat_history[n - 1].2)
        }
    }

    /// The recent beat events, oldest first.
    pub fn history(&self) -> (r: &Vec<(u8, bool, E)>)
        ensures
            r@ == self.history_view(),
    {
        &self.beat_history
    }
}

impl<E> Default for BeatTracker<E> {
    /// The same as `new`.
    fn default() -> (r: Self)
        ensures
            r.wf(),
            r.history_view() == Seq::<(u8, bool, E)>::empty(),
    {
        Self::new()
    }
}

/// Recording keeps the history within its bound, makes the recorded event the
/// current one, and keeps the events before it in order.
pub proof fn law_history_keeps_latest<T>(history: Seq<T>, entry: T)
    requires
        history.len() <= MAX_BEAT_HISTORY,
    ensures
        recorded(history, entry).len() <= MAX_BEAT_HISTORY,
        recorded(history, entry).len() > 0,
        recorded(history, entry).last() == entry,
        recorded(history, entry).drop_last() == if history.len() == MAX_BEAT_HISTORY {
            history.subrange(1, history.len() as int)
        } else {
            history
        },
{
    let r = recorded(history, entry);
    if history.len() == MAX_BEAT_HISTORY {
        assert(r.drop_last() =~= history.subrange(1, history.len() as int));
    } else {
        assert(r.drop_last() =~= history);
    }
}

} // verus!
