//! Which voice of a polyphonic engine plays a new note: the first free
//! voice, or else the oldest one, which is taken over.

use vstd::prelude::*;

verus! {

/// Position of the first free voice (`active` false) among `(active, id)`
/// slots, or the number of slots when all are busy.
pub open spec fn first_free(slots: Seq<(bool, u32)>) -> int
    decreases slots.len(),
{
    if slots.len() == 0 {
        0
    } else {
        let f = first_free(slots.drop_last());
        if f < slots.len() - 1 {
            f
        } else if !slots.last().0 {
            slots.len() - 1
        } else {
            slots.len() as int
        }
    }
}

/// Position of the oldest voice, the one with the lowest id (the first of
/// equals).
pub open spec fn oldest_voice(slots: Seq<(bool, u32)>) -> int
    decreases slots.len(),
{
    if slots.len() <= 1 {
        0
    } else {
        let i = oldest_voice(slots.drop_last());
        if slots.last().1 < slots[i].1 {
            slots.len() - 1
        } else {
            i
        }
    }
}

/// The voice that plays a new note: the first free one, else the oldest,
/// none when there are no voices.
pub open spec fn chosen_voice(slots: Seq<(bool, u32)>) -> Option<int> {
    if slots.len() == 0 {
        None
    } else if first_free(slots) < slots.len() {
        Some(first_free(slots))
    } else {
        Some(oldest_voice(slots))
    }
}

/// The oldest voice is one of the voices, and no voice has a lower id.
pub proof fn lemma_oldest_voice(slots: Seq<(bool, u32)>)
    ensures
        slots.len() > 0 ==> 0 <= oldest_voice(slots) < slots.len(),
        forall|k: int| 0 <= k < slots.len() ==> slots[oldest_voice(slots)].1 <= #[trigger] slots[k].1,
    decreases slots.len(),
{
    if slots.len() > 1 {
        let t = slots.drop_last();
        lemma_oldest_voice(t);
        assert forall|k: int| 0 <= k < slots.len() implies slots[oldest_voice(slots)].1 <= #[trigger] slots[k].1 by {
            if k < slots.len() - 1 {
                assert(slots[k] == t[k]);
            }
        }
    }
}

/// The first free voice is free and every voice before it is busy.
pub proof fn lemma_first_free(slots: Seq<(bool, u32)>)
    ensures
        0 <= first_free(slots) <= slots.len(),
        first_free(slots) < slots.len() ==> !slots[first_free(slots)].0,
        forall|k: int| 0 <= k < first_free(slots) ==> (#[trigger] slots[k]).0,
    decreases slots.len(),
{
    if slots.len() > 0 {
        let t = slots.drop_last();
        lemma_first_free(t);
        assert forall|k: int| 0 <= k < first_free(slots) implies (#[trigger] slots[k]).0 by {
            if k < t.len() {
                assert(slots[k] == t[k]);
            }
        }
        if first_free(t) < t.len() {
            assert(slots[first_free(t)] == t[first_free(t)]);
        }
    }
}

/// The voice that plays a new note, given each voice's `(active, id)`: the
/// first free one, else the oldest (lowest id, first of equals); `None`
/// without voices.
pub fn pick_voice(slots: &Vec<(bool, u32)>) -> (r: Option<usize>)
    ensures
        match chosen_voice(slots@) {
            Some(i) => r == Some(i as usize),
            None => r is None,
        },
        r matches Some(i) ==> i < slots@.len(),
{
    let n = slots.len();
    if n == 0 {
        return None;
    }
    let mut free: usize = 0;
    let mut oldest: usize = 0;
    let mut i: usize = 0;
    while i < n
        invariant
            n == slots@.len(),
            n > 0,
            i <= n,
            free == first_free(slots@.take(i as int)),
            i > 0 ==> oldest == oldest_voice(slots@.take(i as int)),
            i == 0 ==> oldest == 0,
            oldest < n,
        decreases n - i,
    {
        proof {
            let t = slots@.take(i + 1);
            assert(t.drop_last() =~= slots@.take(i as int));
            assert(t.last() == slots@[i as int]);
            lemma_first_free(slots@.take(i as int));
            if i > 0 {
                lemma_oldest_voice(slots@.take(i as int));
                assert(t[oldest as int] == slots@[oldest as int]);
            }
        }
        if free == i && !slots[i].0 {
            free = i;
        } else if free == i {
            free = i + 1;
        }
        if i > 0 && slots[i].1 < slots[oldest].1 {
            oldest = i;
        }
        i = i + 1;
    }
    proof {
        assert(slots@.take(n as int) =~= slots@);
    }
    if free < n {
        Some(free)
    } else {
        Some(oldest)
    }
}

} // verus!
