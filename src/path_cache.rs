//! A memo of values derived from a segment arena's structure (such as
//! electrotonic path lengths), tagged with the arena's signature so that no
//! value computed before a structural change is ever read after it.
use crate::arena::SegmentArena;
use vstd::prelude::*;

verus! {

/// Per-segment memo, valid for one structure of the arena.
#[derive(Debug, Clone)]
pub struct PathCache<T> {
    entries: Vec<Option<T>>,
    signature: u64,
}

impl<T: Copy> PathCache<T> {
    /// The memoised values by segment number (`None` where nothing is stored).
    pub closed spec fn entries_view(&self) -> Seq<Option<T>> {
        self.entries@
    }

    /// The arena signature under which the stored values were computed.
    pub closed spec fn signature_view(&self) -> u64 {
        self.signature
    }

    /// Nothing is stored.
    pub open spec fn is_blank(&self) -> bool {
        forall|i: int| 0 <= i < self.entries_view().len() ==> #[trigger] self.entries_view()[i] is None
    }

    /// An empty memo for the current structure of `arena`.
    pub fn new(arena: &SegmentArena) -> (r: Self)
        ensures
            r.entries_view() == Seq::<Option<T>>::empty(),
            r.signature_view() == arena.signature_view(),
    {
        PathCache { entries: Vec::new(), signature: arena.signature() }
    }

    /// Drops every stored value and tags the memo with the arena's current signature.
    pub fn clear(&mut self, arena: &SegmentArena)
        ensures
            final(self).entries_view() == Seq::<Option<T>>::empty(),
            final(self).signature_view() == arena.signature_view(),
    {
        self.entries = Vec::new();
        self.signature = arena.signature();
    }

    /// Makes the memo current: when the arena changed since the values were
    /// stored, they are all dropped.
    pub fn sync(&mut self, arena: &SegmentArena)
        ensures
            final(self).signature_view() == arena.signature_view(),
            old(self).signature_view() != arena.signature_view() ==> final(self).entries_view()
                == Seq::<Option<T>>::empty(),
            old(self).signature_view() == arena.signature_view() ==> *final(self) == *old(self),
    {
        if self.signature != arena.signature() {
            self.clear(arena);
        }
    }

    /// The value stored for segment `i`, only while the arena keeps the
    /// structure it was computed for.
    pub fn get(&self, arena: &SegmentArena, i: usize) -> (r: Option<T>)
        ensures
            r is Some ==> self.signature_view() == arena.signature_view()
                && i < self.entries_view().len() && self.entries_view()[i as int] == r,
            (self.signature_view() == arena.signature_view() && i < self.entries_view().len())
                ==> r == self.entries_view()[i as int],
            self.signature_view() != arena.signature_view() ==> r is None,
    {
        if self.signature != arena.signature() || i >= self.entries.len() {
            return None;
        }
        self.entries[i]
    }

    /// Stores `value` for segment `i`; nothing else changes.
    pub fn insert(&mut self, i: usize, value: T)
        requires
            i < usize::MAX,
        ensures
            final(self).signature_view() == old(self).signature_view(),
            final(self).entries_view().len() == if i < old(self).entries_view().len() {
                old(self).entries_view().len() as int
            } else {
                i + 1
            },
            final(self).entries_view()[i as int] == Some(value),
            forall|j: int|
                0 <= j < final(self).entries_view().len() && j != i ==> #[trigger] final(self).entries_view()[j] == if j < old(self).entries_view().len() {
                    old(self).entries_view()[j]
                } else {
                    None::<T>
                },
    {
        let ghost before = self.entries@;
        while self.entries.len() <= i
            invariant
                self.entries@.len() >= before.len(),
                self.signature == old(self).signature,
                forall|j: int|
                    0 <= j < self.entries@.len() ==> #[trigger] self.entries@[j] == if j < before.len() {
                        before[j]
                    } else {
                        None::<T>
                    },
                self.entries@.len() <= if i < before.len() {
                    before.len() as int
                } else {
                    i + 1
                },
            decreases i + 1 - self.entries@.len(),
        {
            self.entries.push(None);
        }
        self.entries.set(i, Some(value));
    }
}

} // verus!
