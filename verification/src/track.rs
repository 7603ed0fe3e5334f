//! Usage tracking: which state every buffer is in, and which barriers take
//! it from the state one pass left it in to the state the next pass needs.
//!
//! Buffers are known here by their tracker index, a small dense integer, so
//! that every table is a plain array.

use vstd::prelude::*;
use crate::id::Id;
use crate::usage::{
    can_skip_barrier, invalid_state, is_invalid_state, skip_barrier, PendingTransition,
    ResourceUsageCompatibilityError,
};

verus! {

/// Hands out tracker indices and takes them back.
pub struct TrackerIndexAllocator {
    unused: Vec<u32>,
    next_index: u32,
}

impl TrackerIndexAllocator {
    pub closed spec fn wf(&self) -> bool {
        &&& self.unused@.no_duplicates()
        &&& forall|k: int| 0 <= k < self.unused@.len() ==> #[trigger] self.unused@[k] < self.next_index
    }

    /// Whether the index is handed out at present.
    pub closed spec fn is_allocated(&self, index: u32) -> bool {
        index < self.next_index && !self.unused@.contains(index)
    }

    /// One more than the largest index ever handed out.
    pub closed spec fn spec_size(&self) -> u32 {
        self.next_index
    }

    /// Whether `allocate` can hand out an index.
    pub closed spec fn has_room(&self) -> bool {
        self.unused@.len() > 0 || self.next_index < u32::MAX
    }

    pub fn new() -> (a: Self)
        ensures
            a.wf(),
            a.spec_size() == 0,
            a.has_room(),
            forall|i: u32| !a.is_allocated(i),
    {
        TrackerIndexAllocator { unused: Vec::new(), next_index: 0 }
    }

    /// Hands out an index that is not in use: one that was given back, or
    /// else the next new one. Fails only when there is none left.
    pub fn allocate(&mut self) -> (r: Option<u32>)
        requires
            old(self).wf(),
        ensures
            final(self).wf(),
            r is Some <==> old(self).has_room(),
            match r {
                Some(index) => {
                    &&& !old(self).is_allocated(index)
                    &&& final(self).is_allocated(index)
                    &&& index < final(self).spec_size()
                    &&& forall|i: u32|
                        i != index ==> final(self).is_allocated(i) == old(self).is_allocated(i)
                },
                None => *final(self) == *old(self),
            },
            old(self).spec_size() <= final(self).spec_size() <= old(self).spec_size() + 1,
    {
        if self.unused.len() == 0 && self.next_index == u32::MAX {
            return None;
        }
        let ghost before = self.unused@;
        match self.unused.pop() {
            Some(index) => {
                proof {
                    assert(before[before.len() - 1] == index);
                    assert(self.unused@ =~= before.drop_last());
                    assert forall|i: u32| i != index implies self.is_allocated(i) == old(
                        self,
                    ).is_allocated(i) by {
                        if before.contains(i) {
                            let k = choose|k: int| 0 <= k < before.len() && before[k] == i;
                            assert(self.unused@[k] == i);
                        }
                    }
                    if self.unused@.contains(index) {
                        let k = choose|k: int| 0 <= k < self.unused@.len() && self.unused@[k] == index;
                        assert(before[k] == index);
                    }
                }
                Some(index)
            },
            None => {
                assert(self.unused@ =~= before);
                let index = self.next_index;
                self.next_index = index + 1;
                Some(index)
            },
        }
    }

    /// Takes an index back. Returns whether it was in use; if it was not,
    /// nothing changes.
    pub fn free(&mut self, index: u32) -> (freed: bool)
        requires
            old(self).wf(),
        ensures
            final(self).wf(),
            freed == old(self).is_allocated(index),
            !final(self).is_allocated(index),
            forall|i: u32| i != index ==> final(self).is_allocated(i) == old(self).is_allocated(i),
            final(self).spec_size() == old(self).spec_size(),
            freed ==> final(self).has_room(),
            old(self).has_room() ==> final(self).has_room(),
    {
        if index >= self.next_index {
            return false;
        }
        let mut k: usize = 0;
        while k < self.unused.len()
            invariant
                *self == *old(self),
                self.wf(),
                k <= self.unused@.len(),
                forall|j: int| 0 <= j < k ==> self.unused@[j] != index,
            decreases self.unused@.len() - k,
        {
            if self.unused[k] == index {
                return false;
            }
            k += 1;
        }
        let ghost before = self.unused@;
        self.unused.push(index);
        proof {
            assert(self.unused@[before.len() as int] == index);
            assert forall|i: u32| i != index implies self.is_allocated(i) == old(
                self,
            ).is_allocated(i) by {
                if before.contains(i) {
                    let j = choose|j: int| 0 <= j < before.len() && before[j] == i;
                    assert(self.unused@[j] == i);
                }
            }
        }
        true
    }

    /// One more than the largest index ever handed out: the size that a
    /// table indexed by tracker index needs.
    #[verifier::when_used_as_spec(spec_size)]
    pub fn size(&self) -> (n: u32)
        ensures
            n == self.spec_size(),
    {
        self.next_index
    }
}

/// One buffer that a bind group uses, and how.
#[derive(Clone, Copy, Debug, PartialEq, Eq, Structural)]
pub struct UsedBuffer {
    /// The buffer.
    pub buffer: Id,
    /// The tracker index the buffer had when the bind group was created.
    pub index: u32,
    /// The state the bind group needs the buffer in.
    pub state: u16,
}

/// The tracker indices of a list of used buffers.
pub open spec fn used_indices(used: Seq<UsedBuffer>) -> Seq<u32> {
    Seq::new(used.len(), |i: int| used[i].index)
}

/// What merging a usage into a scope leads to.
pub struct MergeOutcome {
    /// The usages recorded after the merge.
    pub uses: Map<u32, u16>,
    /// The conflict that stopped the merge, if any.
    pub error: Option<ResourceUsageCompatibilityError>,
}

/// Merges one usage of one buffer into the usages recorded so far. A buffer
/// not seen before takes the usage; a buffer seen before takes the union,
/// unless the union is no state a buffer can be in.
pub open spec fn merge_one(uses: Map<u32, u16>, index: u32, state: u16) -> MergeOutcome {
    let current: u16 = if uses.contains_key(index) {
        uses[index]
    } else {
        0
    };
    if invalid_state(current | state) {
        MergeOutcome {
            uses,
            error: Some(
                ResourceUsageCompatibilityError { index, current_state: current, new_state: state },
            ),
        }
    } else {
        MergeOutcome { uses: uses.insert(index, current | state), error: None }
    }
}

/// Merges the first `n` of the given usages, in order, stopping at the
/// first conflict.
pub open spec fn merge_prefix(uses: Map<u32, u16>, used: Seq<UsedBuffer>, n: nat) -> MergeOutcome
    decreases n,
{
    if n == 0 {
        MergeOutcome { uses, error: None }
    } else {
        let before = merge_prefix(uses, used, (n - 1) as nat);
        if before.error is Some {
            before
        } else {
            merge_one(before.uses, used[n - 1].index, used[n - 1].state)
        }
    }
}

/// The usages of every buffer that one pass touches.
pub struct BufferUsageScope {
    state: Vec<u16>,
    owned: Vec<bool>,
}

impl BufferUsageScope {
    pub closed spec fn wf(&self) -> bool {
        &&& self.state@.len() == self.owned@.len()
        &&& self.owned@.len() <= u32::MAX as int + 1
    }

    /// The number of indices that the scope has room for: every buffer
    /// that it has seen lies below it.
    pub closed spec fn bound(&self) -> nat {
        self.owned@.len()
    }

    /// The usage recorded for each buffer that the scope has seen.
    pub closed spec fn view(&self) -> Map<u32, u16> {
        Map::new(
            |i: u32| (i as int) < self.owned@.len() && self.owned@[i as int],
            |i: u32| self.state@[i as int],
        )
    }

    /// A scope that has seen no buffer and has room for none.
    pub fn new() -> (scope: Self)
        ensures
            scope.wf(),
            scope@ == Map::<u32, u16>::empty(),
            scope.bound() == 0,
    {
        let scope = BufferUsageScope { state: Vec::new(), owned: Vec::new() };
        assert(scope@ =~= Map::<u32, u16>::empty());
        scope
    }

    /// Makes room for every index below `size`: the scope grows to `size`
    /// indices if it has room for fewer, and never shrinks. What is
    /// recorded stays.
    pub fn set_size(&mut self, size: u32)
        requires
            old(self).wf(),
        ensures
            final(self).wf(),
            final(self)@ == old(self)@,
            final(self).bound() == if old(self).bound() < size {
                size as nat
            } else {
                old(self).bound()
            },
    {
        if size > 0 {
            self.allow_index(size - 1);
        }
    }

    fn allow_index(&mut self, index: u32)
        requires
            old(self).wf(),
        ensures
            final(self).wf(),
            final(self)@ == old(self)@,
            final(self).state@.len() > index,
            final(self).state@.len() >= old(self).state@.len(),
            final(self).state@.len() == if old(self).state@.len() <= index {
                index + 1
            } else {
                old(self).state@.len() as int
            },
            forall|j: int|
                0 <= j < old(self).state@.len() ==> final(self).state@[j] == old(self).state@[j]
                    && final(self).owned@[j] == old(self).owned@[j],
            forall|j: int|
                old(self).state@.len() <= j < final(self).state@.len() ==> !final(self).owned@[j],
    {
        while self.state.len() <= index as usize
            invariant
                self.wf(),
                self@ == old(self)@,
                self.state@.len() >= old(self).state@.len(),
                self.state@.len() == old(self).state@.len() || self.state@.len() <= index + 1,
                forall|j: int|
                    0 <= j < old(self).state@.len() ==> self.state@[j] == old(self).state@[j]
                        && self.owned@[j] == old(self).owned@[j],
                forall|j: int| old(self).state@.len() <= j < self.state@.len() ==> !self.owned@[j],
            decreases index as int + 1 - self.state@.len(),
        {
            let ghost before = self@;
            self.state.push(0);
            self.owned.push(false);
            assert(self@ =~= before);
        }
    }

    /// Whether the scope has seen the buffer.
    pub fn contains(&self, index: u32) -> (b: bool)
        requires
            self.wf(),
        ensures
            b == self@.contains_key(index),
    {
        (index as usize) < self.owned.len() && self.owned[index as usize]
    }

    /// The usage recorded for the buffer, if the scope has seen it.
    pub fn get(&self, index: u32) -> (r: Option<u16>)
        requires
            self.wf(),
        ensures
            r == if self@.contains_key(index) {
                Some(self@[index])
            } else {
                None::<u16>
            },
    {
        if (index as usize) < self.owned.len() && self.owned[index as usize] {
            Some(self.state[index as usize])
        } else {
            None
        }
    }

    /// Records one more usage of a buffer. Fails, and changes nothing, when
    /// the buffer cannot be used in this way together with the ways already
    /// recorded for it in this scope.
    pub fn merge_single(&mut self, index: u32, new_state: u16) -> (r: Result<
        (),
        ResourceUsageCompatibilityError,
    >)
        requires
            old(self).wf(),
        ensures
            final(self).wf(),
            final(self)@ == merge_one(old(self)@, index, new_state).uses,
            r == match merge_one(old(self)@, index, new_state).error {
                Some(e) => Err::<(), ResourceUsageCompatibilityError>(e),
                None => Ok(()),
            },
    {
        let i = index as usize;
        let current: u16 = if i < self.owned.len() && self.owned[i] {
            self.state[i]
        } else {
            0
        };
        let merged = current | new_state;
        if is_invalid_state(merged) {
            return Err(
                ResourceUsageCompatibilityError { index, current_state: current, new_state },
            );
        }
        self.allow_index(index);
        self.state.set(i, merged);
        self.owned.set(i, true);
        assert(self@ =~= old(self)@.insert(index, merged));
        Ok(())
    }

    /// Records every usage of a bind group, in order. Stops at the first
    /// conflict; the usages before it stay recorded.
    pub fn merge_bind_group(&mut self, used: &Vec<UsedBuffer>) -> (r: Result<
        (),
        ResourceUsageCompatibilityError,
    >)
        requires
            old(self).wf(),
        ensures
            final(self).wf(),
            final(self)@ == merge_prefix(old(self)@, used@, used@.len()).uses,
            r == match merge_prefix(old(self)@, used@, used@.len()).error {
                Some(e) => Err::<(), ResourceUsageCompatibilityError>(e),
                None => Ok(()),
            },
    {
        let mut k: usize = 0;
        while k < used.len()
            invariant
                self.wf(),
                k <= used@.len(),
                merge_prefix(old(self)@, used@, k as nat).error is None,
                self@ == merge_prefix(old(self)@, used@, k as nat).uses,
            decreases used@.len() - k,
        {
            let u = used[k];
            match self.merge_single(u.index, u.state) {
                Ok(()) => {},
                Err(e) => {
                    proof {
                        lemma_merge_prefix_stops(old(self)@, used@, (k + 1) as nat, used@.len());
                    }
                    return Err(e);
                },
            }
            k += 1;
        }
        Ok(())
    }

    /// Records the usages `start..start + len` of a list, in order. Stops at
    /// the first conflict; the usages before it stay recorded.
    pub fn merge_used_range(&mut self, used: &Vec<UsedBuffer>, start: usize, len: usize) -> (r:
        Result<(), ResourceUsageCompatibilityError>)
        requires
            old(self).wf(),
            start + len <= used@.len(),
        ensures
            final(self).wf(),
            final(self)@ == merge_prefix(
                old(self)@,
                used@.subrange(start as int, start + len),
                len as nat,
            ).uses,
            r == match merge_prefix(
                old(self)@,
                used@.subrange(start as int, start + len),
                len as nat,
            ).error {
                Some(e) => Err::<(), ResourceUsageCompatibilityError>(e),
                None => Ok(()),
            },
    {
        let ghost part = used@.subrange(start as int, start + len);
        let n = used.len();
        let mut k: usize = 0;
        while k < len
            invariant
                n == used@.len(),
                self.wf(),
                k <= len,
                start + len <= used@.len(),
                part == used@.subrange(start as int, start + len),
                merge_prefix(old(self)@, part, k as nat).error is None,
                self@ == merge_prefix(old(self)@, part, k as nat).uses,
            decreases len - k,
        {
            let u = used[start + k];
            assert(part[k as int] == u);
            match self.merge_single(u.index, u.state) {
                Ok(()) => {},
                Err(e) => {
                    proof {
                        lemma_merge_prefix_stops(old(self)@, part, (k + 1) as nat, len as nat);
                    }
                    return Err(e);
                },
            }
            k += 1;
        }
        Ok(())
    }

    /// Forgets the buffer.
    pub fn remove(&mut self, index: u32)
        requires
            old(self).wf(),
        ensures
            final(self).wf(),
            final(self)@ == old(self)@.remove(index),
    {
        if (index as usize) < self.owned.len() {
            self.owned.set(index as usize, false);
        }
        assert(self@ =~= old(self)@.remove(index));
    }
}

/// Once a merge has met a conflict, more usages change nothing.
pub proof fn lemma_merge_prefix_stops(uses: Map<u32, u16>, used: Seq<UsedBuffer>, n: nat, m: nat)
    requires
        n <= m,
        merge_prefix(uses, used, n).error is Some,
    ensures
        merge_prefix(uses, used, m) == merge_prefix(uses, used, n),
    decreases m,
{
    if n < m {
        lemma_merge_prefix_stops(uses, used, n, (m - 1) as nat);
    }
}

/// A scope never records a state that a buffer cannot be in, whatever is
/// merged into it.
pub proof fn law_scope_states_stay_valid(uses: Map<u32, u16>, used: Seq<UsedBuffer>, n: nat)
    requires
        forall|i: u32| uses.contains_key(i) ==> !invalid_state(#[trigger] uses[i]),
        n <= used.len(),
    ensures
        forall|i: u32|
            merge_prefix(uses, used, n).uses.contains_key(i) ==> !invalid_state(
                #[trigger] merge_prefix(uses, used, n).uses[i],
            ),
    decreases n,
{
    if n > 0 {
        law_scope_states_stay_valid(uses, used, (n - 1) as nat);
    }
}

/// What a tracker knows: the state each buffer was first needed in, the
/// state each buffer is in now, and the barriers that are waiting to be
/// recorded.
pub struct TrackerState {
    pub start: Map<u32, u16>,
    pub end: Map<u32, u16>,
    pub pending: Seq<PendingTransition>,
}

/// The barrier that takes a buffer from one state to another.
pub open spec fn transition(index: u32, from: u16, to: u16) -> PendingTransition {
    PendingTransition { index, from, to }
}

/// Learns that a buffer is needed in `start_state` and left in `end_state`.
/// A buffer not tracked so far is taken as it comes. A tracked buffer gets a
/// barrier from the state it is in to `start_state`, unless that barrier can
/// be skipped, and is then in `end_state`.
pub open spec fn track(t: TrackerState, index: u32, start_state: u16, end_state: u16)
    -> TrackerState {
    if t.end.contains_key(index) {
        TrackerState {
            start: t.start,
            end: t.end.insert(index, end_state),
            pending: if skip_barrier(t.end[index], start_state) {
                t.pending
            } else {
                t.pending.push(transition(index, t.end[index], start_state))
            },
        }
    } else {
        TrackerState {
            start: t.start.insert(index, start_state),
            end: t.end.insert(index, end_state),
            pending: t.pending,
        }
    }
}

/// Learns, in the order of their indices, of every buffer with an index
/// below `n` that `end` knows.
pub open spec fn absorb(t: TrackerState, start: Map<u32, u16>, end: Map<u32, u16>, n: nat)
    -> TrackerState
    decreases n,
{
    if n == 0 {
        t
    } else {
        let before = absorb(t, start, end, (n - 1) as nat);
        let i = (n - 1) as u32;
        if end.contains_key(i) {
            track(before, i, start[i], end[i])
        } else {
            before
        }
    }
}

/// A tracker and a scope, after buffers moved from the scope to the tracker.
pub struct SparseOutcome {
    pub tracker: TrackerState,
    pub scope: Map<u32, u16>,
}

/// Moves the first `n` of the listed buffers, in order, from the scope to
/// the tracker. A buffer that the scope does not know (any more) is passed
/// over.
pub open spec fn move_sparse(t: TrackerState, scope: Map<u32, u16>, indices: Seq<u32>, n: nat)
    -> SparseOutcome
    decreases n,
{
    if n == 0 {
        SparseOutcome { tracker: t, scope }
    } else {
        let before = move_sparse(t, scope, indices, (n - 1) as nat);
        let i = indices[n - 1];
        if before.scope.contains_key(i) {
            SparseOutcome {
                tracker: track(before.tracker, i, before.scope[i], before.scope[i]),
                scope: before.scope.remove(i),
            }
        } else {
            before
        }
    }
}

/// The state of every buffer that a command buffer has touched so far.
pub struct BufferTracker {
    start: Vec<u16>,
    end: Vec<u16>,
    owned: Vec<bool>,
    temp: Vec<PendingTransition>,
}

impl BufferTracker {
    pub closed spec fn wf(&self) -> bool {
        &&& self.start@.len() == self.owned@.len()
        &&& self.end@.len() == self.owned@.len()
        &&& self.owned@.len() <= u32::MAX as int + 1
    }

    pub closed spec fn view(&self) -> TrackerState {
        TrackerState {
            start: Map::new(
                |i: u32| (i as int) < self.owned@.len() && self.owned@[i as int],
                |i: u32| self.start@[i as int],
            ),
            end: Map::new(
                |i: u32| (i as int) < self.owned@.len() && self.owned@[i as int],
                |i: u32| self.end@[i as int],
            ),
            pending: self.temp@,
        }
    }

    /// The number of indices that the tracker has room for: every buffer
    /// that it knows lies below it.
    pub closed spec fn bound(&self) -> nat {
        self.owned@.len()
    }

    /// The tracker knows the same buffers at the start and at the end, and
    /// all of them lie below its bound.
    pub proof fn law_start_and_end_name_same_buffers(&self)
        ensures
            self@.start.dom() == self@.end.dom(),
            forall|i: u32| self@.end.contains_key(i) ==> (i as nat) < self.bound(),
    {
        assert(self@.start.dom() =~= self@.end.dom());
    }

    /// A tracker that knows no buffer and has room for none.
    pub fn new() -> (t: Self)
        ensures
            t.wf(),
            t@.start == Map::<u32, u16>::empty(),
            t@.end == Map::<u32, u16>::empty(),
            t@.pending == Seq::<PendingTransition>::empty(),
            t.bound() == 0,
    {
        let t = BufferTracker {
            start: Vec::new(),
            end: Vec::new(),
            owned: Vec::new(),
            temp: Vec::new(),
        };
        assert(t@.start =~= Map::<u32, u16>::empty());
        assert(t@.end =~= Map::<u32, u16>::empty());
        t
    }

    fn allow_index(&mut self, index: u32)
        requires
            old(self).wf(),
        ensures
            final(self).wf(),
            final(self)@ == old(self)@,
            final(self).owned@.len() > index,
            final(self).owned@.len() == if old(self).owned@.len() <= index {
                index + 1
            } else {
                old(self).owned@.len() as int
            },
    {
        while self.owned.len() <= index as usize
            invariant
                self.wf(),
                self@ == old(self)@,
                self.owned@.len() >= old(self).owned@.len(),
                self.owned@.len() == old(self).owned@.len() || self.owned@.len() <= index + 1,
            decreases index as int + 1 - self.owned@.len(),
        {
            let ghost before = self@;
            self.start.push(0);
            self.end.push(0);
            self.owned.push(false);
            assert(self@.start =~= before.start);
            assert(self@.end =~= before.end);
        }
    }

    /// Makes room for every index below `size`: the tracker grows to
    /// `size` indices if it has room for fewer, and never shrinks. What is
    /// known stays.
    pub fn set_size(&mut self, size: u32)
        requires
            old(self).wf(),
        ensures
            final(self).wf(),
            final(self)@ == old(self)@,
            final(self).bound() == if old(self).bound() < size {
                size as nat
            } else {
                old(self).bound()
            },
    {
        if size > 0 {
            self.allow_index(size - 1);
        }
    }

    /// The state the buffer is in, if the tracker knows it.
    pub fn get(&self, index: u32) -> (r: Option<u16>)
        requires
            self.wf(),
        ensures
            r == if self@.end.contains_key(index) {
                Some(self@.end[index])
            } else {
                None::<u16>
            },
    {
        if (index as usize) < self.owned.len() && self.owned[index as usize] {
            Some(self.end[index as usize])
        } else {
            None
        }
    }

    /// Starts to track a buffer that is in the given state, forgetting what
    /// was known of it.
    pub fn insert_single(&mut self, index: u32, state: u16)
        requires
            old(self).wf(),
        ensures
            final(self).wf(),
            final(self)@.start == old(self)@.start.insert(index, state),
            final(self)@.end == old(self)@.end.insert(index, state),
            final(self)@.pending == old(self)@.pending,
    {
        self.allow_index(index);
        self.start.set(index as usize, state);
        self.end.set(index as usize, state);
        self.owned.set(index as usize, true);
        assert(self@.start =~= old(self)@.start.insert(index, state));
        assert(self@.end =~= old(self)@.end.insert(index, state));
    }

    fn track_one(&mut self, index: u32, start_state: u16, end_state: u16)
        requires
            old(self).wf(),
        ensures
            final(self).wf(),
            final(self)@ == track(old(self)@, index, start_state, end_state),
    {
        self.allow_index(index);
        let i = index as usize;
        if self.owned[i] {
            let current = self.end[i];
            if !can_skip_barrier(current, start_state) {
                self.temp.push(PendingTransition { index, from: current, to: start_state });
            }
            self.end.set(i, end_state);
        } else {
            self.start.set(i, start_state);
            self.end.set(i, end_state);
            self.owned.set(i, true);
        }
        proof {
            let goal = track(old(self)@, index, start_state, end_state);
            assert(self@.start =~= goal.start);
            assert(self@.end =~= goal.end);
            assert(self@.pending =~= goal.pending);
        }
    }

    /// Puts one buffer into the given state, and returns the barrier that
    /// this takes, if it takes one. The waiting barriers stay as they are.
    pub fn set_single(&mut self, index: u32, state: u16) -> (r: Option<PendingTransition>)
        requires
            old(self).wf(),
        ensures
            final(self).wf(),
            final(self)@.start == track(old(self)@, index, state, state).start,
            final(self)@.end == track(old(self)@, index, state, state).end,
            final(self)@.pending == old(self)@.pending,
            r == if old(self)@.end.contains_key(index) && !skip_barrier(
                old(self)@.end[index],
                state,
            ) {
                Some(transition(index, old(self)@.end[index], state))
            } else {
                None::<PendingTransition>
            },
    {
        self.allow_index(index);
        let i = index as usize;
        let mut r: Option<PendingTransition> = None;
        if self.owned[i] {
            let current = self.end[i];
            if !can_skip_barrier(current, state) {
                r = Some(PendingTransition { index, from: current, to: state });
            }
            self.end.set(i, state);
        } else {
            self.start.set(i, state);
            self.end.set(i, state);
            self.owned.set(i, true);
        }
        proof {
            let goal = track(old(self)@, index, state, state);
            assert(self@.start =~= goal.start);
            assert(self@.end =~= goal.end);
        }
        r
    }

    /// Takes over what another tracker has seen: each of its buffers is
    /// needed in the state that tracker first saw it in, which may take a
    /// barrier, and is left in the state that tracker left it in.
    pub fn set_from_tracker(&mut self, other: &BufferTracker)
        requires
            old(self).wf(),
            other.wf(),
        ensures
            final(self).wf(),
            final(self)@ == absorb(old(self)@, other@.start, other@.end, INDEX_BOUND as nat),
    {
        let mut i: usize = 0;
        while i < other.owned.len()
            invariant
                self.wf(),
                other.wf(),
                i <= other.owned@.len(),
                self@ == absorb(old(self)@, other@.start, other@.end, i as nat),
            decreases other.owned@.len() - i,
        {
            if other.owned[i] {
                self.track_one(i as u32, other.start[i], other.end[i]);
            }
            i += 1;
        }
        proof {
            lemma_absorb_beyond(
                old(self)@,
                other@.start,
                other@.end,
                other.owned@.len(),
                INDEX_BOUND as nat,
            );
        }
    }

    /// Takes over what a scope has seen: each of its buffers is needed, and
    /// left, in the state the scope recorded.
    pub fn set_from_usage_scope(&mut self, scope: &BufferUsageScope)
        requires
            old(self).wf(),
            scope.wf(),
        ensures
            final(self).wf(),
            final(self)@ == absorb(old(self)@, scope@, scope@, INDEX_BOUND as nat),
    {
        let mut i: usize = 0;
        while i < scope.owned.len()
            invariant
                self.wf(),
                scope.wf(),
                i <= scope.owned@.len(),
                self@ == absorb(old(self)@, scope@, scope@, i as nat),
            decreases scope.owned@.len() - i,
        {
            if scope.owned[i] {
                self.track_one(i as u32, scope.state[i], scope.state[i]);
            }
            i += 1;
        }
        proof {
            lemma_absorb_beyond(old(self)@, scope@, scope@, scope.owned@.len(), INDEX_BOUND as nat);
        }
    }

    /// Moves the listed buffers, in order, from a scope to this tracker:
    /// each one the scope knows is needed, and left, in the state the scope
    /// recorded, and the scope forgets it.
    pub fn set_and_remove_from_usage_scope_sparse(
        &mut self,
        scope: &mut BufferUsageScope,
        indices: &Vec<u32>,
    )
        requires
            old(self).wf(),
            old(scope).wf(),
        ensures
            final(self).wf(),
            final(scope).wf(),
            final(self)@ == move_sparse(old(self)@, old(scope)@, indices@, indices@.len()).tracker,
            final(scope)@ == move_sparse(old(self)@, old(scope)@, indices@, indices@.len()).scope,
    {
        let mut k: usize = 0;
        while k < indices.len()
            invariant
                self.wf(),
                scope.wf(),
                k <= indices@.len(),
                self@ == move_sparse(old(self)@, old(scope)@, indices@, k as nat).tracker,
                scope@ == move_sparse(old(self)@, old(scope)@, indices@, k as nat).scope,
            decreases indices@.len() - k,
        {
            let index = indices[k];
            match scope.get(index) {
                Some(state) => {
                    self.track_one(index, state, state);
                    scope.remove(index);
                },
                None => {},
            }
            k += 1;
        }
    }

    /// Moves the buffers of the entries `start..start + len` of a list, in
    /// order, from a scope to this tracker.
    pub fn move_used_range(
        &mut self,
        scope: &mut BufferUsageScope,
        used: &Vec<UsedBuffer>,
        start: usize,
        len: usize,
    )
        requires
            old(self).wf(),
            old(scope).wf(),
            start + len <= used@.len(),
        ensures
            final(self).wf(),
            final(scope).wf(),
            final(self)@ == move_sparse(
                old(self)@,
                old(scope)@,
                used_indices(used@.subrange(start as int, start + len)),
                len as nat,
            ).tracker,
            final(scope)@ == move_sparse(
                old(self)@,
                old(scope)@,
                used_indices(used@.subrange(start as int, start + len)),
                len as nat,
            ).scope,
    {
        let ghost indices = used_indices(used@.subrange(start as int, start + len));
        let n = used.len();
        let mut k: usize = 0;
        while k < len
            invariant
                n == used@.len(),
                self.wf(),
                scope.wf(),
                k <= len,
                start + len <= used@.len(),
                indices == used_indices(used@.subrange(start as int, start + len)),
                self@ == move_sparse(old(self)@, old(scope)@, indices, k as nat).tracker,
                scope@ == move_sparse(old(self)@, old(scope)@, indices, k as nat).scope,
            decreases len - k,
        {
            let index = used[start + k].index;
            assert(indices[k as int] == index);
            match scope.get(index) {
                Some(state) => {
                    self.track_one(index, state, state);
                    scope.remove(index);
                },
                None => {},
            }
            k += 1;
        }
    }

    /// Hands over the barriers that are waiting, in the order they came up,
    /// and keeps none.
    pub fn drain_transitions(&mut self) -> (barriers: Vec<PendingTransition>)
        requires
            old(self).wf(),
        ensures
            final(self).wf(),
            barriers@ == old(self)@.pending,
            final(self)@.pending == Seq::<PendingTransition>::empty(),
            final(self)@.start == old(self)@.start,
            final(self)@.end == old(self)@.end,
    {
        let mut out: Vec<PendingTransition> = Vec::new();
        out.append(&mut self.temp);
        assert(out@ =~= old(self)@.pending);
        assert(self@.pending =~= Seq::<PendingTransition>::empty());
        out
    }
}

/// Every tracker index there is lies below this.
pub const INDEX_BOUND: u64 = 0x1_0000_0000;

/// Learning of buffers beyond those that `end` knows changes nothing.
pub proof fn lemma_absorb_beyond(
    t: TrackerState,
    start: Map<u32, u16>,
    end: Map<u32, u16>,
    n: nat,
    m: nat,
)
    requires
        n <= m <= INDEX_BOUND,
        forall|i: u32| end.contains_key(i) ==> (i as nat) < n,
    ensures
        absorb(t, start, end, m) == absorb(t, start, end, n),
    decreases m,
{
    if n < m {
        lemma_absorb_beyond(t, start, end, n, (m - 1) as nat);
    }
}

/// What `absorb` leaves of the states: a buffer it learned of is in the
/// state it was told, any other buffer is where it was, and a buffer is
/// first needed in the state that whoever saw it first needed it in.
pub proof fn lemma_absorb_states(
    t: TrackerState,
    start: Map<u32, u16>,
    end: Map<u32, u16>,
    n: nat,
)
    requires
        t.start.dom() == t.end.dom(),
        n <= u32::MAX as nat + 1,
    ensures
        absorb(t, start, end, n).start.dom() == absorb(t, start, end, n).end.dom(),
        forall|i: u32|
            #![trigger absorb(t, start, end, n).end.contains_key(i)]
            absorb(t, start, end, n).end.contains_key(i) <==> t.end.contains_key(i) || ((i as nat)
                < n && end.contains_key(i)),
        forall|i: u32|
            #![trigger absorb(t, start, end, n).end[i]]
            (i as nat) < n && end.contains_key(i) ==> absorb(t, start, end, n).end[i] == end[i],
        forall|i: u32|
            #![trigger absorb(t, start, end, n).end[i]]
            t.end.contains_key(i) && !((i as nat) < n && end.contains_key(i)) ==> absorb(
                t,
                start,
                end,
                n,
            ).end[i] == t.end[i],
        forall|i: u32|
            #![trigger absorb(t, start, end, n).start[i]]
            t.end.contains_key(i) ==> absorb(t, start, end, n).start[i] == t.start[i],
        forall|i: u32|
            #![trigger absorb(t, start, end, n).start[i]]
            !t.end.contains_key(i) && (i as nat) < n && end.contains_key(i) ==> absorb(
                t,
                start,
                end,
                n,
            ).start[i] == start[i],
    decreases n,
{
    if n > 0 {
        lemma_absorb_states(t, start, end, (n - 1) as nat);
        let before = absorb(t, start, end, (n - 1) as nat);
        let after = absorb(t, start, end, n);
        assert(after.start.dom() =~= after.end.dom());
    }
}

/// Exactly the barriers that are needed: after `absorb`, a barrier waits if
/// and only if it waited before, or it takes a buffer that both sides know
/// from the state it was in to the state it is needed in and cannot be
/// skipped.
pub proof fn lemma_absorb_barriers(
    t: TrackerState,
    start: Map<u32, u16>,
    end: Map<u32, u16>,
    n: nat,
    p: PendingTransition,
)
    requires
        t.start.dom() == t.end.dom(),
        n <= u32::MAX as nat + 1,
    ensures
        absorb(t, start, end, n).pending.contains(p) <==> t.pending.contains(p) || {
            &&& (p.index as nat) < n
            &&& t.end.contains_key(p.index)
            &&& end.contains_key(p.index)
            &&& p.from == t.end[p.index]
            &&& p.to == start[p.index]
            &&& !skip_barrier(p.from, p.to)
        },
    decreases n,
{
    if n > 0 {
        let m = (n - 1) as nat;
        lemma_absorb_barriers(t, start, end, m, p);
        lemma_absorb_states(t, start, end, m);
        let before = absorb(t, start, end, m);
        let after = absorb(t, start, end, n);
        let i = m as u32;
        if end.contains_key(i) && before.end.contains_key(i) && !skip_barrier(
            before.end[i],
            start[i],
        ) {
            let added = transition(i, before.end[i], start[i]);
            assert(after.pending == before.pending.push(added));
            assert(after.pending[before.pending.len() as int] == added);
            if after.pending.contains(p) && p != added {
                let k = choose|k: int| 0 <= k < after.pending.len() && after.pending[k] == p;
                assert(before.pending[k] == p);
            }
            if before.pending.contains(p) {
                let k = choose|k: int| 0 <= k < before.pending.len() && before.pending[k] == p;
                assert(after.pending[k] == p);
            }
        }
    }
}

/// The barriers that were waiting keep waiting, in their order, and the new
/// ones come after them.
pub proof fn law_waiting_barriers_keep_waiting(
    t: TrackerState,
    start: Map<u32, u16>,
    end: Map<u32, u16>,
    n: nat,
)
    ensures
        t.pending.is_prefix_of(absorb(t, start, end, n).pending),
    decreases n,
{
    if n > 0 {
        law_waiting_barriers_keep_waiting(t, start, end, (n - 1) as nat);
    }
}

} // verus!
