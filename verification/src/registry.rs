//! The resource table: a generational arena from identifiers to resources.
//!
//! Every slot of the table remembers the generation of its latest occupant.
//! An identifier resolves only while the slot holds a resource of exactly
//! that generation, so an identifier that was removed never resolves again,
//! not even when the slot is handed out to a new resource.

use vstd::prelude::*;
use crate::id::{Backend, Id};

verus! {

/// What the table knows about one identifier.
pub enum Status<T> {
    /// Never handed out; may still be handed out later.
    Unused,
    /// Handed out by `prepare`, waiting for `assign`.
    Reserved,
    /// Names a resource.
    Valid(T),
    /// Names the placeholder left by a creation that failed.
    Invalid,
    /// Was removed, or can never be handed out. This status is final.
    Retired,
}

/// The error of a lookup that finds no resource.
#[derive(Clone, Copy, Debug, PartialEq, Eq, Structural)]
pub struct InvalidResourceError {
    pub id: Id,
}

/// Why `prepare` could not hand out an identifier.
#[derive(Clone, Copy, Debug, PartialEq, Eq, Structural)]
pub enum PrepareError {
    /// The identifier asked for is in use, was retired, has generation zero
    /// or belongs to another backend.
    Unavailable,
    /// Every slot the table can address is taken or exhausted.
    Exhausted,
}

/// An identifier that was reserved and must be given its resource.
pub struct FutureId {
    id: Id,
}

impl FutureId {
    pub closed spec fn spec_id(&self) -> Id {
        self.id
    }

    /// The identifier the resource will have.
    #[verifier::when_used_as_spec(spec_id)]
    pub fn id(&self) -> (id: Id)
        ensures
            id == self.spec_id(),
    {
        self.id
    }
}

enum Element<T> {
    Vacant,
    Reserved,
    Valid(T),
    Invalid,
}

struct Entry<T> {
    generation: u32,
    element: Element<T>,
}

/// A table of resources of one kind on one backend.
pub struct Registry<T> {
    backend: Backend,
    entries: Vec<Entry<T>>,
}

impl<T> Registry<T> {
    /// The representation invariant: indices fit 32 bits, and only vacant
    /// slots may carry generation zero.
    pub closed spec fn wf(&self) -> bool {
        &&& self.entries@.len() <= u32::MAX as int + 1
        &&& forall|i: int|
            0 <= i < self.entries@.len() ==> (#[trigger] self.entries@[i]).generation == 0
                ==> self.entries@[i].element is Vacant
    }

    pub closed spec fn spec_backend(&self) -> Backend {
        self.backend
    }

    /// The status of an identifier.
    pub closed spec fn status(&self, id: Id) -> Status<T> {
        if id.generation() == 0 {
            Status::Retired
        } else if id.backend() != self.backend || id.index() as int >= self.entries@.len() {
            Status::Unused
        } else {
            let e = self.entries@[id.index() as int];
            if id.generation() < e.generation {
                Status::Retired
            } else if id.generation() > e.generation {
                Status::Unused
            } else {
                match e.element {
                    Element::Vacant => Status::Retired,
                    Element::Reserved => Status::Reserved,
                    Element::Valid(t) => Status::Valid(t),
                    Element::Invalid => Status::Invalid,
                }
            }
        }
    }

    /// Whether `prepare` would hand out this very identifier.
    pub closed spec fn accepts(&self, id: Id) -> bool {
        &&& id.generation() >= 1
        &&& id.backend() == self.backend
        &&& (id.index() as int >= self.entries@.len() || {
            let e = self.entries@[id.index() as int];
            e.element is Vacant && id.generation() > e.generation
        })
    }

    /// Whether `prepare` can find an identifier by itself.
    pub closed spec fn has_room(&self) -> bool {
        ||| self.entries@.len() <= u32::MAX as int
        ||| exists|i: int| #[trigger] self.reusable(i)
    }

    closed spec fn reusable(&self, i: int) -> bool {
        &&& 0 <= i < self.entries@.len()
        &&& self.entries@[i].element is Vacant
        &&& self.entries@[i].generation < u32::MAX
    }

    /// Whether the identifier names a resource.
    pub open spec fn is_valid(&self, id: Id) -> bool {
        self.status(id) is Valid
    }

    /// Whether the identifier names a resource or a placeholder.
    pub open spec fn is_registered(&self, id: Id) -> bool {
        self.status(id) is Valid || self.status(id) is Invalid
    }

    /// The resource that a valid identifier names.
    pub open spec fn resource(&self, id: Id) -> T
        recommends
            self.is_valid(id),
    {
        self.status(id)->Valid_0
    }

    /// Whether every identifier but `id` has the status it has in `other`.
    pub open spec fn same_but(&self, other: &Self, id: Id) -> bool {
        forall|x: Id| x != id ==> #[trigger] self.status(x) == other.status(x)
    }

    /// Whether every identifier but `id` has the status it has in `before`,
    /// or was unused there and is retired now.
    pub open spec fn evolves_but(&self, before: &Self, id: Id) -> bool {
        forall|x: Id|
            x != id ==> #[trigger] self.status(x) == before.status(x) || (before.status(x) is Unused
                && self.status(x) is Retired)
    }

    /// The changes of status that one operation may make to the identifier
    /// it works on.
    pub open spec fn may_become(before: Status<T>, after: Status<T>) -> bool {
        ||| after == before
        ||| before is Unused && after is Reserved
        ||| before is Reserved && (after is Valid || after is Invalid)
        ||| before is Valid && after is Valid
        ||| (before is Valid || before is Invalid) && after is Retired
    }

    /// Whether `next` is this table after one operation on `id`.
    pub open spec fn step_at(&self, next: &Self, id: Id) -> bool {
        &&& next.evolves_but(self, id)
        &&& Self::may_become(self.status(id), next.status(id))
    }

    /// Whether `next` is this table after one operation.
    pub open spec fn step(&self, next: &Self) -> bool {
        exists|id: Id| #[trigger] self.step_at(next, id)
    }

    /// Whether each table of the sequence is the one before it after one
    /// operation.
    pub open spec fn is_history(trace: Seq<Self>) -> bool {
        forall|i: int| 0 <= i < trace.len() - 1 ==> (#[trigger] trace[i]).step(&trace[i + 1])
    }

    /// Changing what one slot holds, at the generation it has, touches the
    /// status of one identifier only.
    proof fn lemma_same_generation_frame(pre: &Self, post: &Self, id: Id)
        requires
            pre.backend == post.backend,
            id.backend() == pre.backend,
            pre.entries@.len() == post.entries@.len(),
            id.index() < pre.entries@.len(),
            forall|j: int|
                0 <= j < pre.entries@.len() && j != id.index() ==> post.entries@[j]
                    == pre.entries@[j],
            pre.entries@[id.index() as int].generation == id.generation(),
            post.entries@[id.index() as int].generation == id.generation(),
        ensures
            post.same_but(pre, id),
            forall|i: int| i != id.index() ==> pre.reusable(i) == post.reusable(i),
    {
        assert forall|x: Id| x != id implies #[trigger] post.status(x) == pre.status(x) by {
            if x.index() == id.index() && x.generation() == id.generation() && x.backend()
                == id.backend() {
                Id::lemma_parts_determine_id(x, id);
            }
        }
    }

    /// Reserving a slot at a generation above the one it has retires the
    /// generations that were skipped and touches nothing else.
    proof fn lemma_reserve_frame(pre: &Self, post: &Self, id: Id)
        requires
            pre.backend == post.backend,
            id.backend() == pre.backend,
            id.generation() >= 1,
            pre.entries@.len() <= post.entries@.len(),
            id.index() < post.entries@.len(),
            forall|j: int|
                0 <= j < pre.entries@.len() && j != id.index() ==> post.entries@[j]
                    == pre.entries@[j],
            forall|j: int|
                pre.entries@.len() <= j < post.entries@.len() && j != id.index() ==> (
                #[trigger] post.entries@[j]).generation == 0,
            post.entries@[id.index() as int].generation == id.generation(),
            id.index() < pre.entries@.len() ==> pre.entries@[id.index() as int].generation
                < id.generation() && pre.entries@[id.index() as int].element is Vacant,
        ensures
            post.evolves_but(pre, id),
            id.index() < pre.entries@.len() && pre.entries@[id.index() as int].generation + 1
                == id.generation() ==> post.same_but(pre, id),
            id.index() == pre.entries@.len() && post.entries@.len() == pre.entries@.len() + 1
                && id.generation() == 1 ==> post.same_but(pre, id),
    {
        assert forall|x: Id| x != id implies #[trigger] post.status(x) == pre.status(x) || (
        pre.status(x) is Unused && post.status(x) is Retired) by {
            if x.index() == id.index() && x.generation() == id.generation() && x.backend()
                == id.backend() {
                Id::lemma_parts_determine_id(x, id);
            }
        }
        if id.index() < pre.entries@.len() && pre.entries@[id.index() as int].generation + 1
            == id.generation() {
            assert forall|x: Id| x != id implies #[trigger] post.status(x) == pre.status(x) by {
                if x.index() == id.index() && x.generation() == id.generation() && x.backend()
                    == id.backend() {
                    Id::lemma_parts_determine_id(x, id);
                }
            }
        }
        if id.index() == pre.entries@.len() && post.entries@.len() == pre.entries@.len() + 1
            && id.generation() == 1 {
            assert forall|x: Id| x != id implies #[trigger] post.status(x) == pre.status(x) by {
                if x.index() == id.index() && x.generation() == id.generation() && x.backend()
                    == id.backend() {
                    Id::lemma_parts_determine_id(x, id);
                }
            }
        }
    }

    /// A table with room keeps it when one slot changes what it holds.
    proof fn lemma_room_kept(pre: &Self, post: &Self, index: int)
        requires
            pre.has_room(),
            pre.entries@.len() == post.entries@.len(),
            forall|i: int| i != index ==> pre.reusable(i) == post.reusable(i),
            pre.reusable(index) ==> post.reusable(index),
        ensures
            post.has_room(),
    {
        if pre.entries@.len() > u32::MAX as int {
            let i = choose|i: int| #[trigger] pre.reusable(i);
            assert(post.reusable(i));
        }
    }

    /// An empty table.
    pub fn new(backend: Backend) -> (table: Self)
        ensures
            table.wf(),
            table.spec_backend() == backend,
            table.has_room(),
            forall|id: Id|
                #[trigger] table.status(id) == if id.generation() == 0 {
                    Status::<T>::Retired
                } else {
                    Status::<T>::Unused
                },
            forall|id: Id|
                #[trigger] table.accepts(id) <==> id.generation() >= 1 && id.backend() == backend,
    {
        Registry { backend, entries: Vec::new() }
    }

    #[verifier::when_used_as_spec(spec_backend)]
    pub fn backend(&self) -> (b: Backend)
        ensures
            b == self.spec_backend(),
    {
        self.backend
    }

    /// Decides whether `prepare(Some(id))` would succeed.
    pub fn can_accept(&self, id: Id) -> (ok: bool)
        requires
            self.wf(),
        ensures
            ok == self.accepts(id),
            ok ==> self.status(id) is Unused,
    {
        let (index, generation, backend) = id.unzip();
        if generation == 0 || backend != self.backend {
            return false;
        }
        if index as usize >= self.entries.len() {
            return true;
        }
        let e = &self.entries[index as usize];
        match e.element {
            Element::Vacant => generation > e.generation,
            _ => false,
        }
    }

    /// Decides whether `prepare(None)` would succeed.
    pub fn can_prepare(&self) -> (ok: bool)
        requires
            self.wf(),
        ensures
            ok == self.has_room(),
    {
        if self.entries.len() <= u32::MAX as usize {
            return true;
        }
        self.find_reusable().is_some()
    }

    /// Finds the first vacant slot whose generation can still grow.
    fn find_reusable(&self) -> (found: Option<usize>)
        requires
            self.wf(),
        ensures
            match found {
                Some(i) => self.reusable(i as int),
                None => forall|i: int| !#[trigger] self.reusable(i),
            },
    {
        let mut i: usize = 0;
        while i < self.entries.len()
            invariant
                i <= self.entries@.len(),
                forall|j: int| 0 <= j < i ==> !#[trigger] self.reusable(j),
            decreases self.entries@.len() - i,
        {
            let e = &self.entries[i];
            if e.generation < u32::MAX {
                if let Element::Vacant = e.element {
                    return Some(i);
                }
            }
            i += 1;
        }
        None
    }

    /// Reserves an identifier: the one asked for, or else one the table
    /// picks. It resolves to nothing until `assign` or `assign_error`.
    ///
    /// An explicit identifier is refused when the table does not accept it;
    /// a free choice fails only when the table is exhausted. A refusal
    /// changes nothing.
    pub fn prepare(&mut self, id_in: Option<Id>) -> (r: Result<FutureId, PrepareError>)
        requires
            old(self).wf(),
        ensures
            final(self).wf(),
            final(self).spec_backend() == old(self).spec_backend(),
            old(self).step(final(self)),
            match r {
                Ok(fid) => {
                    &&& id_in matches Some(id) ==> fid.id() == id
                    &&& fid.id().backend() == old(self).spec_backend()
                    &&& old(self).status(fid.id()) is Unused
                    &&& final(self).status(fid.id()) is Reserved
                    &&& final(self).evolves_but(old(self), fid.id())
                    &&& id_in is None ==> final(self).same_but(old(self), fid.id())
                },
                Err(e) => {
                    &&& *final(self) == *old(self)
                    &&& e == if id_in is Some {
                        PrepareError::Unavailable
                    } else {
                        PrepareError::Exhausted
                    }
                },
            },
            r is Ok <==> match id_in {
                Some(id) => old(self).accepts(id),
                None => old(self).has_room(),
            },
    {
        match id_in {
            Some(id) => {
                if !self.can_accept(id) {
                    proof {
                        assert(self.step_at(self, id));
                    }
                    return Err(PrepareError::Unavailable);
                }
                let (index, generation, _) = id.unzip();
                while self.entries.len() <= index as usize
                    invariant
                        self.wf(),
                        self.backend == old(self).backend,
                        self.entries@.len() >= old(self).entries@.len(),
                        self.entries@.len() <= index as int + 1 || self.entries@.len() == old(
                            self,
                        ).entries@.len(),
                        forall|j: int|
                            0 <= j < old(self).entries@.len() ==> self.entries@[j] == old(
                                self,
                            ).entries@[j],
                        forall|j: int|
                            old(self).entries@.len() <= j < self.entries@.len() ==> {
                                &&& (#[trigger] self.entries@[j]).generation == 0
                                &&& self.entries@[j].element is Vacant
                            },
                    decreases index as int + 1 - self.entries@.len(),
                {
                    self.entries.push(Entry { generation: 0, element: Element::Vacant });
                }
                self.entries.set(index as usize, Entry { generation, element: Element::Reserved });
                proof {
                    Self::lemma_reserve_frame(old(self), self, id);
                    assert(old(self).step_at(self, id));
                }
                Ok(FutureId { id })
            },
            None => {
                match self.find_reusable() {
                    Some(i) => {
                        let generation = self.entries[i].generation + 1;
                        self.entries.set(i, Entry { generation, element: Element::Reserved });
                        let id = Id::zip(i as u32, generation, self.backend);
                        proof {
                            Self::lemma_reserve_frame(old(self), self, id);
                            assert(old(self).step_at(self, id));
                        }
                        Ok(FutureId { id })
                    },
                    None => {
                        let len = self.entries.len();
                        if len > u32::MAX as usize {
                            proof {
                                let any = Id::zip_spec(0, 0, self.backend);
                                assert(self.step_at(self, any));
                            }
                            return Err(PrepareError::Exhausted);
                        }
                        self.entries.push(Entry { generation: 1, element: Element::Reserved });
                        let id = Id::zip(len as u32, 1, self.backend);
                        proof {
                            Self::lemma_reserve_frame(old(self), self, id);
                            assert(old(self).step_at(self, id));
                        }
                        Ok(FutureId { id })
                    },
                }
            },
        }
    }

    /// Gives a reserved identifier its resource.
    pub fn assign(&mut self, fid: FutureId, value: T) -> (id: Id)
        requires
            old(self).wf(),
            old(self).status(fid.id()) is Reserved,
        ensures
            final(self).wf(),
            final(self).spec_backend() == old(self).spec_backend(),
            old(self).step(final(self)),
            id == fid.id(),
            final(self).status(id) == Status::Valid(value),
            final(self).same_but(old(self), id),
            forall|x: Id| old(self).accepts(x) ==> #[trigger] final(self).accepts(x),
            old(self).has_room() ==> final(self).has_room(),
    {
        let id = fid.id;
        let (index, generation, _) = id.unzip();
        self.entries.set(index as usize, Entry { generation, element: Element::Valid(value) });
        proof {
            Self::lemma_same_generation_frame(old(self), self, id);
            assert(old(self).step_at(self, id));
            if old(self).has_room() {
                Self::lemma_room_kept(old(self), self, index as int);
            }
        }
        id
    }

    /// Leaves a placeholder at a reserved identifier: lookups of it fail,
    /// and it can be removed like a resource.
    pub fn assign_error(&mut self, fid: FutureId) -> (id: Id)
        requires
            old(self).wf(),
            old(self).status(fid.id()) is Reserved,
        ensures
            final(self).wf(),
            final(self).spec_backend() == old(self).spec_backend(),
            old(self).step(final(self)),
            id == fid.id(),
            final(self).status(id) is Invalid,
            final(self).same_but(old(self), id),
            forall|x: Id| old(self).accepts(x) ==> #[trigger] final(self).accepts(x),
            old(self).has_room() ==> final(self).has_room(),
    {
        let id = fid.id;
        let (index, generation, _) = id.unzip();
        self.entries.set(index as usize, Entry { generation, element: Element::Invalid });
        proof {
            Self::lemma_same_generation_frame(old(self), self, id);
            assert(old(self).step_at(self, id));
            if old(self).has_room() {
                Self::lemma_room_kept(old(self), self, index as int);
            }
        }
        id
    }

    /// Looks an identifier up. It succeeds exactly on identifiers that name
    /// a resource, and returns that resource.
    pub fn get(&self, id: Id) -> (r: Result<&T, InvalidResourceError>)
        requires
            self.wf(),
        ensures
            match r {
                Ok(t) => self.status(id) == Status::Valid(*t),
                Err(e) => !self.is_valid(id) && e.id == id,
            },
    {
        let (index, generation, backend) = id.unzip();
        if generation == 0 || backend != self.backend || index as usize >= self.entries.len() {
            return Err(InvalidResourceError { id });
        }
        let e = &self.entries[index as usize];
        if e.generation != generation {
            return Err(InvalidResourceError { id });
        }
        match &e.element {
            Element::Valid(t) => Ok(t),
            _ => Err(InvalidResourceError { id }),
        }
    }

    /// Whether the identifier names a resource or a placeholder.
    pub fn contains(&self, id: Id) -> (b: bool)
        requires
            self.wf(),
        ensures
            b == self.is_registered(id),
    {
        let (index, generation, backend) = id.unzip();
        if generation == 0 || backend != self.backend || index as usize >= self.entries.len() {
            return false;
        }
        let e = &self.entries[index as usize];
        if e.generation != generation {
            return false;
        }
        match &e.element {
            Element::Valid(_) => true,
            Element::Invalid => true,
            _ => false,
        }
    }

    /// Replaces the resource that a valid identifier names.
    pub fn replace(&mut self, id: Id, value: T)
        requires
            old(self).wf(),
            old(self).is_valid(id),
        ensures
            final(self).wf(),
            final(self).spec_backend() == old(self).spec_backend(),
            old(self).step(final(self)),
            final(self).status(id) == Status::Valid(value),
            final(self).same_but(old(self), id),
            forall|x: Id| old(self).accepts(x) ==> #[trigger] final(self).accepts(x),
            old(self).has_room() ==> final(self).has_room(),
    {
        let (index, generation, _) = id.unzip();
        self.entries.set(index as usize, Entry { generation, element: Element::Valid(value) });
        proof {
            Self::lemma_same_generation_frame(old(self), self, id);
            assert(old(self).step_at(self, id));
            if old(self).has_room() {
                Self::lemma_room_kept(old(self), self, index as int);
            }
        }
    }

    /// Puts a resource in the place of the one that a valid identifier
    /// names, and hands the old one out.
    pub fn swap(&mut self, id: Id, value: T) -> (previous: T)
        requires
            old(self).wf(),
            old(self).is_valid(id),
        ensures
            final(self).wf(),
            final(self).spec_backend() == old(self).spec_backend(),
            old(self).step(final(self)),
            previous == old(self).resource(id),
            final(self).status(id) == Status::Valid(value),
            final(self).same_but(old(self), id),
            forall|x: Id| old(self).accepts(x) ==> #[trigger] final(self).accepts(x),
            old(self).has_room() ==> final(self).has_room(),
    {
        let (index, generation, _) = id.unzip();
        self.entries.push(Entry { generation, element: Element::Valid(value) });
        let entry = self.entries.swap_remove(index as usize);
        proof {
            Self::lemma_same_generation_frame(old(self), self, id);
            assert(old(self).step_at(self, id));
            if old(self).has_room() {
                Self::lemma_room_kept(old(self), self, index as int);
            }
        }
        match entry.element {
            Element::Valid(previous) => previous,
            _ => vstd::pervasive::unreached(),
        }
    }

    /// Drops what the identifier names and retires the identifier. Returns
    /// whether there was anything to drop; if not, nothing changes.
    pub fn remove(&mut self, id: Id) -> (removed: bool)
        requires
            old(self).wf(),
        ensures
            final(self).wf(),
            final(self).spec_backend() == old(self).spec_backend(),
            old(self).step(final(self)),
            removed == old(self).is_registered(id),
            removed ==> final(self).status(id) is Retired,
            !removed ==> *final(self) == *old(self),
            final(self).same_but(old(self), id),
            forall|x: Id| old(self).accepts(x) ==> #[trigger] final(self).accepts(x),
            old(self).has_room() ==> final(self).has_room(),
    {
        if !self.contains(id) {
            proof {
                assert(self.step_at(self, id));
            }
            return false;
        }
        let (index, generation, _) = id.unzip();
        self.entries.set(index as usize, Entry { generation, element: Element::Vacant });
        proof {
            Self::lemma_same_generation_frame(old(self), self, id);
            assert(old(self).step_at(self, id));
            if old(self).has_room() {
                Self::lemma_room_kept(old(self), self, index as int);
            }
        }
        true
    }

    /// An identifier that names a resource keeps naming that resource
    /// through every operation on another identifier.
    pub proof fn law_valid_until_touched(before: &Self, after: &Self, touched: Id, id: Id)
        requires
            before.step_at(after, touched),
            touched != id,
            before.is_valid(id),
        ensures
            after.status(id) == before.status(id),
            after.resource(id) == before.resource(id),
    {
    }

    /// One operation never revives a retired identifier.
    pub proof fn law_step_keeps_retired(before: &Self, after: &Self, id: Id)
        requires
            before.step(after),
            before.status(id) is Retired,
        ensures
            after.status(id) is Retired,
    {
        let touched = choose|touched: Id| #[trigger] before.step_at(after, touched);
        assert(before.step_at(after, touched));
    }

    /// Once an identifier is retired it stays retired whatever is done to
    /// the table afterwards, so it never resolves again: neither to the
    /// resource it named nor to a later occupant of its slot.
    pub proof fn law_retired_forever(trace: Seq<Self>, id: Id, i: int, j: int)
        requires
            Self::is_history(trace),
            0 <= i <= j < trace.len(),
            trace[i].status(id) is Retired,
        ensures
            trace[j].status(id) is Retired,
            !trace[j].is_valid(id),
        decreases j - i,
    {
        if i < j {
            Self::law_retired_forever(trace, id, i, j - 1);
            assert(trace[j - 1].step(&trace[j - 1 + 1]));
            Self::law_step_keeps_retired(&trace[j - 1], &trace[j], id);
        }
    }

    /// A retired identifier names nothing, and nothing can be reserved or
    /// assigned under it.
    pub proof fn law_retired_names_nothing(&self, id: Id)
        requires
            self.status(id) is Retired,
        ensures
            !self.is_valid(id),
            !self.is_registered(id),
            !self.accepts(id),
    {
    }

    /// Only an unused identifier is accepted.
    pub proof fn law_only_unused_is_accepted(&self, id: Id)
        requires
            self.accepts(id),
        ensures
            self.status(id) is Unused,
    {
    }
}

} // verus!
