//! The binder: which bind group is bound at each slot, which layout the
//! pipeline expects there, and which slots must be bound anew when either
//! changes.

use vstd::prelude::*;
use crate::command::BinderError;
use crate::id::Id;
use crate::resource::{BindGroupInfo, PipelineLayout, MAX_BIND_GROUPS};

verus! {

/// A bind group that is bound, with the places of its dynamic offsets and
/// of what it uses in the tables of the pass.
#[derive(Clone, Copy, Debug, PartialEq, Eq, Structural)]
pub struct BoundGroup {
    pub info: BindGroupInfo,
    pub used_start: usize,
    pub used_len: usize,
    pub offsets_start: usize,
    pub offsets_len: usize,
}

/// One slot of the binder.
#[derive(Clone, Copy, Debug, PartialEq, Eq, Structural)]
pub struct BinderEntry {
    /// The bind group bound at the slot.
    pub assigned: Option<BoundGroup>,
    /// The layout the pipeline expects at the slot.
    pub expected: Option<Id>,
}

/// Whether the slot is fine as it is: nothing is expected of it, or what is
/// bound has the expected layout.
pub open spec fn entry_valid(e: BinderEntry) -> bool {
    e.expected is None || (e.assigned is Some && e.assigned->0.info.layout == e.expected->0)
}

/// Whether the slot takes part in a dispatch: something is bound and
/// something is expected.
pub open spec fn entry_active(e: BinderEntry) -> bool {
    e.assigned is Some && e.expected is Some
}

/// The first slot from `i` on that is not valid, or the number of slots.
pub open spec fn first_invalid(entries: Seq<BinderEntry>, i: int) -> int
    decreases entries.len() - i,
{
    if i < 0 || i >= entries.len() {
        entries.len() as int
    } else if !entry_valid(entries[i]) {
        i
    } else {
        first_invalid(entries, i + 1)
    }
}

/// The slots that must be bound anew after a change at `start`: from
/// `start` up to the first slot that is not valid.
pub open spec fn rebind_range(entries: Seq<BinderEntry>, start: int) -> (int, int) {
    let end = first_invalid(entries, 0);
    (
        start,
        if end > start {
            end
        } else {
            start
        },
    )
}

/// The first slot from `i` on, among those the pipeline layout has, at
/// which another layout was expected so far; or the number of its slots.
pub open spec fn first_changed(entries: Seq<BinderEntry>, layouts: Seq<Id>, i: int) -> int
    decreases layouts.len() - i,
{
    if i < 0 || i >= layouts.len() || i >= entries.len() {
        layouts.len() as int
    } else if entries[i].expected != Some(layouts[i]) {
        i
    } else {
        first_changed(entries, layouts, i + 1)
    }
}

/// The slots after a pipeline layout was set: what is bound stays, and the
/// layouts of the pipeline layout are expected.
pub open spec fn expect_layouts(entries: Seq<BinderEntry>, layouts: Seq<Id>) -> Seq<BinderEntry> {
    Seq::new(
        entries.len(),
        |i: int|
            BinderEntry {
                assigned: entries[i].assigned,
                expected: if i < layouts.len() {
                    Some(layouts[i])
                } else {
                    None
                },
            },
    )
}

/// What keeps a dispatch from running with the slots from `i` on: the first
/// slot that expects a layout and has no bind group, or one of another
/// layout.
pub open spec fn incompatibility(entries: Seq<BinderEntry>, i: int) -> Option<BinderError>
    decreases entries.len() - i,
{
    if i < 0 || i >= entries.len() {
        None
    } else if entry_valid(entries[i]) {
        incompatibility(entries, i + 1)
    } else if entries[i].assigned is None {
        Some(BinderError::MissingBindGroup { index: i as usize })
    } else {
        Some(
            BinderError::IncompatibleBindGroup {
                index: i as usize,
                expected: entries[i].expected->0,
                assigned: entries[i].assigned->0.info.layout,
            },
        )
    }
}

/// The binder of a pass that is replayed.
pub struct Binder {
    /// The pipeline layout that was set last.
    pub pipeline_layout: Option<Id>,
    pub entries: Vec<BinderEntry>,
}

impl Binder {
    pub open spec fn wf(&self) -> bool {
        self.entries@.len() == MAX_BIND_GROUPS
    }

    /// A binder with nothing bound and nothing expected.
    pub fn new() -> (b: Self)
        ensures
            b.wf(),
            b.pipeline_layout is None,
            forall|i: int|
                0 <= i < 8 ==> (#[trigger] b.entries@[i]) == (BinderEntry {
                    assigned: None,
                    expected: None,
                }),
    {
        let mut entries: Vec<BinderEntry> = Vec::new();
        while entries.len() < 8
            invariant
                entries@.len() <= 8,
                forall|i: int|
                    0 <= i < entries@.len() ==> (#[trigger] entries@[i]) == (BinderEntry {
                        assigned: None,
                        expected: None,
                    }),
            decreases 8 - entries@.len(),
        {
            entries.push(BinderEntry { assigned: None, expected: None });
        }
        Binder { pipeline_layout: None, entries }
    }

    fn is_valid(e: &BinderEntry) -> (b: bool)
        ensures
            b == entry_valid(*e),
    {
        match e.expected {
            None => true,
            Some(expected) => match e.assigned {
                Some(group) => group.info.layout == expected,
                None => false,
            },
        }
    }

    fn find_invalid(&self) -> (end: usize)
        requires
            self.wf(),
        ensures
            end == first_invalid(self.entries@, 0),
            end <= 8,
    {
        let mut i: usize = 0;
        while i < self.entries.len()
            invariant
                self.wf(),
                i <= 8,
                first_invalid(self.entries@, 0) == first_invalid(self.entries@, i as int),
            decreases 8 - i,
        {
            if !Self::is_valid(&self.entries[i]) {
                return i;
            }
            i += 1;
        }
        i
    }

    fn find_changed(&self, layout: &PipelineLayout) -> (start: usize)
        requires
            self.wf(),
            layout.wf(),
        ensures
            start == first_changed(self.entries@, layout.layouts(), 0),
            start <= layout.group_count,
    {
        let mut i: usize = 0;
        while i < layout.group_count
            invariant
                self.wf(),
                layout.wf(),
                layout.group_layouts@.len() == 8,
                i <= layout.group_count,
                first_changed(self.entries@, layout.layouts(), 0) == first_changed(
                    self.entries@,
                    layout.layouts(),
                    i as int,
                ),
            decreases layout.group_count - i,
        {
            let differs = match self.entries[i].expected {
                Some(e) => e != layout.group_layouts[i],
                None => true,
            };
            if differs {
                return i;
            }
            i += 1;
        }
        i
    }

    /// Binds a group at a slot, and returns the slots that the native
    /// encoder must be told anew.
    pub fn assign_group(&mut self, index: usize, group: BoundGroup) -> (range: (usize, usize))
        requires
            old(self).wf(),
            index < MAX_BIND_GROUPS,
        ensures
            final(self).wf(),
            final(self).pipeline_layout == old(self).pipeline_layout,
            final(self).entries@ == old(self).entries@.update(
                index as int,
                BinderEntry {
                    assigned: Some(group),
                    expected: old(self).entries@[index as int].expected,
                },
            ),
            (range.0 as int, range.1 as int) == rebind_range(final(self).entries@, index as int),
            range.0 <= range.1 <= 8,
    {
        let expected = self.entries[index].expected;
        self.entries.set(index, BinderEntry { assigned: Some(group), expected });
        let end = self.find_invalid();
        if end > index {
            (index, end)
        } else {
            (index, index)
        }
    }

    /// Sets the layouts that the pipeline expects, and returns the slots
    /// that the native encoder must be told anew: from the first slot whose
    /// expected layout changed.
    pub fn change_pipeline_layout(&mut self, layout: &PipelineLayout) -> (range: (usize, usize))
        requires
            old(self).wf(),
            layout.wf(),
        ensures
            final(self).wf(),
            final(self).pipeline_layout == Some(layout.id),
            final(self).entries@ == expect_layouts(old(self).entries@, layout.layouts()),
            (range.0 as int, range.1 as int) == rebind_range(
                final(self).entries@,
                first_changed(old(self).entries@, layout.layouts(), 0),
            ),
            range.0 <= range.1 <= 8,
    {
        let ghost layouts = layout.layouts();
        let start = self.find_changed(layout);
        let mut k: usize = 0;
        while k < 8
            invariant
                self.wf(),
                old(self).wf(),
                layout.wf(),
                layouts == layout.layouts(),
                layout.group_layouts@.len() == 8,
                k <= 8,
                forall|j: int|
                    0 <= j < k ==> (#[trigger] self.entries@[j]) == expect_layouts(
                        old(self).entries@,
                        layouts,
                    )[j],
                forall|j: int| k <= j < 8 ==> (#[trigger] self.entries@[j]) == old(self).entries@[j],
            decreases 8 - k,
        {
            let assigned = self.entries[k].assigned;
            let expected = if k < layout.group_count {
                Some(layout.group_layouts[k])
            } else {
                None
            };
            self.entries.set(k, BinderEntry { assigned, expected });
            k += 1;
        }
        assert(self.entries@ =~= expect_layouts(old(self).entries@, layouts));
        self.pipeline_layout = Some(layout.id);
        let end = self.find_invalid();
        if end > start {
            (start, end)
        } else {
            (start, start)
        }
    }

    /// Whether a dispatch can run with what is bound: at every slot that
    /// the pipeline expects a layout, a bind group of that layout is bound.
    pub fn check_compatibility(&self) -> (r: Result<(), BinderError>)
        requires
            self.wf(),
        ensures
            r == match incompatibility(self.entries@, 0) {
                Some(e) => Err::<(), BinderError>(e),
                None => Ok(()),
            },
    {
        let mut i: usize = 0;
        while i < self.entries.len()
            invariant
                self.wf(),
                i <= 8,
                incompatibility(self.entries@, 0) == incompatibility(self.entries@, i as int),
            decreases 8 - i,
        {
            let e = self.entries[i];
            if !Self::is_valid(&e) {
                match e.assigned {
                    None => {
                        return Err(BinderError::MissingBindGroup { index: i });
                    },
                    Some(group) => {
                        match e.expected {
                            Some(expected) => {
                                return Err(
                                    BinderError::IncompatibleBindGroup {
                                        index: i,
                                        expected,
                                        assigned: group.info.layout,
                                    },
                                );
                            },
                            None => {},
                        }
                    },
                }
            }
            i += 1;
        }
        Ok(())
    }
}

/// Setting the layout that is set already expects nothing new: no slot
/// changes, and no slot that the pipeline layout has needs to be bound anew
/// on its account.
pub proof fn law_same_layout_changes_nothing(entries: Seq<BinderEntry>, layouts: Seq<Id>)
    requires
        entries.len() == MAX_BIND_GROUPS,
        layouts.len() <= MAX_BIND_GROUPS,
        forall|i: int|
            0 <= i < 8 ==> (#[trigger] entries[i]).expected == if i < layouts.len() {
                Some(layouts[i])
            } else {
                None::<Id>
            },
    ensures
        expect_layouts(entries, layouts) == entries,
        first_changed(entries, layouts, 0) == layouts.len(),
{
    assert(expect_layouts(entries, layouts) =~= entries);
    lemma_first_changed_none(entries, layouts, 0);
}

proof fn lemma_first_changed_none(entries: Seq<BinderEntry>, layouts: Seq<Id>, i: int)
    requires
        0 <= i,
        layouts.len() <= entries.len(),
        forall|j: int| i <= j < layouts.len() ==> (#[trigger] entries[j]).expected == Some(layouts[j]),
    ensures
        first_changed(entries, layouts, i) == layouts.len(),
    decreases layouts.len() - i,
{
    if i < layouts.len() {
        lemma_first_changed_none(entries, layouts, i + 1);
    }
}

/// A dispatch can run exactly when every slot is valid.
pub proof fn law_compatible_iff_all_valid(entries: Seq<BinderEntry>, i: int)
    requires
        0 <= i,
    ensures
        incompatibility(entries, i) is None <==> forall|j: int|
            i <= j < entries.len() ==> entry_valid(#[trigger] entries[j]),
    decreases entries.len() - i,
{
    if i < entries.len() {
        law_compatible_iff_all_valid(entries, i + 1);
    }
}

} // verus!
