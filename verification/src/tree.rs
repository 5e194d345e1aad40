//! The layer as mathematics: the records of the units, which form a tree, the
//! slot manager, and what the creation, the entry and the end of a unit do to
//! both.

use crate::slots::none_waiting;
use crate::slots::Slots;
use crate::span_context::repeated;
use crate::span_context::RowState;
use crate::span_context::SpanView;
use indicatif::ProgressStyle;
use vstd::prelude::*;

verus! {

/// The layer as plain values.
pub struct LayerView {
    /// The slot manager.
    pub slots: Slots,
    /// The records of the units that were created and did not end.
    pub units: Map<u64, SpanView>,
    /// The indent of one level in a child's prefix.
    pub indent: Seq<char>,
    /// The symbol that ends a child's prefix.
    pub symbol: Seq<char>,
    /// The style that a unit's progress bar gets, with the unit's keys added,
    /// where no style was set for the unit.
    pub style: ProgressStyle,
}

/// The first of the ancestors, nearest first, that has a record.
pub open spec fn nearest_known(ancestors: Seq<u64>, units: Map<u64, SpanView>) -> Option<u64>
    decreases ancestors.len(),
{
    if ancestors.len() == 0 {
        None
    } else if units.contains_key(ancestors[0]) {
        Some(ancestors[0])
    } else {
        nearest_known(ancestors.drop_first(), units)
    }
}

/// The nearest ancestor with a record has a record, and is one of the
/// ancestors.
pub proof fn lemma_nearest_known(ancestors: Seq<u64>, units: Map<u64, SpanView>)
    ensures
        nearest_known(ancestors, units).is_some() ==> units.contains_key(
            nearest_known(ancestors, units).unwrap(),
        ) && ancestors.contains(nearest_known(ancestors, units).unwrap()),
        nearest_known(ancestors, units).is_none() ==> forall|i: int|
            0 <= i < ancestors.len() ==> !units.contains_key(#[trigger] ancestors[i]),
    decreases ancestors.len(),
{
    if ancestors.len() > 0 && !units.contains_key(ancestors[0]) {
        let tail = ancestors.drop_first();
        lemma_nearest_known(tail, units);
        if nearest_known(tail, units).is_none() {
            assert forall|i: int| 0 <= i < ancestors.len() implies !units.contains_key(
                #[trigger] ancestors[i],
            ) by {
                if i > 0 {
                    assert(tail[i - 1] == ancestors[i]);
                }
            }
        }
    }
}

impl LayerView {
    /// The record of a new unit: not entered, below the nearest ancestor with
    /// a record and one level deeper than it, with a prefix of one indent for
    /// each level and the child symbol; a unit without such an ancestor has
    /// level 0 and no prefix.
    pub open spec fn new_unit(
        self,
        id: u64,
        name: Seq<char>,
        fields: Seq<char>,
        ancestors: Seq<u64>,
    ) -> SpanView {
        let parent = nearest_known(ancestors, self.units);
        let level = if parent.is_some() {
            (self.units[parent.unwrap()].level + 1) as u16
        } else {
            0u16
        };
        SpanView {
            id,
            state: RowState::NotEntered,
            style: None,
            len: None,
            pos: None,
            message: None,
            parent,
            fields,
            name,
            child_prefix: if parent.is_some() {
                repeated(self.indent, level as nat) + self.symbol
            } else {
                Seq::<char>::empty()
            },
            level,
            finish_message: None,
            tick: None,
        }
    }

    /// The level of the nearest of the ancestors that has a record; 0 where
    /// none has.
    pub open spec fn parent_level(self, ancestors: Seq<u64>) -> nat {
        let parent = nearest_known(ancestors, self.units);
        if parent.is_some() {
            self.units[parent.unwrap()].level as nat
        } else {
            0
        }
    }

    /// The level of a unit; 0 for a unit without a record.
    pub open spec fn level_of(self, id: u64) -> nat {
        if self.units.contains_key(id) {
            self.units[id].level as nat
        } else {
            0
        }
    }

    /// Whether the unit's parent is entered before the unit: the parent has a
    /// record, and stands higher in the tree than the unit. A parent stands
    /// one level above its child from the child's creation on; only where the
    /// parent ended before the child and its id has gone to another unit can
    /// the unit of that id stand elsewhere.
    pub open spec fn parent_first(self, id: u64) -> bool {
        let unit = self.units[id];
        &&& unit.parent.is_some()
        &&& self.units.contains_key(unit.parent.unwrap())
        &&& self.units[unit.parent.unwrap()].level < unit.level
    }

    /// A unit that was not entered gets its progress bar, with the settings
    /// made so far and, where no style was set for it, with the layer's style
    /// and the unit's keys; and it is shown: on display if a slot is free, else
    /// waiting.
    pub open spec fn started(self, id: u64) -> LayerView {
        if self.units.contains_key(id) && self.units[id].state == RowState::NotEntered {
            let unit = self.units[id];
            LayerView {
                slots: self.slots.show(unit.parent, id),
                units: self.units.insert(
                    id,
                    if self.slots.has_free_slot() {
                        unit.with_bar(RowState::Hidden, self.style).shown(
                            self.slots.tick.default_tick_interval,
                        )
                    } else {
                        unit.with_bar(RowState::Hidden, self.style)
                    },
                ),
                ..self
            }
        } else {
            self
        }
    }

    /// A unit is entered. On the first entry its ancestors are started, from
    /// the root down, as far as they were not entered themselves; then the
    /// unit is started. A later entry changes nothing, nor does the entry of a
    /// unit without a record.
    pub open spec fn entered(self, id: u64) -> LayerView
        decreases self.level_of(id),
    {
        if !self.units.contains_key(id) || self.units[id].state != RowState::NotEntered {
            self
        } else if self.parent_first(id) {
            self.entered(self.units[id].parent.unwrap()).started(id)
        } else {
            self.started(id)
        }
    }

    /// A unit ends: its progress bar is finished and its record is dropped.
    pub open spec fn closed(self, id: u64) -> LayerView {
        if self.units.contains_key(id) {
            let after = self.slots.finish(id, self.units[id].state, self.units.remove(id));
            LayerView { slots: after.0, units: after.1, ..self }
        } else {
            self
        }
    }

    /// A unit's progress bar is finished while the unit goes on: the record
    /// stays, and the unit gets no progress bar again.
    pub open spec fn cleared(self, id: u64) -> LayerView {
        if self.units.contains_key(id) {
            let after = self.slots.finish(id, self.units[id].state, self.units.remove(id));
            LayerView {
                slots: after.0,
                units: after.1.insert(id, self.units[id].finished()),
                ..self
            }
        } else {
            self
        }
    }

    /// The layer gets another limit and another choice of footer, and the
    /// queue starts anew: the units that waited are finished and get no
    /// progress bar, no unit waits, and the footer is off the display. Rows of
    /// units stay where they are.
    pub open spec fn reconfigured(self, max: nat, footer: Option<ProgressStyle>) -> LayerView {
        LayerView {
            slots: self.slots.reconfigure(max, footer),
            units: none_waiting(self.units),
            ..self
        }
    }

    /// What holds of the layer at all times: see [`Slots::wf`]. Each record
    /// stands under the id of its unit.
    pub open spec fn wf(self) -> bool {
        &&& self.slots.wf_units(self.units)
        &&& forall|id: u64| #[trigger] self.units.contains_key(id) ==> self.units[id].id == id
    }

    /// The layer with one record put in place.
    pub open spec fn with_unit(self, id: u64, unit: SpanView) -> LayerView {
        LayerView { units: self.units.insert(id, unit), ..self }
    }

    /// The layer after the record of a unit, if the layer has it, was changed.
    pub open spec fn changed(self, id: u64, change: spec_fn(SpanView) -> SpanView) -> LayerView {
        if self.units.contains_key(id) {
            self.with_unit(id, change(self.units[id]))
        } else {
            self
        }
    }
}

} // verus!
