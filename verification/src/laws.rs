//! What holds of the layer and its slot manager whatever units are created,
//! entered and ended.

use crate::display::cloned_style;
use crate::display::RowKey;
use crate::slots::above;
use crate::slots::entered;
use crate::slots::lemma_finish_same_order;
use crate::slots::lemma_finish_wf;
use crate::slots::lemma_insert_new;
use crate::slots::lemma_reconfigure_wf;
use crate::slots::lemma_show_same_order;
use crate::slots::lemma_show_wf;
use crate::slots::lemma_skip_stale;
use crate::slots::lemma_skip_stale_front;
use crate::slots::lemma_unit_sets;
use crate::slots::same_order;
use crate::slots::showing;
use crate::slots::skip_stale;
use crate::slots::waiting;
use crate::slots::without;
use crate::slots::Slots;
use crate::span_context::RowState;
use crate::span_context::SpanView;
use crate::tree::LayerView;
use indicatif::ProgressStyle;
use vstd::prelude::*;

verus! {

/// Starting a unit keeps the layer well formed.
pub proof fn lemma_started_wf(layer: LayerView, id: u64)
    requires
        layer.wf(),
    ensures
        layer.started(id).wf(),
{
    if layer.units.contains_key(id) && layer.units[id].state == RowState::NotEntered {
        let unit = layer.units[id];
        let after = layer.started(id);
        lemma_show_wf(layer.slots, showing(layer.units), waiting(layer.units), unit.parent, id);
        if layer.slots.has_free_slot() {
            assert(showing(after.units) =~= showing(layer.units).insert(id));
            assert(waiting(after.units) =~= waiting(layer.units));
        } else {
            assert(showing(after.units) =~= showing(layer.units));
            assert(waiting(after.units) =~= waiting(layer.units).insert(id));
        }
    }
}

/// Entering a unit keeps the layer well formed, and leaves the levels, the
/// parents and the limit as they are.
pub proof fn lemma_entered_wf(layer: LayerView, id: u64)
    requires
        layer.wf(),
    ensures
        layer.entered(id).wf(),
        layer.entered(id).slots.max == layer.slots.max,
        layer.entered(id).units.dom() == layer.units.dom(),
    decreases layer.level_of(id),
{
    if layer.units.contains_key(id) && layer.units[id].state == RowState::NotEntered {
        if layer.parent_first(id) {
            let parent = layer.units[id].parent.unwrap();
            lemma_entered_wf(layer, parent);
            lemma_started_wf(layer.entered(parent), id);
        } else {
            lemma_started_wf(layer, id);
        }
    }
}

/// The end of a unit keeps the layer well formed.
pub proof fn lemma_closed_wf(layer: LayerView, id: u64)
    requires
        layer.wf(),
    ensures
        layer.closed(id).wf(),
{
    if layer.units.contains_key(id) {
        let others = layer.units.remove(id);
        assert(others.insert(id, layer.units[id]) =~= layer.units);
        lemma_finish_wf(layer.slots, id, layer.units[id], others);
        lemma_finish_records(layer.slots, id, layer.units[id].state, others);
    }
}

/// Finishing a unit changes no record but in its state and in whether its
/// progress bar ticks by itself, and makes none.
pub proof fn lemma_finish_records(slots: Slots, id: u64, state: RowState, units: Map<u64, SpanView>)
    ensures
        slots.finish(id, state, units).1.dom() == units.dom(),
        forall|other: u64| #[trigger]
            units.contains_key(other) ==> slots.finish(id, state, units).1[other] == (SpanView {
                state: slots.finish(id, state, units).1[other].state,
                tick: slots.finish(id, state, units).1[other].tick,
                ..units[other]
            }),
        slots.finish(id, state, units).0.max == slots.max,
        slots.finish(id, state, units).0.footer.is_some() == slots.footer.is_some(),
{
    if state == RowState::Visible {
        lemma_skip_stale(slots.release(id).queue, units);
    }
}

/// The visible count never exceeds the limit: entering a unit keeps it at or
/// below the limit.
pub proof fn lemma_enter_within_limit(layer: LayerView, id: u64)
    requires
        layer.wf(),
        layer.slots.active <= layer.slots.max,
    ensures
        layer.entered(id).slots.active <= layer.entered(id).slots.max,
    decreases layer.level_of(id),
{
    if layer.units.contains_key(id) && layer.units[id].state == RowState::NotEntered {
        if layer.parent_first(id) {
            lemma_enter_within_limit(layer, layer.units[id].parent.unwrap());
        }
    }
}

/// The visible count never exceeds the limit: the end of a unit, and the
/// finishing of its progress bar, keep it at or below the limit.
pub proof fn lemma_finish_within_limit(
    slots: Slots,
    id: u64,
    unit: SpanView,
    units: Map<u64, SpanView>,
)
    requires
        !units.contains_key(id),
        slots.wf_units(units.insert(id, unit)),
        slots.active <= slots.max,
    ensures
        slots.finish(id, unit.state, units).0.active <= slots.finish(id, unit.state, units).0.max,
{
    lemma_finish_counts(slots, id, unit, units);
}

/// The visible count never exceeds the limit: the end of a unit, and the
/// finishing of its progress bar while the unit goes on, keep it at or below
/// the limit.
pub proof fn lemma_close_within_limit(layer: LayerView, id: u64)
    requires
        layer.wf(),
        layer.slots.active <= layer.slots.max,
    ensures
        layer.closed(id).slots.active <= layer.closed(id).slots.max,
        layer.cleared(id).slots.active <= layer.cleared(id).slots.max,
{
    if layer.units.contains_key(id) {
        let others = layer.units.remove(id);
        assert(others.insert(id, layer.units[id]) =~= layer.units);
        lemma_finish_within_limit(layer.slots, id, layer.units[id], others);
    }
}

/// The visible count and the pending count together are the number of units
/// that have a progress bar: the units that were entered and whose progress
/// bar was not finished since.
pub proof fn lemma_counts(layer: LayerView)
    requires
        layer.wf(),
    ensures
        layer.slots.active + layer.slots.pending == entered(layer.units).len(),
        layer.slots.active == showing(layer.units).len(),
        layer.slots.pending == waiting(layer.units).len(),
{
    lemma_unit_sets(layer.units);
}

/// What finishing a unit does to the counts. A unit that waited takes one off
/// the pending count and leaves the visible count. A unit on display takes one
/// off the two counts together: its slot goes to the unit promoted in its
/// place, or stays free where none waits. A unit without a progress bar
/// changes neither count. The pending count never grows.
pub proof fn lemma_finish_counts(slots: Slots, id: u64, unit: SpanView, units: Map<u64, SpanView>)
    requires
        !units.contains_key(id),
        slots.wf_units(units.insert(id, unit)),
    ensures
        ({
            let after = slots.finish(id, unit.state, units).0;
            &&& after.pending <= slots.pending
            &&& after.active <= slots.active
            &&& !unit.has_row() ==> after.active == slots.active && after.pending == slots.pending
            &&& unit.state == RowState::Hidden ==> after.active == slots.active && after.pending
                == slots.pending - 1
            &&& unit.state == RowState::Visible ==> after.active + after.pending == slots.active
                + slots.pending - 1
            &&& unit.state == RowState::Visible ==> (after.active == slots.active - 1 <==> (
            waiting(units).len() == 0 || slots.active > slots.max))
        }),
{
    let all = units.insert(id, unit);
    match unit.state {
        RowState::NotEntered | RowState::Removed => {},
        RowState::Hidden => {
            assert(waiting(all).contains(id));
        },
        RowState::Visible => {
            assert(showing(all).contains(id));
            assert(waiting(all) =~= waiting(units));
            let released = slots.release(id);
            let rest = skip_stale(released.queue, units);
            lemma_skip_stale(released.queue, units);
            if rest.len() == 0 {
                assert(waiting(units).len() == 0) by {
                    if waiting(units).len() > 0 {
                        let w = waiting(units).choose();
                        assert(waiting(units).contains(w));
                        assert(rest.contains(w));
                    }
                }
            }
        },
    }
}

/// Entering a unit a second time changes nothing: a unit gets one progress bar.
pub proof fn lemma_enter_idempotent(layer: LayerView, id: u64)
    ensures
        layer.entered(id).entered(id) == layer.entered(id),
        layer.units.contains_key(id) ==> layer.entered(id).units.contains_key(id)
            && layer.entered(id).units[id].state != RowState::NotEntered,
{
    if layer.units.contains_key(id) && layer.units[id].state == RowState::NotEntered {
        lemma_entered_records(layer, id, id);
    }
}

/// Entering a unit keeps every record, and changes none but in its state and
/// in the settings that wait for a progress bar.
pub proof fn lemma_entered_records(layer: LayerView, id: u64, other: u64)
    ensures
        layer.entered(id).units.contains_key(other) == layer.units.contains_key(other),
        layer.units.contains_key(other) ==> layer.entered(id).units[other].level
            == layer.units[other].level && layer.entered(id).units[other].parent
            == layer.units[other].parent,
        layer.units.contains_key(other) && layer.units[other].state != RowState::NotEntered
            ==> layer.entered(id).units[other] == layer.units[other],
        layer.units.contains_key(other) && layer.level_of(other) > layer.level_of(id)
            ==> layer.entered(id).units[other] == layer.units[other],
        layer.entered(id).style == layer.style,
    decreases layer.level_of(id),
{
    if layer.units.contains_key(id) && layer.units[id].state == RowState::NotEntered {
        if layer.parent_first(id) {
            lemma_entered_records(layer, layer.units[id].parent.unwrap(), other);
        }
    }
}

/// A unit's parent is started before the unit: once a unit is entered, its
/// parent, where that has a record and stands higher in the tree, has a
/// progress bar or has had one.
pub proof fn lemma_parent_started_first(layer: LayerView, id: u64)
    requires
        layer.units.contains_key(id),
        layer.units[id].state == RowState::NotEntered,
        layer.parent_first(id),
    ensures
        layer.entered(id).units.contains_key(layer.units[id].parent.unwrap()),
        layer.entered(id).units[layer.units[id].parent.unwrap()].state != RowState::NotEntered,
{
    let parent = layer.units[id].parent.unwrap();
    lemma_enter_idempotent(layer, parent);
}

/// A unit that is given a slot while its parent's row is on display gets the
/// row directly below its parent's.
pub proof fn lemma_child_below_parent(
    slots: Slots,
    shown: Set<u64>,
    queued: Set<u64>,
    parent: u64,
    id: u64,
)
    requires
        slots.wf(shown, queued),
        !shown.contains(id),
        !queued.contains(id),
        slots.has_free_slot(),
        shown.contains(parent),
    ensures
        slots.show(Some(parent), id).rows.contains(RowKey::Unit(id)),
        slots.show(Some(parent), id).rows.contains(RowKey::Unit(parent)),
        slots.show(Some(parent), id).rows.index_of(RowKey::Unit(id)) == slots.show(
            Some(parent),
            id,
        ).rows.index_of(RowKey::Unit(parent)) + 1,
{
    let rows = slots.rows;
    let p = rows.index_of(RowKey::Unit(parent));
    lemma_insert_new(rows, p + 1, RowKey::Unit(id));
    let out = slots.show(Some(parent), id).rows;
    assert(out[p] == RowKey::Unit(parent));
}

/// Without a footer configured, no footer is on display.
pub proof fn lemma_no_footer(layer: LayerView)
    requires
        layer.wf(),
        layer.slots.footer.is_none(),
    ensures
        !layer.slots.rows.contains(RowKey::Footer),
{
}

/// While a footer is on display it is the last row and not finished, and it is
/// on display exactly while a footer is configured and a unit waits.
pub proof fn lemma_footer_last(layer: LayerView)
    requires
        layer.wf(),
    ensures
        layer.slots.rows.contains(RowKey::Footer) <==> layer.slots.footer_shown(),
        layer.slots.rows.contains(RowKey::Footer) ==> layer.slots.rows.last() == RowKey::Footer,
        layer.slots.rows.contains(RowKey::Footer) ==> !layer.slots.footer.unwrap().finished,
{
}

/// Entering a unit takes no row off the display and leaves the rows on
/// display in their order.
pub proof fn lemma_enter_same_order(layer: LayerView, id: u64)
    requires
        layer.wf(),
    ensures
        same_order(layer.slots.rows, layer.entered(id).slots.rows),
        forall|key: RowKey|
            layer.slots.rows.contains(key) ==> #[trigger] layer.entered(id).slots.rows.contains(
                key,
            ),
    decreases layer.level_of(id),
{
    if layer.units.contains_key(id) && layer.units[id].state == RowState::NotEntered {
        let before = if layer.parent_first(id) {
            layer.entered(layer.units[id].parent.unwrap())
        } else {
            layer
        };
        if layer.parent_first(id) {
            lemma_enter_same_order(layer, layer.units[id].parent.unwrap());
            lemma_entered_wf(layer, layer.units[id].parent.unwrap());
        }
        if before.units.contains_key(id) && before.units[id].state == RowState::NotEntered {
            lemma_show_same_order(
                before.slots,
                showing(before.units),
                waiting(before.units),
                before.units[id].parent,
                id,
            );
        }
    }
}

/// The end of a unit leaves the rows that stay on display in their order.
pub proof fn lemma_close_same_order(layer: LayerView, id: u64)
    requires
        layer.wf(),
    ensures
        same_order(layer.slots.rows, layer.closed(id).slots.rows),
        same_order(layer.slots.rows, layer.cleared(id).slots.rows),
{
    if layer.units.contains_key(id) {
        let others = layer.units.remove(id);
        assert(others.insert(id, layer.units[id]) =~= layer.units);
        lemma_finish_same_order(layer.slots, id, layer.units[id], others);
    }
}

/// Finishing a unit's progress bar while the unit goes on keeps the layer well
/// formed.
pub proof fn lemma_cleared_wf(layer: LayerView, id: u64)
    requires
        layer.wf(),
    ensures
        layer.cleared(id).wf(),
{
    if layer.units.contains_key(id) {
        let others = layer.units.remove(id);
        assert(others.insert(id, layer.units[id]) =~= layer.units);
        lemma_finish_wf(layer.slots, id, layer.units[id], others);
        lemma_finish_records(layer.slots, id, layer.units[id].state, others);
        let after = layer.slots.finish(id, layer.units[id].state, others).1;
        let end = layer.cleared(id).units;
        assert(showing(end) =~= showing(after));
        assert(waiting(end) =~= waiting(after));
    }
}

/// What was set for a unit's progress bar before the unit was entered is what
/// the bar has once the unit is entered: the style, or a copy of the layer's
/// style with the unit's keys if none was set; the message, or the empty
/// message if none was set; the length, if one was set; and the position, or
/// position 0 if none was set.
pub proof fn lemma_entry_keeps_settings(layer: LayerView, id: u64)
    requires
        layer.units.contains_key(id),
        layer.units[id].state == RowState::NotEntered,
    ensures
        layer.entered(id).units.contains_key(id),
        layer.entered(id).units[id].has_row(),
        layer.entered(id).units[id].style == Some(
            match layer.units[id].style {
                Some(style) => style,
                None => layer.units[id].with_keys(cloned_style(layer.style)),
            },
        ),
        layer.entered(id).units[id].message == Some(
            match layer.units[id].message {
                Some(message) => message,
                None => Seq::<char>::empty(),
            },
        ),
        layer.entered(id).units[id].len == layer.units[id].len,
        layer.entered(id).units[id].pos == Some(
            match layer.units[id].pos {
                Some(pos) => pos,
                None => 0,
            },
        ),
{
    if layer.parent_first(id) {
        lemma_entered_records(layer, layer.units[id].parent.unwrap(), id);
    }
}

/// A unit only moves forward: entering a unit takes no unit back to an
/// earlier state.
pub proof fn lemma_enter_moves_forward(layer: LayerView, id: u64, other: u64)
    requires
        layer.units.contains_key(other),
    ensures
        layer.entered(id).units.contains_key(other),
        layer.entered(id).units[other].state.rank() >= layer.units[other].state.rank(),
    decreases layer.level_of(id),
{
    if layer.units.contains_key(id) && layer.units[id].state == RowState::NotEntered {
        if layer.parent_first(id) {
            lemma_enter_moves_forward(layer, layer.units[id].parent.unwrap(), other);
        }
    }
}

/// A unit only moves forward: finishing a unit takes no other unit back to an
/// earlier state, and the finished unit to its last state or nowhere.
pub proof fn lemma_finish_moves_forward(
    slots: Slots,
    id: u64,
    unit: SpanView,
    units: Map<u64, SpanView>,
    other: u64,
)
    requires
        !units.contains_key(id),
        slots.wf_units(units.insert(id, unit)),
        units.contains_key(other),
    ensures
        slots.finish(id, unit.state, units).1.contains_key(other),
        slots.finish(id, unit.state, units).1[other].state.rank() >= units[other].state.rank(),
        unit.finished().state.rank() >= unit.state.rank(),
{
    lemma_finish_promotes_one(slots, id, unit, units);
}

/// Finishing a unit promotes one unit at most, the one that has waited
/// longest: the first unit of the queue that waits. Every unit before it in the
/// queue was finished while it waited. No other record changes.
pub proof fn lemma_finish_promotes_one(
    slots: Slots,
    id: u64,
    unit: SpanView,
    units: Map<u64, SpanView>,
)
    requires
        !units.contains_key(id),
        slots.wf_units(units.insert(id, unit)),
    ensures
        ({
            let after = slots.finish(id, unit.state, units);
            let rest = skip_stale(slots.queue, units);
            &&& after.1.dom() == units.dom()
            &&& unit.state != RowState::Visible || rest.len() == 0 ==> after.1 == units
            &&& unit.state == RowState::Visible && rest.len() > 0 ==> {
                &&& waiting(units).contains(rest[0])
                &&& after.1[rest[0]].state == (if slots.active <= slots.max {
                    RowState::Visible
                } else {
                    RowState::Hidden
                })
                &&& forall|other: u64|
                    other != rest[0] && units.contains_key(other) ==> #[trigger] after.1[other]
                        == units[other]
                &&& exists|dropped: int|
                    0 <= dropped < slots.queue.len() && slots.queue[dropped] == rest[0] && forall|
                        j: int,
                    |
                        0 <= j < dropped ==> !waiting(units).contains(#[trigger] slots.queue[j])
            }
        }),
{
    if unit.state == RowState::Visible {
        let all = units.insert(id, unit);
        assert(showing(all).contains(id));
        lemma_skip_stale(slots.queue, units);
        let dropped = lemma_skip_stale_front(slots.queue, units);
    }
}

/// A row that stands below another stays below it whatever unit is entered or
/// ended, as long as both rows are on display: a child's row that went below
/// its parent's row is never found above it.
pub proof fn lemma_child_stays_below_parent(layer: LayerView, parent: u64, child: u64, id: u64)
    requires
        layer.wf(),
        above(layer.slots.rows, RowKey::Unit(parent), RowKey::Unit(child)),
    ensures
        above(layer.entered(id).slots.rows, RowKey::Unit(parent), RowKey::Unit(child)),
        layer.closed(id).slots.rows.contains(RowKey::Unit(parent)) && layer.closed(
            id,
        ).slots.rows.contains(RowKey::Unit(child)) ==> above(
            layer.closed(id).slots.rows,
            RowKey::Unit(parent),
            RowKey::Unit(child),
        ),
        layer.cleared(id).slots.rows.contains(RowKey::Unit(parent)) && layer.cleared(
            id,
        ).slots.rows.contains(RowKey::Unit(child)) ==> above(
            layer.cleared(id).slots.rows,
            RowKey::Unit(parent),
            RowKey::Unit(child),
        ),
{
    lemma_enter_same_order(layer, id);
    lemma_close_same_order(layer, id);
}

/// Another limit takes no unit's row off the display and puts none on it: the
/// rows of units stay, in their order, and so does their count; a lower limit
/// counts when the next unit is shown. The queue starts anew: no unit waits,
/// the footer is off the display, no unit goes back to where it was before,
/// and what holds of the layer at all times holds again.
pub proof fn lemma_reconfigure_keeps_rows(
    layer: LayerView,
    max: nat,
    footer: Option<ProgressStyle>,
)
    requires
        layer.wf(),
    ensures
        layer.reconfigured(max, footer).wf(),
        layer.reconfigured(max, footer).slots.active == layer.slots.active,
        layer.reconfigured(max, footer).slots.pending == 0,
        layer.reconfigured(max, footer).slots.queue.len() == 0,
        layer.reconfigured(max, footer).slots.busy(),
        !layer.reconfigured(max, footer).slots.rows.contains(RowKey::Footer),
        waiting(layer.reconfigured(max, footer).units) == Set::<u64>::empty(),
        showing(layer.reconfigured(max, footer).units) == showing(layer.units),
        forall|id: u64| #[trigger]
            layer.reconfigured(max, footer).slots.rows.contains(RowKey::Unit(id))
                <==> layer.slots.rows.contains(RowKey::Unit(id)),
        same_order(layer.slots.rows, layer.reconfigured(max, footer).slots.rows),
        forall|id: u64| #[trigger]
            layer.units.contains_key(id) ==> layer.reconfigured(max, footer).units[id].state.rank()
                >= layer.units[id].state.rank(),
{
    lemma_reconfigure_wf(layer.slots, layer.units, max, footer);
}

/// No slot stays free while a unit waits: entering a unit keeps it so.
pub proof fn lemma_enter_keeps_busy(layer: LayerView, id: u64)
    requires
        layer.wf(),
        layer.slots.busy(),
    ensures
        layer.entered(id).slots.busy(),
    decreases layer.level_of(id),
{
    if layer.units.contains_key(id) && layer.units[id].state == RowState::NotEntered {
        if layer.parent_first(id) {
            lemma_enter_keeps_busy(layer, layer.units[id].parent.unwrap());
        }
    }
}

/// No slot stays free while a unit waits: the end of a unit, and the finishing
/// of its progress bar while the unit goes on, keep it so where the visible
/// count is within the limit.
pub proof fn lemma_close_keeps_busy(layer: LayerView, id: u64)
    requires
        layer.wf(),
        layer.slots.active <= layer.slots.max,
        layer.slots.busy(),
    ensures
        layer.closed(id).slots.busy(),
        layer.cleared(id).slots.busy(),
{
    if layer.units.contains_key(id) {
        let others = layer.units.remove(id);
        assert(others.insert(id, layer.units[id]) =~= layer.units);
        lemma_finish_counts(layer.slots, id, layer.units[id], others);
        if layer.units[id].state == RowState::Visible {
            assert(waiting(layer.units) =~= waiting(others));
        }
    }
}

/// The visible count never exceeds the limit: showing a unit keeps it at or
/// below the limit.
pub proof fn lemma_show_within_limit(slots: Slots, parent: Option<u64>, id: u64)
    requires
        slots.active <= slots.max,
    ensures
        slots.show(parent, id).active <= slots.show(parent, id).max,
        slots.show(parent, id).max == slots.max,
{
}

/// Showing a unit adds one to the visible count and the pending count
/// together: to the visible count if a slot is free, and else to the pending
/// count.
pub proof fn lemma_show_counts(slots: Slots, parent: Option<u64>, id: u64)
    ensures
        slots.show(parent, id).active + slots.show(parent, id).pending == slots.active
            + slots.pending + 1,
        slots.has_free_slot() ==> slots.show(parent, id).active == slots.active + 1,
        !slots.has_free_slot() ==> slots.show(parent, id).pending == slots.pending + 1,
{
}

} // verus!
