//! The slot manager as mathematics: the rows on display, the units that wait,
//! and what showing and finishing a unit does to them.

use crate::display::steady;
use crate::display::RowKey;
use crate::pb_manager::TickSettings;
use crate::span_context::RowState;
use crate::span_context::SpanView;
use indicatif::ProgressStyle;
use std::time::Duration;
use vstd::prelude::*;

verus! {

/// The footer: the row that tells how many units wait.
pub struct Footer {
    /// The style that the footer was configured with, to which the key for
    /// the number of waiting units is added.
    pub style: ProgressStyle,
    /// Whether the footer's progress bar is finished: it is when the footer
    /// has left the display, and is not when the footer goes on display.
    pub finished: bool,
    /// The position of the footer's progress bar.
    pub position: u64,
    /// The interval at which the footer's progress bar ticks by itself; `None`
    /// for a bar that does not.
    pub tick: Option<Duration>,
    /// The message of the footer's progress bar.
    pub message: Seq<char>,
}

impl Footer {
    /// The footer when it is configured: at its start, not ticking by itself,
    /// and without a message.
    pub open spec fn fresh(style: ProgressStyle) -> Footer {
        Footer { style, finished: false, position: 0, tick: None, message: Seq::<char>::empty() }
    }

    /// The footer when it goes on display: at its start, and ticking by itself
    /// at the given interval, if one is given.
    pub open spec fn shown(self, interval: Option<Duration>) -> Footer {
        Footer { finished: false, position: 0, tick: steady(self.tick, interval), ..self }
    }

    /// The footer when it leaves the display: finished, and no more ticking by
    /// itself where an interval is given for it.
    pub open spec fn hidden(self, interval: Option<Duration>) -> Footer {
        Footer {
            finished: true,
            tick: if interval.is_some() {
                None
            } else {
                self.tick
            },
            ..self
        }
    }
}

/// The state of the slot manager.
pub struct Slots {
    /// The rows on display, top to bottom.
    pub rows: Seq<RowKey>,
    /// The number of units whose row is on display.
    pub active: nat,
    /// The number of units that may have a row on display at once.
    pub max: nat,
    /// The number of units that wait for a slot.
    pub pending: nat,
    /// The number that the footer's line gives for the units that wait: what
    /// the counter holds from which the footer's style reads it.
    pub counter: nat,
    /// The units that were made to wait, oldest first. A unit stays here after
    /// it was finished while waiting, until it comes to the front.
    pub queue: Seq<u64>,
    /// The footer, if one was configured.
    pub footer: Option<Footer>,
    /// How often the display is redrawn, and how often the bars and the
    /// footer tick.
    pub tick: TickSettings,
}

/// The units that wait for a slot.
pub open spec fn waiting(units: Map<u64, SpanView>) -> Set<u64> {
    Set::new(|id: u64| units.contains_key(id) && units[id].state == RowState::Hidden)
}

/// The units whose row is on display.
pub open spec fn showing(units: Map<u64, SpanView>) -> Set<u64> {
    Set::new(|id: u64| units.contains_key(id) && units[id].state == RowState::Visible)
}

/// The units that have a progress bar: those that were entered and not
/// finished since.
pub open spec fn entered(units: Map<u64, SpanView>) -> Set<u64> {
    Set::new(|id: u64| units.contains_key(id) && units[id].has_row())
}

/// The units once the queue starts anew: each unit that waited is finished and
/// gets no row, and the other units are as they were.
pub open spec fn none_waiting(units: Map<u64, SpanView>) -> Map<u64, SpanView> {
    Map::new(
        |id: u64| units.contains_key(id),
        |id: u64|
            if units[id].state == RowState::Hidden {
                units[id].finished()
            } else {
                units[id]
            },
    )
}

/// The rows without the row of the given key.
pub open spec fn without(rows: Seq<RowKey>, key: RowKey) -> Seq<RowKey> {
    rows.remove(rows.index_of(key))
}

/// Whether both rows are on display, the first above the second.
pub open spec fn above(rows: Seq<RowKey>, upper: RowKey, lower: RowKey) -> bool {
    rows.contains(upper) && rows.contains(lower) && rows.index_of(upper) < rows.index_of(lower)
}

/// Whether the rows that are on display before and after stand in the same
/// order after as before.
pub open spec fn same_order(before: Seq<RowKey>, after: Seq<RowKey>) -> bool {
    forall|upper: RowKey, lower: RowKey| #[trigger]
        above(before, upper, lower) && after.contains(upper) && after.contains(lower) ==> above(
            after,
            upper,
            lower,
        )
}

/// The queue from its first waiting unit on: finished units at its front are
/// dropped.
pub open spec fn skip_stale(queue: Seq<u64>, units: Map<u64, SpanView>) -> Seq<u64>
    decreases queue.len(),
{
    if queue.len() == 0 || waiting(units).contains(queue[0]) {
        queue
    } else {
        skip_stale(queue.drop_first(), units)
    }
}

impl Slots {
    /// Whether the footer is on display: one was configured and a unit waits.
    pub open spec fn footer_shown(self) -> bool {
        self.footer.is_some() && self.pending > 0
    }

    /// Whether a slot is free.
    pub open spec fn has_free_slot(self) -> bool {
        self.active < self.max
    }

    /// Where the row of a unit with the given parent goes: directly below the
    /// parent's row if that is on display, else directly above the footer if
    /// that is on display, else to the end.
    pub open spec fn insertion_index(self, parent: Option<u64>) -> int {
        if parent.is_some() && self.rows.contains(RowKey::Unit(parent.unwrap())) {
            self.rows.index_of(RowKey::Unit(parent.unwrap())) + 1
        } else if self.rows.contains(RowKey::Footer) {
            self.rows.index_of(RowKey::Footer)
        } else {
            self.rows.len() as int
        }
    }

    /// Whether no slot is free while a unit waits. Entering and finishing
    /// units keep it so, and after another limit no unit waits.
    pub open spec fn busy(self) -> bool {
        self.pending > 0 ==> self.active >= self.max
    }

    /// The unit's row goes on display and fills a slot.
    pub open spec fn place(self, parent: Option<u64>, id: u64) -> Slots {
        Slots {
            rows: self.rows.insert(self.insertion_index(parent), RowKey::Unit(id)),
            active: self.active + 1,
            ..self
        }
    }

    /// The unit joins the end of the queue, and the footer's line counts one
    /// unit more. The footer goes on display, as the last row and set back to
    /// its start, if one is configured and no unit waited before.
    pub open spec fn enqueue(self, id: u64) -> Slots {
        Slots {
            rows: if self.footer.is_some() && self.pending == 0 {
                self.rows.push(RowKey::Footer)
            } else {
                self.rows
            },
            footer: if self.footer.is_some() && self.pending == 0 {
                Some(self.footer.unwrap().shown(self.tick.footer_tick_interval))
            } else {
                self.footer
            },
            pending: self.pending + 1,
            counter: self.pending + 1,
            queue: self.queue.push(id),
            ..self
        }
    }

    /// The unit gets a slot if one is free and waits if none is.
    pub open spec fn show(self, parent: Option<u64>, id: u64) -> Slots {
        if self.has_free_slot() {
            self.place(parent, id)
        } else {
            self.enqueue(id)
        }
    }

    /// One unit less waits, and the footer's line counts one unit less. The
    /// footer is finished and leaves the display with the last unit that
    /// waited.
    pub open spec fn unqueue(self) -> Slots {
        Slots {
            rows: if self.footer.is_some() && self.pending == 1 {
                without(self.rows, RowKey::Footer)
            } else {
                self.rows
            },
            footer: if self.footer.is_some() && self.pending == 1 {
                Some(self.footer.unwrap().hidden(self.tick.footer_tick_interval))
            } else {
                self.footer
            },
            pending: (self.pending - 1) as nat,
            counter: (self.pending - 1) as nat,
            ..self
        }
    }

    /// The unit's row leaves the display and frees its slot.
    pub open spec fn release(self, id: u64) -> Slots {
        Slots {
            rows: without(self.rows, RowKey::Unit(id)),
            active: (self.active - 1) as nat,
            ..self
        }
    }

    /// The first waiting unit of the queue, if there is one, leaves the queue
    /// and is shown: it gets a slot if one is free and else goes to the end of
    /// the queue. The units before it in the queue, which were finished while
    /// they waited, are dropped.
    pub open spec fn promote(self, units: Map<u64, SpanView>) -> (Slots, Map<u64, SpanView>) {
        let rest = skip_stale(self.queue, units);
        if rest.len() == 0 {
            (Slots { queue: rest, ..self }, units)
        } else {
            let next = rest[0];
            let slots = (Slots { queue: rest.drop_first(), ..self }).unqueue();
            (
                slots.show(units[next].parent, next),
                units.insert(
                    next,
                    if slots.has_free_slot() {
                        units[next].shown(self.tick.default_tick_interval)
                    } else {
                        units[next]
                    },
                ),
            )
        }
    }

    /// A unit in the given state is finished, where `units` are the other
    /// units. A unit that waited leaves the count of waiting units. A unit on
    /// display frees its slot, and the first waiting unit of the queue is
    /// promoted. A unit without a progress bar changes nothing.
    pub open spec fn finish(self, id: u64, state: RowState, units: Map<u64, SpanView>) -> (
        Slots,
        Map<u64, SpanView>,
    ) {
        match state {
            RowState::NotEntered | RowState::Removed => (self, units),
            RowState::Hidden => (self.unqueue(), units),
            RowState::Visible => self.release(id).promote(units),
        }
    }

    /// Another limit and another choice of footer, and a new start for the
    /// queue: no unit waits afterwards, and the units that waited are finished
    /// (see [`none_waiting`]). Rows of units stay where they are, even where
    /// they are more than the new limit. The footer leaves the display; the new
    /// one, if there is one, is at its start.
    pub open spec fn reconfigure(self, max: nat, footer: Option<ProgressStyle>) -> Slots {
        Slots {
            rows: if self.footer_shown() {
                without(self.rows, RowKey::Footer)
            } else {
                self.rows
            },
            max,
            pending: 0,
            counter: 0,
            queue: Seq::<u64>::empty(),
            footer: match footer {
                Some(style) => Some(Footer::fresh(style)),
                None => None,
            },
            ..self
        }
    }

    /// What holds of the rows at all times: the display holds each row once,
    /// and the footer exactly while it is due, as the last row and not
    /// finished; and the footer's line counts the units that wait.
    pub open spec fn rows_wf(self) -> bool {
        &&& self.counter == self.pending
        &&& self.rows.no_duplicates()
        &&& self.rows.contains(RowKey::Footer) <==> self.footer_shown()
        &&& self.rows.contains(RowKey::Footer) ==> self.rows.last() == RowKey::Footer
        &&& self.footer_shown() ==> !self.footer.unwrap().finished
    }

    /// What holds of the slot manager at all times, given the units whose row
    /// is on display and the units that wait: the display holds each row
    /// once, the rows of exactly the units on display and the footer exactly
    /// while it is due, the footer last; the counts are the numbers of those
    /// units; and every waiting unit is in the queue.
    pub open spec fn wf(self, shown: Set<u64>, queued: Set<u64>) -> bool {
        &&& shown.finite()
        &&& queued.finite()
        &&& shown.disjoint(queued)
        &&& self.rows_wf()
        &&& forall|id: u64| #[trigger] self.rows.contains(RowKey::Unit(id)) <==> shown.contains(id)
        &&& self.rows.len() == self.active + (if self.footer_shown() { 1nat } else { 0nat })
        &&& self.active == shown.len()
        &&& self.pending == queued.len()
        &&& forall|id: u64| #[trigger] queued.contains(id) ==> self.queue.contains(id)
    }

    /// [`Slots::wf`] for the units of a map.
    pub open spec fn wf_units(self, units: Map<u64, SpanView>) -> bool {
        &&& units.dom().finite()
        &&& self.wf(showing(units), waiting(units))
    }
}

/// In a sequence without duplicates a value stands at one index only.
pub proof fn lemma_index_of_unique(rows: Seq<RowKey>, i: int)
    requires
        rows.no_duplicates(),
        0 <= i < rows.len(),
    ensures
        rows.index_of(rows[i]) == i,
        rows.contains(rows[i]),
{
}

/// What a sequence holds after a new value was inserted.
pub proof fn lemma_insert_new(rows: Seq<RowKey>, i: int, key: RowKey)
    requires
        rows.no_duplicates(),
        !rows.contains(key),
        0 <= i <= rows.len(),
    ensures
        rows.insert(i, key).no_duplicates(),
        rows.insert(i, key).len() == rows.len() + 1,
        rows.insert(i, key)[i] == key,
        rows.insert(i, key).index_of(key) == i,
        forall|k: RowKey| #[trigger]
            rows.insert(i, key).contains(k) <==> (k == key || rows.contains(k)),
{
    let out = rows.insert(i, key);
    assert forall|k: RowKey| #[trigger] out.contains(k) <==> (k == key || rows.contains(k)) by {
        if rows.contains(k) {
            let a0 = choose|a0: int| 0 <= a0 < rows.len() && rows[a0] == k;
            let a = if a0 < i { a0 } else { a0 + 1 };
            assert(out[a] == k);
        }
    }
}

/// What a sequence holds after one of its values was removed.
pub proof fn lemma_without(rows: Seq<RowKey>, key: RowKey)
    requires
        rows.no_duplicates(),
        rows.contains(key),
    ensures
        without(rows, key).no_duplicates(),
        without(rows, key).len() == rows.len() - 1,
        forall|k: RowKey| #[trigger]
            without(rows, key).contains(k) <==> (k != key && rows.contains(k)),
{
    let i = rows.index_of(key);
    let out = without(rows, key);
    assert forall|k: RowKey| #[trigger] out.contains(k) <==> (k != key && rows.contains(k)) by {
        if k != key && rows.contains(k) {
            let a0 = choose|a0: int| 0 <= a0 < rows.len() && rows[a0] == k;
            let a = if a0 < i { a0 } else { a0 - 1 };
            assert(out[a] == k);
        }
    }
}

/// Showing a unit that is neither on display nor waiting keeps the slot
/// manager well formed: the unit is on display afterwards if a slot was free,
/// and waits if none was.
pub proof fn lemma_show_wf(
    slots: Slots,
    shown: Set<u64>,
    queued: Set<u64>,
    parent: Option<u64>,
    id: u64,
)
    requires
        slots.wf(shown, queued),
        !shown.contains(id),
        !queued.contains(id),
    ensures
        slots.has_free_slot() ==> slots.show(parent, id).wf(shown.insert(id), queued),
        !slots.has_free_slot() ==> slots.show(parent, id).wf(shown, queued.insert(id)),
{
    let rows = slots.rows;
    let out = slots.show(parent, id);
    if slots.has_free_slot() {
        let i = slots.insertion_index(parent);
        lemma_insert_new(rows, i, RowKey::Unit(id));
    } else {
        if slots.footer.is_some() && slots.pending == 0 {
            assert(rows.push(RowKey::Footer) =~= rows.insert(rows.len() as int, RowKey::Footer));
            lemma_insert_new(rows, rows.len() as int, RowKey::Footer);
        }
        assert forall|k: u64| #[trigger] queued.insert(id).contains(k) implies out.queue.contains(
            k,
        ) by {
            if k == id {
                assert(out.queue[out.queue.len() - 1] == id);
            } else {
                let j = choose|j: int| 0 <= j < slots.queue.len() && slots.queue[j] == k;
                assert(out.queue[j] == k);
            }
        }
    }
}

/// No more units wait than the queue holds.
pub proof fn lemma_queue_holds_waiting(slots: Slots, shown: Set<u64>, queued: Set<u64>)
    requires
        slots.wf(shown, queued),
    ensures
        slots.pending <= slots.queue.len(),
{
    slots.queue.lemma_cardinality_of_set();
    vstd::seq_lib::seq_to_set_is_finite(slots.queue);
    assert forall|id: u64| queued.contains(id) implies slots.queue.to_set().contains(id) by {
        assert(slots.queue.contains(id));
    }
    vstd::set_lib::lemma_len_subset(queued, slots.queue.to_set());
}

/// Taking a waiting unit out of the count keeps the slot manager well formed.
pub proof fn lemma_unqueue_wf(slots: Slots, shown: Set<u64>, queued: Set<u64>, id: u64)
    requires
        slots.wf(shown, queued),
        queued.contains(id),
    ensures
        slots.pending > 0,
        slots.unqueue().wf(shown, queued.remove(id)),
{
    let rows = slots.rows;
    if slots.footer.is_some() && slots.pending == 1 {
        lemma_without(rows, RowKey::Footer);
    }
}

/// Taking a unit's row off the display keeps the slot manager well formed.
pub proof fn lemma_release_wf(slots: Slots, shown: Set<u64>, queued: Set<u64>, id: u64)
    requires
        slots.wf(shown, queued),
        shown.contains(id),
    ensures
        slots.active > 0,
        slots.release(id).wf(shown.remove(id), queued),
{
    let rows = slots.rows;
    assert(rows.contains(RowKey::Unit(id)));
    lemma_without(rows, RowKey::Unit(id));
}

/// Another limit, another choice of footer and a new start for the queue keep
/// the slot manager well formed, for the units of which none waits any more.
pub proof fn lemma_reconfigure_wf(
    slots: Slots,
    units: Map<u64, SpanView>,
    max: nat,
    footer: Option<ProgressStyle>,
)
    requires
        slots.wf_units(units),
    ensures
        slots.reconfigure(max, footer).wf_units(none_waiting(units)),
        showing(none_waiting(units)) == showing(units),
        waiting(none_waiting(units)) == Set::<u64>::empty(),
{
    if slots.footer_shown() {
        lemma_without(slots.rows, RowKey::Footer);
    }
    assert(none_waiting(units).dom() =~= units.dom());
    assert(showing(none_waiting(units)) =~= showing(units));
    assert(waiting(none_waiting(units)) =~= Set::<u64>::empty());
}

/// What is left of a queue once the finished units at its front are dropped:
/// it starts with a waiting unit, and it holds every waiting unit that the
/// queue held.
pub proof fn lemma_skip_stale(queue: Seq<u64>, units: Map<u64, SpanView>)
    ensures
        skip_stale(queue, units).len() <= queue.len(),
        skip_stale(queue, units).len() > 0 ==> waiting(units).contains(skip_stale(queue, units)[0]),
        forall|id: u64|
            waiting(units).contains(id) && queue.contains(id) ==> #[trigger] skip_stale(
                queue,
                units,
            ).contains(id),
    decreases queue.len(),
{
    if queue.len() > 0 && !waiting(units).contains(queue[0]) {
        let tail = queue.drop_first();
        lemma_skip_stale(tail, units);
        assert forall|id: u64| waiting(units).contains(id) && queue.contains(id) implies skip_stale(
            queue,
            units,
        ).contains(id) by {
            let j = choose|j: int| 0 <= j < queue.len() && queue[j] == id;
            assert(tail[j - 1] == id);
        }
    }
}

/// Only units that do not wait are dropped from the front of a queue: what is
/// left is the queue from some index on, and no unit before that index waits.
pub proof fn lemma_skip_stale_front(queue: Seq<u64>, units: Map<u64, SpanView>) -> (dropped: int)
    ensures
        0 <= dropped <= queue.len(),
        skip_stale(queue, units) == queue.skip(dropped),
        forall|j: int| 0 <= j < dropped ==> !waiting(units).contains(#[trigger] queue[j]),
    decreases queue.len(),
{
    if queue.len() == 0 || waiting(units).contains(queue[0]) {
        0
    } else {
        let tail = queue.drop_first();
        let dropped = lemma_skip_stale_front(tail, units);
        assert forall|j: int| 0 <= j < dropped + 1 implies !waiting(units).contains(
            #[trigger] queue[j],
        ) by {
            if j > 0 {
                assert(tail[j - 1] == queue[j]);
            }
        }
        dropped + 1
    }
}

/// The sets of units that a map of units stands for: both are finite, and no
/// unit is in both.
pub proof fn lemma_unit_sets(units: Map<u64, SpanView>)
    requires
        units.dom().finite(),
    ensures
        showing(units).finite(),
        waiting(units).finite(),
        entered(units).finite(),
        showing(units).disjoint(waiting(units)),
        entered(units) == showing(units).union(waiting(units)),
        entered(units).len() == showing(units).len() + waiting(units).len(),
        waiting(units).len() <= units.dom().len(),
{
    vstd::set_lib::lemma_len_subset(showing(units), units.dom());
    vstd::set_lib::lemma_len_subset(waiting(units), units.dom());
    assert(entered(units) =~= showing(units).union(waiting(units)));
    vstd::set_lib::lemma_set_disjoint_lens(showing(units), waiting(units));
}

/// The slot manager between the two steps of a promotion: the first waiting
/// unit has left the queue and the count, and is not shown yet.
pub open spec fn next_taken(slots: Slots, units: Map<u64, SpanView>) -> Slots {
    (Slots { queue: skip_stale(slots.queue, units).drop_first(), ..slots }).unqueue()
}

/// Between the two steps of a promotion the slot manager is well formed for
/// the units without the one that is promoted.
pub proof fn lemma_next_taken_wf(slots: Slots, units: Map<u64, SpanView>)
    requires
        slots.wf_units(units),
        skip_stale(slots.queue, units).len() > 0,
    ensures
        units.contains_key(skip_stale(slots.queue, units)[0]),
        units[skip_stale(slots.queue, units)[0]].state == RowState::Hidden,
        slots.pending > 0,
        next_taken(slots, units).wf_units(units.remove(skip_stale(slots.queue, units)[0])),
{
    let shown = showing(units);
    let queued = waiting(units);
    let rest = skip_stale(slots.queue, units);
    lemma_skip_stale(slots.queue, units);
    let front = Slots { queue: rest, ..slots };
    let next = rest[0];
    lemma_unqueue_wf(front, shown, queued, next);
    let taken = next_taken(slots, units);
    assert forall|id: u64| #[trigger] queued.remove(next).contains(id) implies taken.queue.contains(
        id,
    ) by {
        let j = choose|j: int| 0 <= j < rest.len() && rest[j] == id;
        assert(rest.drop_first()[j - 1] == id);
    }
    assert(showing(units.remove(next)) =~= shown);
    assert(waiting(units.remove(next)) =~= queued.remove(next));
}

/// Promoting the first waiting unit of the queue keeps the slot manager well
/// formed.
pub proof fn lemma_promote_wf(slots: Slots, units: Map<u64, SpanView>)
    requires
        slots.wf_units(units),
    ensures
        slots.promote(units).0.wf_units(slots.promote(units).1),
{
    let rest = skip_stale(slots.queue, units);
    lemma_skip_stale(slots.queue, units);
    if rest.len() > 0 {
        let next = rest[0];
        let fewer = units.remove(next);
        let taken = next_taken(slots, units);
        lemma_next_taken_wf(slots, units);
        lemma_show_wf(taken, showing(fewer), waiting(fewer), units[next].parent, next);
        let after = slots.promote(units).1;
        if taken.has_free_slot() {
            assert(showing(after) =~= showing(fewer).insert(next));
            assert(waiting(after) =~= waiting(fewer));
        } else {
            assert(showing(after) =~= showing(fewer));
            assert(waiting(after) =~= waiting(fewer).insert(next));
        }
    }
}

/// Finishing a unit keeps the slot manager well formed: what holds of it with
/// the unit before holds of it without the unit afterwards.
pub proof fn lemma_finish_wf(slots: Slots, id: u64, unit: SpanView, units: Map<u64, SpanView>)
    requires
        !units.contains_key(id),
        slots.wf_units(units.insert(id, unit)),
    ensures
        slots.finish(id, unit.state, units).0.wf_units(slots.finish(id, unit.state, units).1),
{
    let all = units.insert(id, unit);
    assert(units.dom() =~= all.dom().remove(id));
    match unit.state {
        RowState::NotEntered | RowState::Removed => {
            assert(showing(all) =~= showing(units));
            assert(waiting(all) =~= waiting(units));
        },
        RowState::Hidden => {
            assert(showing(all) =~= showing(units));
            assert(waiting(all).remove(id) =~= waiting(units));
            lemma_unqueue_wf(slots, showing(all), waiting(all), id);
        },
        RowState::Visible => {
            assert(showing(all).remove(id) =~= showing(units));
            assert(waiting(all) =~= waiting(units));
            lemma_release_wf(slots, showing(all), waiting(all), id);
            lemma_promote_wf(slots.release(id), units);
        },
    }
}

/// A row that leaves the display leaves the other rows in their order.
pub proof fn lemma_without_same_order(rows: Seq<RowKey>, key: RowKey)
    requires
        rows.no_duplicates(),
        rows.contains(key),
    ensures
        same_order(rows, without(rows, key)),
{
}

/// Showing a unit leaves the rows on display in their order.
pub proof fn lemma_show_same_order(
    slots: Slots,
    shown: Set<u64>,
    queued: Set<u64>,
    parent: Option<u64>,
    id: u64,
)
    requires
        slots.wf(shown, queued),
        !shown.contains(id),
        !queued.contains(id),
    ensures
        same_order(slots.rows, slots.show(parent, id).rows),
        forall|key: RowKey|
            slots.rows.contains(key) ==> #[trigger] slots.show(parent, id).rows.contains(key),
{
    let rows = slots.rows;
    if slots.has_free_slot() {
        lemma_insert_new(rows, slots.insertion_index(parent), RowKey::Unit(id));
    } else if slots.footer.is_some() && slots.pending == 0 {
        assert(rows.push(RowKey::Footer) =~= rows.insert(rows.len() as int, RowKey::Footer));
        lemma_insert_new(rows, rows.len() as int, RowKey::Footer);
    }
}

/// Finishing a unit leaves the rows that stay on display in their order.
pub proof fn lemma_finish_same_order(
    slots: Slots,
    id: u64,
    unit: SpanView,
    units: Map<u64, SpanView>,
)
    requires
        !units.contains_key(id),
        slots.wf_units(units.insert(id, unit)),
    ensures
        same_order(slots.rows, slots.finish(id, unit.state, units).0.rows),
{
    let all = units.insert(id, unit);
    let rows = slots.rows;
    match unit.state {
        RowState::NotEntered | RowState::Hidden | RowState::Removed => {},
        RowState::Visible => {
            lemma_release_wf(slots, showing(all), waiting(all), id);
            assert(showing(all).remove(id) =~= showing(units));
            assert(waiting(all) =~= waiting(units));
            assert(units.dom() =~= all.dom().remove(id));
            let released = slots.release(id);
            lemma_without_same_order(rows, RowKey::Unit(id));
            let rest = skip_stale(released.queue, units);
            if rest.len() > 0 {
                lemma_next_taken_wf(released, units);
            }
        },
    }
}

} // verus!
