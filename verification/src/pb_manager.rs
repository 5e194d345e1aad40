//! The slot manager: which units have a row on display, which wait, and the
//! footer that tells how many wait.

use crate::display::add_row;
use crate::display::clone_multi_progress;
use crate::display::counted_style;
use crate::display::counter_id;
use crate::display::counter_store;
use crate::display::counter_value;
use crate::display::display_id;
use crate::display::displayed;
use crate::display::new_multi_progress;
use crate::display::remove_row;
use crate::display::set_draw_target;
use crate::display::stderr_with_hz;
use crate::display::style_with_counter;
use crate::display::BarView;
use crate::display::Row;
use crate::display::RowKey;
use crate::slots::lemma_finish_wf;
use crate::slots::lemma_index_of_unique;
use crate::slots::lemma_next_taken_wf;
use crate::slots::lemma_queue_holds_waiting;
use crate::slots::lemma_reconfigure_wf;
use crate::slots::lemma_release_wf;
use crate::slots::lemma_show_wf;
use crate::slots::lemma_skip_stale;
use crate::slots::none_waiting;
use crate::slots::showing;
use crate::slots::skip_stale;
use crate::slots::waiting;
use crate::slots::without;
use crate::slots::Footer;
use crate::slots::Slots;
use crate::span_context::lemma_rows_on_insert;
use crate::span_context::lemma_rows_on_others;
use crate::span_context::lemma_views_insert;
use crate::span_context::lemma_views_remove;
use crate::span_context::rows_on;
use crate::span_context::store_wf;
use crate::span_context::views;
use crate::span_context::IndicatifSpanContext;
use crate::span_context::RowState;
use indicatif::MultiProgress;
use indicatif::ProgressStyle;
use std::collections::HashMap;
use std::collections::VecDeque;
use std::sync::atomic::AtomicUsize;
use std::sync::Arc;
use std::time::Duration;
use vstd::prelude::*;

verus! {

broadcast use vstd::std_specs::hash::group_hash_axioms;

/// Exists solely to require `..Default::default()` when a [`TickSettings`] is
/// written out: no other crate can make one.
#[derive(Clone, Copy)]
pub struct RequireDefault {
    seal: (),
}

/// Controls how often progress bars are recalculated and redrawn to the terminal.
#[derive(Clone, Copy)]
pub struct TickSettings {
    /// The rate at which to draw to the terminal, in redraws per second.
    pub term_draw_hz: u8,
    /// The interval of the steady tick of a new progress bar; `None` disables it.
    pub default_tick_interval: Option<Duration>,
    /// The interval of the steady tick of the footer; `None` disables it.
    pub footer_tick_interval: Option<Duration>,
    /// Keeps room for more settings: write `..Default::default()` for it.
    pub require_default: RequireDefault,
}

/// The length of a duration in nanoseconds, as `Duration::as_nanos` returns it.
pub uninterp spec fn duration_nanos(duration: Duration) -> int;

/// `Duration::from_millis`: a duration of that many milliseconds.
#[verifier::external_body]
fn duration_from_millis(millis: u64) -> (duration: Duration)
    ensures
        duration_nanos(duration) == millis * 1_000_000,
{
    Duration::from_millis(millis)
}

impl TickSettings {
    /// Whether these are the settings that one starts from: twenty redraws
    /// per second, a steady tick every 100 milliseconds for the bars of units
    /// and none for the footer.
    pub open spec fn is_default(self) -> bool {
        &&& self.term_draw_hz == 20
        &&& self.default_tick_interval.is_some()
        &&& duration_nanos(self.default_tick_interval.unwrap()) == 100_000_000
        &&& self.footer_tick_interval.is_none()
    }
}

impl Default for TickSettings {
    /// Twenty redraws per second, a steady tick every 100 milliseconds for the
    /// bars of units and none for the footer.
    fn default() -> (settings: Self)
        ensures
            settings.is_default(),
    {
        TickSettings {
            term_draw_hz: 20,
            default_tick_interval: Some(duration_from_millis(100)),
            footer_tick_interval: None,
            require_default: RequireDefault { seal: () },
        }
    }
}

/// Decides which units have a row on display and which wait for one.
pub struct ProgressBarManager {
    mp: MultiProgress,
    active_progress_bars: u64,
    max_progress_bars: u64,
    // The number of units that wait, by which the manager decides.
    pending_progress_bars: usize,
    // The same number for the footer's line, which is rendered without the
    // manager at hand.
    pending_shown: Arc<AtomicUsize>,
    // The length of this may differ from `pending_progress_bars`: a unit that
    // is finished while it waits stays in the queue until it comes to the front.
    pending_spans: VecDeque<u64>,
    // If this is `None`, a footer will never be shown.
    footer_pb: Option<Row>,
    // The style that the footer was configured with.
    footer_style: Ghost<Option<ProgressStyle>>,
    tick_settings: TickSettings,
}

impl View for ProgressBarManager {
    type V = Slots;

    closed spec fn view(&self) -> Slots {
        Slots {
            rows: displayed(self.mp),
            active: self.active_progress_bars as nat,
            max: self.max_progress_bars as nat,
            pending: self.pending_progress_bars as nat,
            counter: counter_value(self.pending_shown) as nat,
            queue: self.pending_spans@,
            footer: match self.footer_pb {
                Some(row) => Some(
                    Footer {
                        style: self.footer_style@.unwrap(),
                        finished: row.spec_finished(),
                        position: row.spec_position(),
                        tick: row.spec_tick(),
                        message: row.spec_message(),
                    },
                ),
                None => None,
            },
            tick: self.tick_settings,
        }
    }
}

impl ProgressBarManager {
    /// Which display holds the manager's rows, by
    /// [`crate::display::display_id`].
    pub closed spec fn display_id(&self) -> int {
        display_id(self.mp)
    }

    /// The counter from which the footer's line reads how many units wait,
    /// by [`crate::display::counter_id`].
    pub closed spec fn pending_counter(&self) -> int {
        counter_id(self.pending_shown)
    }

    /// The style that the footer's progress bar was given, if a footer is
    /// configured.
    pub closed spec fn footer_bar_style(&self) -> Option<ProgressStyle> {
        match self.footer_pb {
            Some(row) => Some(row.spec_style()),
            None => None,
        }
    }

    /// The footer's progress bar has the style that the footer was configured
    /// with, and with it the key `pending_progress_bars`, which writes what
    /// the manager's counter holds: the number of units that wait.
    pub proof fn lemma_footer_style(&self)
        requires
            self.inv(),
        ensures
            self@.counter == self@.pending,
            self.footer_bar_style() == match self@.footer {
                Some(footer) => Some(
                    counted_style(footer.style, "pending_progress_bars"@, self.pending_counter()),
                ),
                None => None,
            },
    {
    }

    /// What holds of the manager by itself: its rows are well formed, and its
    /// counter holds the number of units that wait; the footer's bar has the
    /// footer's key, the footer's style with the key for the counter, and no
    /// length, and the manager's display holds it exactly while the footer is
    /// on display; and the redraw rate is not zero.
    pub closed spec fn inv(&self) -> bool {
        &&& self@.rows_wf()
        &&& self.footer_pb.is_some() ==> {
            &&& self.footer_pb->0.key() == RowKey::Footer
            &&& self.footer_style@.is_some()
            &&& self.footer_pb->0.spec_style() == counted_style(
                self.footer_style@.unwrap(),
                "pending_progress_bars"@,
                counter_id(self.pending_shown),
            )
            &&& self.footer_pb->0.spec_length().is_none()
            &&& self.footer_pb->0.spec_home() == (if self@.footer_shown() {
                Some(display_id(self.mp))
            } else {
                None
            })
        }
        &&& self.tick_settings.term_draw_hz > 0
    }

    /// What holds of the manager and the records of the units at all times:
    /// besides what holds of each by itself, the units on display and the
    /// units that wait are those that the manager counts, and the manager's
    /// display holds the progress bar of each unit on display.
    pub open spec fn wf(&self, units: Map<u64, IndicatifSpanContext>) -> bool {
        &&& self.inv()
        &&& store_wf(units)
        &&& self@.wf_units(views(units))
        &&& rows_on(units, self.display_id())
    }

    /// A record that changes while its unit stays in the same state leaves the
    /// manager well formed.
    pub proof fn lemma_unit_changed(
        &self,
        units: Map<u64, IndicatifSpanContext>,
        id: u64,
        unit: IndicatifSpanContext,
    )
        requires
            self.wf(units),
            unit.wf(),
            unit@.id == id,
            units.contains_key(id) ==> unit@.state == units[id]@.state && unit.on_display()
                == units[id].on_display(),
            !units.contains_key(id) ==> !unit@.has_row(),
        ensures
            self.wf(units.insert(id, unit)),
    {
        let after = units.insert(id, unit);
        lemma_views_insert(units, id, unit);
        unit.lemma_row();
        assert(showing(views(after)) =~= showing(views(units)));
        assert(waiting(views(after)) =~= waiting(views(units)));
        lemma_rows_on_insert(units, id, unit, self.display_id());
    }

    /// The record of a unit without a progress bar can leave the store.
    pub proof fn lemma_unit_removed(&self, units: Map<u64, IndicatifSpanContext>, id: u64)
        requires
            self.wf(units),
            units.contains_key(id),
            !units[id]@.has_row(),
        ensures
            self.wf(units.remove(id)),
    {
        let after = units.remove(id);
        lemma_views_remove(units, id);
        assert(showing(views(after)) =~= showing(views(units)));
        assert(waiting(views(after)) =~= waiting(views(units)));
    }

    /// A manager without rows and without waiting units, which draws to the
    /// standard error stream at the rate of the tick settings.
    pub fn new(
        max_progress_bars: u64,
        footer_progress_style: Option<ProgressStyle>,
        tick_settings: TickSettings,
    ) -> (manager: Self)
        requires
            tick_settings.term_draw_hz > 0,
        ensures
            manager.inv(),
            manager@ == (Slots {
                rows: Seq::<RowKey>::empty(),
                active: 0,
                max: max_progress_bars as nat,
                pending: 0,
                counter: 0,
                queue: Seq::<u64>::empty(),
                footer: match footer_progress_style {
                    Some(style) => Some(Footer::fresh(style)),
                    None => None,
                },
                tick: tick_settings,
            }),
    {
        let mp = new_multi_progress();
        set_draw_target(&mp, stderr_with_hz(tick_settings.term_draw_hz));
        let mut pending_shown = Arc::new(AtomicUsize::new(0));
        counter_store(&mut pending_shown, 0);
        let footer_pb = Self::make_footer(&pending_shown, footer_progress_style);
        ProgressBarManager {
            mp,
            active_progress_bars: 0,
            max_progress_bars,
            pending_progress_bars: 0,
            pending_shown,
            pending_spans: VecDeque::new(),
            footer_pb,
            footer_style: Ghost(footer_progress_style),
            tick_settings,
        }
    }

    /// The progress bar of a footer of the given style, if one is given: on no
    /// display, at its start, and with the key `pending_progress_bars`, which
    /// writes what the counter holds.
    fn make_footer(
        counter: &Arc<AtomicUsize>,
        footer_style: Option<ProgressStyle>,
    ) -> (footer: Option<Row>)
        ensures
            footer.is_some() == footer_style.is_some(),
            footer.is_some() ==> {
                &&& footer.unwrap().key() == RowKey::Footer
                &&& footer.unwrap().bar() == (BarView {
                    home: None,
                    style: counted_style(
                        footer_style.unwrap(),
                        "pending_progress_bars"@,
                        counter_id(*counter),
                    ),
                    message: Seq::<char>::empty(),
                    length: None,
                    position: 0,
                    finished: false,
                    tick: None,
                })
            },
    {
        match footer_style {
            Some(style) => Some(
                Row::hidden(
                    RowKey::Footer,
                    style_with_counter(style, "pending_progress_bars", Arc::clone(counter)),
                ),
            ),
            None => None,
        }
    }

    /// Sets the number of units that may have a row on display at once, and
    /// the footer, which gets the key `pending_progress_bars` for the number
    /// of waiting units. The queue starts anew: no unit waits afterwards, the
    /// units that waited are finished and get no row, and the footer leaves
    /// the display until a unit has to wait again. Rows on display stay even
    /// where they are more than the new limit; the limit counts when the next
    /// unit is shown.
    pub fn set_max_progress_bars(
        &mut self,
        max_progress_bars: u64,
        footer_style: Option<ProgressStyle>,
        units: &mut HashMap<u64, IndicatifSpanContext>,
    )
        requires
            old(self).wf(old(units)@),
        ensures
            final(self).wf(final(units)@),
            final(self)@ == old(self)@.reconfigure(max_progress_bars as nat, footer_style),
            views(final(units)@) == none_waiting(views(old(units)@)),
            final(units)@.dom() == old(units)@.dom(),
            final(self).display_id() == old(self).display_id(),
    {
        let ghost before = views(units@);
        // The queue starts anew: the units in it that still wait are finished.
        while self.pending_spans.len() > 0
            invariant
                *self == (ProgressBarManager { pending_spans: self.pending_spans, ..*old(self) }),
                store_wf(units@),
                rows_on(units@, display_id(self.mp)),
                before == views(old(units)@),
                units@.dom() == old(units)@.dom(),
                forall|id: u64| #[trigger]
                    units@.contains_key(id) ==> units@[id]@ == (if before[id].state
                        == RowState::Hidden && units@[id]@.state != RowState::Hidden {
                        before[id].finished()
                    } else {
                        before[id]
                    }),
                forall|id: u64| #[trigger]
                    waiting(views(units@)).contains(id) ==> self.pending_spans@.contains(id),
            decreases self.pending_spans@.len(),
        {
            let ghost queue = self.pending_spans@;
            let ghost held = units@;
            let next_id = self.pending_spans.pop_front().unwrap();
            let waits = match units.get(&next_id) {
                Some(next) => next.state() == RowState::Hidden,
                None => false,
            };
            if waits {
                let ghost others = units@.remove(next_id);
                let mut next = units.remove(&next_id).unwrap();
                let _ = next.take_progress_bar();
                units.insert(next_id, next);
                proof {
                    lemma_rows_on_insert(others, next_id, next, display_id(self.mp));
                }
            }
            proof {
                assert forall|id: u64| #[trigger]
                    waiting(views(units@)).contains(id) implies self.pending_spans@.contains(
                    id,
                ) by {
                    assert(waiting(views(held)).contains(id));
                    let j = choose|j: int| 0 <= j < queue.len() && queue[j] == id;
                    assert(self.pending_spans@[j - 1] == id);
                }
            }
        }
        proof {
            lemma_reconfigure_wf(old(self)@, before, max_progress_bars as nat, footer_style);
            assert forall|id: u64| units@.contains_key(id) implies #[trigger] views(units@)[id]
                == none_waiting(before)[id] by {
                assert(!self.pending_spans@.contains(id));
                assert(!waiting(views(units@)).contains(id));
            }
            assert(views(units@) =~= none_waiting(before));
            assert(self.pending_spans@ =~= Seq::<u64>::empty());
        }
        if self.pending_progress_bars > 0 {
            if let Some(mut footer_pb) = self.footer_pb.take() {
                if self.tick_settings.footer_tick_interval.is_some() {
                    footer_pb.disable_steady_tick();
                }
                footer_pb.finish_and_clear();
                remove_row(&mut self.mp, &mut footer_pb);
            }
        }
        self.pending_progress_bars = 0;
        counter_store(&mut self.pending_shown, 0);
        self.max_progress_bars = max_progress_bars;
        self.footer_style = Ghost(footer_style);
        self.footer_pb = Self::make_footer(&self.pending_shown, footer_style);
    }

    /// Sets how often the display is redrawn and how often bars tick from now
    /// on: the manager holds the given settings, and nothing else changes.
    pub fn set_tick_settings(&mut self, tick_settings: TickSettings)
        requires
            old(self).inv(),
            tick_settings.term_draw_hz > 0,
        ensures
            final(self).inv(),
            final(self)@ == (Slots { tick: tick_settings, ..old(self)@ }),
            final(self).display_id() == old(self).display_id(),
    {
        set_draw_target(&self.mp, stderr_with_hz(tick_settings.term_draw_hz));
        self.tick_settings = tick_settings;
    }

    /// A second handle to the manager's display, for writers that must not
    /// collide with the bars. The manager alone adds rows to the display and
    /// takes rows off it: a holder of this handle suspends and redraws, no
    /// more.
    pub fn multi_progress(&self) -> (handle: MultiProgress)
        ensures
            display_id(handle) == self.display_id(),
    {
        clone_multi_progress(&self.mp)
    }

    /// The number of units whose row is on display.
    pub fn active_progress_bars(&self) -> (n: u64)
        ensures
            n == self@.active,
    {
        self.active_progress_bars
    }

    /// The number of units that wait for a slot.
    pub fn pending_progress_bars(&self) -> (n: usize)
        ensures
            n == self@.pending,
    {
        self.pending_progress_bars
    }

    /// The number of units that may have a row on display at once.
    pub fn max_progress_bars(&self) -> (n: u64)
        ensures
            n == self@.max,
    {
        self.max_progress_bars
    }

    /// One unit less waits, and the footer's line counts one unit less. With
    /// the last one the footer is finished and leaves the display.
    fn decrement_pending_pb(&mut self)
        requires
            old(self).inv(),
            old(self)@.pending > 0,
        ensures
            final(self).inv(),
            final(self)@ == old(self)@.unqueue(),
            final(self).display_id() == old(self).display_id(),
    {
        let prev_val = self.pending_progress_bars;
        self.pending_progress_bars = prev_val - 1;
        counter_store(&mut self.pending_shown, self.pending_progress_bars);
        if let Some(mut footer_pb) = self.footer_pb.take() {
            // If this unit was the last one pending, clear the footer.
            if prev_val == 1 {
                if self.tick_settings.footer_tick_interval.is_some() {
                    footer_pb.disable_steady_tick();
                }
                footer_pb.finish_and_clear();
                remove_row(&mut self.mp, &mut footer_pb);
            } else {
                footer_pb.tick();
            }
            self.footer_pb = Some(footer_pb);
        }
    }

    /// The unit joins the end of the queue, and the footer's line counts one
    /// unit more. With the first one that waits the footer goes on display, as
    /// the last row: set back to its start, so that it is in progress and at
    /// position 0 whatever it was before.
    fn add_pending_pb(&mut self, span_id: u64)
        requires
            old(self).inv(),
            old(self)@.pending <= old(self)@.queue.len(),
        ensures
            final(self).inv(),
            final(self)@ == old(self)@.enqueue(span_id),
            final(self).display_id() == old(self).display_id(),
    {
        self.pending_spans.push_back(span_id);
        // The queue is one longer than before, and no longer than a queue can be.
        assert(self.pending_spans.len() == old(self).pending_spans@.len() + 1);
        let prev_val = self.pending_progress_bars;
        self.pending_progress_bars = prev_val + 1;
        counter_store(&mut self.pending_shown, self.pending_progress_bars);
        // Show the footer progress bar.
        if let Some(mut footer_pb) = self.footer_pb.take() {
            if prev_val == 0 {
                // What is left of an earlier time on display must not show.
                footer_pb.reset();
                if let Some(tick_interval) = self.tick_settings.footer_tick_interval {
                    footer_pb.enable_steady_tick(tick_interval);
                }
                add_row(&mut self.mp, &mut footer_pb);
            }
            footer_pb.tick();
            self.footer_pb = Some(footer_pb);
        }
    }

    /// Shows the progress bar of a unit that has one and is not on display: as
    /// a row if a slot is free, directly below the row of the unit's parent if
    /// that is on display, else directly above the footer if that is on
    /// display, else as the last row; where no slot is free the unit joins the
    /// queue. `units` holds the records of the other units.
    pub fn show_progress_bar(
        &mut self,
        pb_span_ctx: &mut IndicatifSpanContext,
        units: &HashMap<u64, IndicatifSpanContext>,
    )
        requires
            old(self).wf(units@),
            old(pb_span_ctx).wf(),
            old(pb_span_ctx)@.state == RowState::Hidden,
            !units@.contains_key(old(pb_span_ctx)@.id),
        ensures
            final(self)@ == old(self)@.show(old(pb_span_ctx)@.parent, old(pb_span_ctx)@.id),
            final(pb_span_ctx)@ == (if old(self)@.has_free_slot() {
                old(pb_span_ctx)@.shown(old(self)@.tick.default_tick_interval)
            } else {
                old(pb_span_ctx)@
            }),
            final(pb_span_ctx).wf(),
            final(pb_span_ctx).on_display() == (if old(self)@.has_free_slot() {
                Some(old(self).display_id())
            } else {
                None
            }),
            final(self).display_id() == old(self).display_id(),
            final(self).wf(units@.insert(old(pb_span_ctx)@.id, *final(pb_span_ctx))),
    {
        let span_id = pb_span_ctx.span_id();
        let ghost before = self@;
        let ghost others = views(units@);
        let ghost parent = pb_span_ctx@.parent;
        proof {
            lemma_show_wf(before, showing(others), waiting(others), parent, span_id);
            lemma_queue_holds_waiting(before, showing(others), waiting(others));
            assert(!before.rows.contains(RowKey::Unit(span_id)));
            pb_span_ctx.lemma_row();
        }
        if self.active_progress_bars < self.max_progress_bars {
            let parent_pb: Option<&Row> = match pb_span_ctx.parent_span() {
                Some(parent_id) => match units.get(&parent_id) {
                    Some(parent_ctx) => if parent_ctx.state() == RowState::Visible {
                        parent_ctx.progress_bar()
                    } else {
                        None
                    },
                    None => None,
                },
                None => None,
            };
            proof {
                if parent.is_some() {
                    assert(before.rows.contains(RowKey::Unit(parent.unwrap())) <==> showing(
                        others,
                    ).contains(parent.unwrap()));
                }
                assert(parent_pb.is_some() <==> (parent.is_some() && before.rows.contains(
                    RowKey::Unit(parent.unwrap()),
                )));
            }
            proof {
                if parent_pb.is_some() {
                    units@[parent.unwrap()].lemma_row();
                }
                if before.footer_shown() {
                    lemma_index_of_unique(before.rows, before.rows.len() - 1);
                }
            }
            let from_back: usize = if self.footer_pb.is_some() && self.pending_progress_bars > 0 {
                1
            } else {
                0
            };
            pb_span_ctx.show_row(
                &mut self.mp,
                parent_pb,
                from_back,
                self.tick_settings.default_tick_interval,
            );
            self.active_progress_bars += 1;
        } else {
            self.add_pending_pb(span_id);
        }
        proof {
            let after = units@.insert(span_id, *pb_span_ctx);
            lemma_views_insert(units@, span_id, *pb_span_ctx);
            lemma_views_remove(units@, span_id);
            if before.has_free_slot() {
                assert(showing(views(after)) =~= showing(others).insert(span_id));
                assert(waiting(views(after)) =~= waiting(others));
            } else {
                assert(showing(views(after)) =~= showing(others));
                assert(waiting(views(after)) =~= waiting(others).insert(span_id));
            }
            assert(views(after).dom() =~= others.dom().insert(span_id));
            lemma_rows_on_insert(units@, span_id, *pb_span_ctx, self.display_id());
        }
    }

    /// The first waiting unit of the queue, if there is one, leaves the queue
    /// and is shown. Units at the front of the queue that no longer wait are
    /// dropped on the way.
    fn promote_pending(&mut self, units: &mut HashMap<u64, IndicatifSpanContext>)
        requires
            old(self).wf(old(units)@),
        ensures
            final(self).wf(final(units)@),
            final(units)@.dom() == old(units)@.dom(),
            (final(self)@, views(final(units)@)) == old(self)@.promote(views(old(units)@)),
            final(self).display_id() == old(self).display_id(),
    {
        let ghost before = self@;
        let ghost others = views(units@);
        loop
            invariant
                before == old(self)@,
                self.display_id() == old(self).display_id(),
                old(self).wf(old(units)@),
                self.inv(),
                units@ == old(units)@,
                others == views(units@),
                before.wf_units(others),
                store_wf(units@),
                self@ == (Slots { queue: self@.queue, ..before }),
                skip_stale(self@.queue, others) == skip_stale(before.queue, others),
            decreases self@.queue.len(),
        {
            match self.pending_spans.pop_front() {
                None => {
                    proof {
                        lemma_skip_stale(before.queue, others);
                    }
                    return ;
                },
                Some(next_id) => {
                    let is_waiting = match units.get(&next_id) {
                        Some(next) => next.state() == RowState::Hidden,
                        None => false,
                    };
                    if is_waiting {
                        proof {
                            lemma_next_taken_wf(before, others);
                            lemma_views_remove(units@, next_id);
                        }
                        let removed = units.remove(&next_id);
                        let mut next = removed.unwrap();
                        self.decrement_pending_pb();
                        self.show_progress_bar(&mut next, units);
                        units.insert(next_id, next);
                        return ;
                    }
                },
            }
        }
    }

    /// Finishes the progress bar of a unit, where `units` holds the records of
    /// the other units. A unit that was never entered, or was finished before,
    /// changes nothing. A unit that waits leaves the count of waiting units. A
    /// unit on display loses its row and frees its slot, and the first waiting
    /// unit of the queue is shown in its place.
    pub fn finish_progress_bar(
        &mut self,
        pb_span_ctx: &mut IndicatifSpanContext,
        units: &mut HashMap<u64, IndicatifSpanContext>,
    )
        requires
            !old(units)@.contains_key(old(pb_span_ctx)@.id),
            old(self).wf(old(units)@.insert(old(pb_span_ctx)@.id, *old(pb_span_ctx))),
        ensures
            final(pb_span_ctx).wf(),
            final(pb_span_ctx).row().is_none(),
            final(pb_span_ctx)@ == old(pb_span_ctx)@.finished(),
            final(units)@.dom() == old(units)@.dom(),
            (final(self)@, views(final(units)@)) == old(self)@.finish(
                old(pb_span_ctx)@.id,
                old(pb_span_ctx)@.state,
                views(old(units)@),
            ),
            final(self).wf(final(units)@),
            final(self).wf(final(units)@.insert(old(pb_span_ctx)@.id, *final(pb_span_ctx))),
            final(self).display_id() == old(self).display_id(),
    {
        let span_id = pb_span_ctx.span_id();
        let ghost before = self@;
        let ghost others = views(units@);
        let ghost all = units@.insert(span_id, *pb_span_ctx);
        proof {
            assert(all.contains_key(span_id));
            lemma_views_insert(units@, span_id, *pb_span_ctx);
            lemma_finish_wf(before, span_id, pb_span_ctx@, others);
            pb_span_ctx.lemma_row();
            lemma_rows_on_others(units@, span_id, *pb_span_ctx, self.display_id());
        }
        match pb_span_ctx.state() {
            RowState::NotEntered | RowState::Removed => {},
            RowState::Hidden => {
                // The unit is finished before its progress bar was ever on display.
                let _ = pb_span_ctx.take_progress_bar();
                proof {
                    assert(waiting(views(all)).contains(span_id));
                }
                self.decrement_pending_pb();
            },
            RowState::Visible => {
                let mut pb = pb_span_ctx.take_progress_bar();
                proof {
                    lemma_release_wf(
                        before,
                        showing(views(all)),
                        waiting(views(all)),
                        span_id,
                    );
                    assert(showing(views(all)).remove(span_id) =~= showing(others));
                    assert(waiting(views(all)) =~= waiting(others));
                    lemma_views_remove(units@, span_id);
                }
                pb.finish_and_clear();
                remove_row(&mut self.mp, &mut pb);
                self.active_progress_bars -= 1;
                self.promote_pending(units);
            },
        }
        proof {
            let end = units@.insert(span_id, *pb_span_ctx);
            assert(showing(views(end)) =~= showing(views(units@)));
            assert(waiting(views(end)) =~= waiting(views(units@)));
            lemma_rows_on_insert(units@, span_id, *pb_span_ctx, self.display_id());
        }
    }
}

} // verus!
