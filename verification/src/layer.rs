//! The layer: the records of the work units, the slot manager, and what the
//! creation, the first entry and the end of a unit do to both.
//!
//! The layer keeps the records in a store of its own, under the units' ids. A
//! subscriber's registry holds the spans too, but what it holds changes while
//! other threads create and close spans, so that nothing could be said of what
//! a lookup in it returns. The layer is told of each unit's creation and of
//! its end, and its store holds the units between the two.

use crate::display::default_spinner_style;
use crate::display::display_id;
use crate::display::digit_free;
use crate::display::style_from_template;
use crate::display::template_or_spinner;
use crate::display::RowKey;
use crate::laws::lemma_close_within_limit;
use crate::laws::lemma_enter_within_limit;
use crate::pb_manager::ProgressBarManager;
use crate::pb_manager::TickSettings;
use crate::slots::showing;
use crate::slots::waiting;
use crate::slots::Footer;
use crate::slots::Slots;
use crate::span_context::lemma_views_insert;
use crate::span_context::lemma_views_remove;
use crate::span_context::repeated;
use crate::span_context::views;
use crate::span_context::IndicatifSpanContext;
use crate::span_context::RowState;
use crate::span_context::SpanView;
use crate::tree::lemma_nearest_known;
use crate::tree::nearest_known;
use crate::tree::LayerView;
use crate::writer::IndicatifWriter;
use crate::writer::Stderr;
use crate::writer::Stdout;
use indicatif::MultiProgress;
use indicatif::ProgressStyle;
use std::collections::HashMap;
use vstd::prelude::*;
use vstd::string::StringExecFns;

verus! {

broadcast use vstd::std_specs::hash::group_hash_axioms;

/// Creates and manages a progress bar for each work unit that is entered, and
/// finishes the bar when the unit ends.
///
/// A unit's progress bar starts the first time the unit is entered, or when one
/// of its descendants is entered for the first time. At most a set number of
/// bars are on display; the others wait, and a footer tells how many.
pub struct IndicatifLayer {
    pb_manager: ProgressBarManager,
    units: HashMap<u64, IndicatifSpanContext>,
    progress_style: ProgressStyle,
    span_child_prefix_indent: &'static str,
    span_child_prefix_symbol: &'static str,
}

impl View for IndicatifLayer {
    type V = LayerView;

    closed spec fn view(&self) -> LayerView {
        LayerView {
            slots: self.pb_manager@,
            units: views(self.units@),
            indent: self.span_child_prefix_indent@,
            symbol: self.span_child_prefix_symbol@,
            style: self.progress_style,
        }
    }
}

/// The style of the given template, or the style of a spinner where the
/// template does not parse.
fn style_or_spinner(template: &str) -> (style: ProgressStyle)
    requires
        digit_free(template@),
    ensures
        style == template_or_spinner(template@),
{
    match style_from_template(template) {
        Some(style) => style,
        None => default_spinner_style(),
    }
}

impl Default for IndicatifLayer {
    /// A layer without units that shows at most 7 progress bars, each with a
    /// spinner, the unit's name and its fields, and a footer
    /// "...and N more not shown above."; the tick settings are those that one
    /// starts from.
    fn default() -> (layer: Self)
        ensures
            layer.wf(),
            layer@ == (LayerView {
                slots: Slots {
                    rows: Seq::<RowKey>::empty(),
                    active: 0,
                    max: 7,
                    pending: 0,
                    counter: 0,
                    queue: Seq::<u64>::empty(),
                    footer: Some(
                        Footer::fresh(
                            template_or_spinner(
                                "...and {pending_progress_bars} more not shown above."@,
                            ),
                        ),
                    ),
                    tick: layer@.slots.tick,
                },
                units: Map::<u64, SpanView>::empty(),
                indent: "  "@,
                symbol: "↳ "@,
                style: template_or_spinner(
                    "{span_child_prefix}{spinner} {span_name}{{{span_fields}}}"@,
                ),
            }),
            layer@.slots.tick.is_default(),
    {
        proof {
            reveal_strlit("...and {pending_progress_bars} more not shown above.");
            reveal_strlit("{span_child_prefix}{spinner} {span_name}{{{span_fields}}}");
        }
        let pb_manager = ProgressBarManager::new(
            7,
            Some(style_or_spinner("...and {pending_progress_bars} more not shown above.")),
            TickSettings::default(),
        );
        let layer = IndicatifLayer {
            pb_manager,
            units: HashMap::new(),
            progress_style: style_or_spinner(
                "{span_child_prefix}{spinner} {span_name}{{{span_fields}}}",
            ),
            span_child_prefix_indent: "  ",
            span_child_prefix_symbol: "↳ ",
        };
        proof {
            assert(views(layer.units@) =~= Map::<u64, SpanView>::empty());
            assert(showing(views(layer.units@)) =~= Set::<u64>::empty());
            assert(waiting(views(layer.units@)) =~= Set::<u64>::empty());
        }
        layer
    }
}

impl IndicatifLayer {
    /// What holds of the layer at all times: see [`ProgressBarManager::wf`].
    pub closed spec fn wf(&self) -> bool {
        self.pb_manager.wf(self.units@)
    }

    /// What holds of the layer holds of its plain values.
    pub proof fn lemma_wf(&self)
        requires
            self.wf(),
        ensures
            self@.wf(),
    {
    }

    /// The layer of [`IndicatifLayer::default`].
    pub fn new() -> (layer: Self)
        ensures
            layer.wf(),
            layer@ == (LayerView {
                slots: Slots {
                    rows: Seq::<RowKey>::empty(),
                    active: 0,
                    max: 7,
                    pending: 0,
                    counter: 0,
                    queue: Seq::<u64>::empty(),
                    footer: Some(
                        Footer::fresh(
                            template_or_spinner(
                                "...and {pending_progress_bars} more not shown above."@,
                            ),
                        ),
                    ),
                    tick: layer@.slots.tick,
                },
                units: Map::<u64, SpanView>::empty(),
                indent: "  "@,
                symbol: "↳ "@,
                style: template_or_spinner(
                    "{span_child_prefix}{spinner} {span_name}{{{span_fields}}}"@,
                ),
            }),
            layer@.slots.tick.is_default(),
    {
        IndicatifLayer::default()
    }

    /// Overrides the style used for the progress bars of units that are
    /// entered from now on: the layer holds the given style, and nothing else
    /// changes. Besides the keys of `indicatif`, the template may use
    /// `span_name`, `span_fields` and `span_child_prefix`.
    pub fn with_progress_style(self, style: ProgressStyle) -> (layer: Self)
        requires
            self.wf(),
        ensures
            layer.wf(),
            layer@ == (LayerView { style, ..self@ }),
    {
        let mut layer = self;
        layer.progress_style = style;
        layer
    }

    /// Sets the indent that stands once for each level in the prefix of a
    /// child's progress bar.
    pub fn with_span_child_prefix_indent(self, indent: &'static str) -> (layer: Self)
        requires
            self.wf(),
        ensures
            layer.wf(),
            layer@ == (LayerView { indent: indent@, ..self@ }),
    {
        let mut layer = self;
        layer.span_child_prefix_indent = indent;
        layer
    }

    /// Sets the symbol that ends the prefix of a child's progress bar.
    pub fn with_span_child_prefix_symbol(self, symbol: &'static str) -> (layer: Self)
        requires
            self.wf(),
        ensures
            layer.wf(),
            layer@ == (LayerView { symbol: symbol@, ..self@ }),
    {
        let mut layer = self;
        layer.span_child_prefix_symbol = symbol;
        layer
    }

    /// Sets the number of progress bars that may be on display at once, and
    /// the style of the footer that tells how many more wait; `None` for no
    /// footer. The footer's template may use the key `pending_progress_bars`.
    /// The queue starts anew: the units that waited are finished and get no
    /// progress bar, and the footer is off the display until a unit has to
    /// wait again.
    pub fn with_max_progress_bars(
        self,
        max_progress_bars: u64,
        footer_style: Option<ProgressStyle>,
    ) -> (layer: Self)
        requires
            self.wf(),
        ensures
            layer.wf(),
            layer@ == self@.reconfigured(max_progress_bars as nat, footer_style),
    {
        let mut layer = self;
        layer.pb_manager.set_max_progress_bars(
            max_progress_bars,
            footer_style,
            &mut layer.units,
        );
        layer
    }

    /// Sets how often progress bars are recalculated and redrawn: the layer's
    /// slot manager holds the given settings, and nothing else changes.
    pub fn with_tick_settings(self, tick_settings: TickSettings) -> (layer: Self)
        requires
            self.wf(),
            tick_settings.term_draw_hz > 0,
        ensures
            layer.wf(),
            layer@ == (LayerView {
                slots: Slots { tick: tick_settings, ..self@.slots },
                ..self@
            }),
    {
        let mut layer = self;
        layer.pb_manager.set_tick_settings(tick_settings);
        layer
    }

    /// Which display holds the rows of the layer's progress bars, by
    /// [`crate::display::display_id`].
    pub closed spec fn display_id(&self) -> int {
        self.pb_manager.display_id()
    }

    /// A second handle to the layer's display, for writers that must not
    /// collide with the progress bars. The layer alone adds rows to the display
    /// and takes rows off it: a holder of this handle suspends and redraws, no
    /// more.
    pub fn multi_progress(&self) -> (handle: MultiProgress)
        ensures
            display_id(handle) == self.display_id(),
    {
        self.pb_manager.multi_progress()
    }

    /// The same writer as [`IndicatifLayer::get_stderr_writer`]: one that
    /// suspends the progress bars of the layer's display.
    pub fn get_fmt_writer(&self) -> (writer: IndicatifWriter<Stderr>)
        ensures
            display_id(writer.spec_progress_bars()) == self.display_id(),
    {
        self.get_stderr_writer()
    }

    /// A writer for the standard error stream whose output is not overdrawn by
    /// the progress bars of this layer: it suspends the progress bars of the
    /// layer's display.
    pub fn get_stderr_writer(&self) -> (writer: IndicatifWriter<Stderr>)
        ensures
            display_id(writer.spec_progress_bars()) == self.display_id(),
    {
        IndicatifWriter::new(self.pb_manager.multi_progress())
    }

    /// A writer for the standard output whose output is not overdrawn by the
    /// progress bars of this layer: it suspends the progress bars of the
    /// layer's display.
    pub fn get_stdout_writer(&self) -> (writer: IndicatifWriter<Stdout>)
        ensures
            display_id(writer.spec_progress_bars()) == self.display_id(),
    {
        IndicatifWriter::new(self.pb_manager.multi_progress())
    }

    /// The prefix of a unit `level` levels deep: the indent once for each
    /// level, then the child symbol.
    fn child_prefix(&self, level: u16) -> (prefix: String)
        ensures
            prefix@ == repeated(self@.indent, level as nat) + self@.symbol,
    {
        let mut prefix = String::new();
        let mut done: u16 = 0;
        while done < level
            invariant
                done <= level,
                prefix@ == repeated(self.span_child_prefix_indent@, done as nat),
            decreases level - done,
        {
            prefix.append(self.span_child_prefix_indent);
            done += 1;
        }
        prefix.append(self.span_child_prefix_symbol);
        prefix
    }

    /// The first of the ancestors, nearest first, that has a record.
    fn nearest_ancestor(&self, ancestors: &[u64]) -> (parent: Option<u64>)
        ensures
            parent == nearest_known(ancestors@, self@.units),
    {
        let ghost units = views(self.units@);
        let mut i: usize = 0;
        assert(ancestors@.skip(0) =~= ancestors@);
        while i < ancestors.len()
            invariant
                i <= ancestors.len(),
                units == views(self.units@),
                nearest_known(ancestors@, units) == nearest_known(ancestors@.skip(i as int), units),
            decreases ancestors.len() - i,
        {
            let ancestor = ancestors[i];
            proof {
                assert(ancestors@.skip(i as int).drop_first() =~= ancestors@.skip(i + 1));
            }
            if self.units.contains_key(&ancestor) {
                return Some(ancestor);
            }
            i += 1;
        }
        None
    }

    /// Whether the layer has a record of the unit.
    pub fn has_span(&self, id: u64) -> (known: bool)
        ensures
            known == self@.units.contains_key(id),
    {
        self.units.contains_key(&id)
    }

    /// The level of the unit: the number of its ancestors with a record, as
    /// found when the unit was created.
    pub fn span_level(&self, id: u64) -> (level: Option<u16>)
        ensures
            level.is_some() == self@.units.contains_key(id),
            level.is_some() ==> level.unwrap() == self@.units[id].level,
    {
        match self.units.get(&id) {
            Some(ctx) => Some(ctx.level()),
            None => None,
        }
    }

    /// The nearest ancestor of the unit with a record, as found when the unit
    /// was created. The outer value is `None` for a unit without a record.
    pub fn span_parent(&self, id: u64) -> (parent: Option<Option<u64>>)
        ensures
            parent.is_some() == self@.units.contains_key(id),
            parent.is_some() ==> parent.unwrap() == self@.units[id].parent,
    {
        match self.units.get(&id) {
            Some(ctx) => Some(ctx.parent_span()),
            None => None,
        }
    }

    /// The prefix that marks the unit's row as that of a child.
    pub fn span_child_prefix(&self, id: u64) -> (prefix: Option<String>)
        ensures
            prefix.is_some() == self@.units.contains_key(id),
            prefix.is_some() ==> prefix.unwrap()@ == self@.units[id].child_prefix,
    {
        match self.units.get(&id) {
            Some(ctx) => Some(ctx.span_child_prefix().clone()),
            None => None,
        }
    }

    /// The number of units whose progress bar is on display.
    pub fn active_progress_bars(&self) -> (n: u64)
        ensures
            n == self@.slots.active,
    {
        self.pb_manager.active_progress_bars()
    }

    /// The number of units whose progress bar waits for a slot.
    pub fn pending_progress_bars(&self) -> (n: usize)
        ensures
            n == self@.slots.pending,
    {
        self.pb_manager.pending_progress_bars()
    }

    /// The number of progress bars that may be on display at once.
    pub fn max_progress_bars(&self) -> (n: u64)
        ensures
            n == self@.slots.max,
    {
        self.pb_manager.max_progress_bars()
    }

    /// The state of the unit's progress bar.
    pub fn span_state(&self, id: u64) -> (state: Option<RowState>)
        ensures
            state.is_some() == self@.units.contains_key(id),
            state.is_some() ==> state.unwrap() == self@.units[id].state,
    {
        match self.units.get(&id) {
            Some(ctx) => Some(ctx.state()),
            None => None,
        }
    }

    /// A unit was created: the layer makes its record. `ancestors` are the
    /// unit's ancestors, nearest first; the nearest one with a record becomes
    /// the unit's parent, and the unit is one level deeper than it. The unit
    /// gets no progress bar before it is entered.
    pub fn on_new_span(&mut self, id: u64, name: &str, fields: String, ancestors: &[u64])
        requires
            old(self).wf(),
            !old(self)@.units.contains_key(id),
            old(self)@.parent_level(ancestors@) < u16::MAX,
        ensures
            final(self).wf(),
            final(self)@ == old(self)@.with_unit(
                id,
                old(self)@.new_unit(id, name@, fields@, ancestors@),
            ),
    {
        // Get the next parent unit with a record.
        let parent = self.nearest_ancestor(ancestors);
        proof {
            lemma_nearest_known(ancestors@, self@.units);
        }
        let parent_level = match parent {
            Some(parent_id) => match self.units.get(&parent_id) {
                Some(parent_ctx) => Some(parent_ctx.level()),
                None => None,
            },
            None => None,
        };
        let (span_child_prefix, level) = match parent_level {
            Some(parent_level) => {
                let level = parent_level + 1;
                (self.child_prefix(level), level)
            },
            None => (String::new(), 0),
        };
        let ctx = IndicatifSpanContext::new(
            id,
            parent,
            level,
            name.to_owned(),
            fields,
            span_child_prefix,
        );
        proof {
            self.pb_manager.lemma_unit_changed(self.units@, id, ctx);
            lemma_views_insert(self.units@, id, ctx);
        }
        self.units.insert(id, ctx);
    }

    /// Changes the style of the unit's progress bar, the unit's keys added: at
    /// once where the unit has a bar, and for the bar to come where the unit
    /// was not entered yet. Nothing happens for a unit without a record.
    pub fn pb_set_style(&mut self, id: u64, style: ProgressStyle)
        requires
            old(self).wf(),
        ensures
            final(self).wf(),
            final(self)@ == old(self)@.changed(id, |unit: SpanView| unit.style_set(style)),
    {
        let removed = self.units.remove(&id);
        if let Some(mut ctx) = removed {
            ctx.set_progress_bar_style(style);
            proof {
                lemma_put_back(self.pb_manager, old(self).units@, id, ctx);
            }
            self.units.insert(id, ctx);
        } else {
            assert(self.units@ =~= old(self).units@);
        }
    }

    /// Sets the length of the unit's progress bar: at once where the unit has
    /// a bar, and for the bar to come where the unit was not entered yet.
    /// Nothing happens for a unit without a record.
    pub fn pb_set_length(&mut self, id: u64, len: u64)
        requires
            old(self).wf(),
        ensures
            final(self).wf(),
            final(self)@ == old(self)@.changed(id, |unit: SpanView| unit.length_set(len)),
    {
        let removed = self.units.remove(&id);
        if let Some(mut ctx) = removed {
            ctx.set_progress_bar_length(len);
            proof {
                lemma_put_back(self.pb_manager, old(self).units@, id, ctx);
            }
            self.units.insert(id, ctx);
        } else {
            assert(self.units@ =~= old(self).units@);
        }
    }

    /// Sets the position of the unit's progress bar: at once where the unit has
    /// a bar, and for the bar to come where the unit was not entered yet.
    /// Nothing happens for a unit without a record.
    pub fn pb_set_position(&mut self, id: u64, pos: u64)
        requires
            old(self).wf(),
        ensures
            final(self).wf(),
            final(self)@ == old(self)@.changed(id, |unit: SpanView| unit.position_set(pos)),
    {
        let removed = self.units.remove(&id);
        if let Some(mut ctx) = removed {
            ctx.set_progress_bar_position(pos);
            proof {
                lemma_put_back(self.pb_manager, old(self).units@, id, ctx);
            }
            self.units.insert(id, ctx);
        } else {
            assert(self.units@ =~= old(self).units@);
        }
    }

    /// Moves the position of the unit's progress bar forward by `delta`: at
    /// once where the unit has a bar, and for the bar to come, counted from 0
    /// where no position was set, where the unit was not entered yet. Nothing
    /// happens for a unit without a record.
    pub fn pb_inc(&mut self, id: u64, delta: u64)
        requires
            old(self).wf(),
        ensures
            final(self).wf(),
            final(self)@ == old(self)@.changed(id, |unit: SpanView| unit.position_moved(delta)),
    {
        let removed = self.units.remove(&id);
        if let Some(mut ctx) = removed {
            ctx.inc_progress_bar_position(delta);
            proof {
                lemma_put_back(self.pb_manager, old(self).units@, id, ctx);
            }
            self.units.insert(id, ctx);
        } else {
            assert(self.units@ =~= old(self).units@);
        }
    }

    /// Makes the length of the unit's progress bar longer by `delta`: at once
    /// where the unit has a bar, and for the bar to come where the unit was
    /// not entered yet and a length was set. Nothing happens where no length
    /// was set before the unit was entered, nor for a unit without a record.
    pub fn pb_inc_length(&mut self, id: u64, delta: u64)
        requires
            old(self).wf(),
        ensures
            final(self).wf(),
            final(self)@ == old(self)@.changed(id, |unit: SpanView| unit.length_grown(delta)),
    {
        let removed = self.units.remove(&id);
        if let Some(mut ctx) = removed {
            ctx.inc_progress_bar_length(delta);
            proof {
                lemma_put_back(self.pb_manager, old(self).units@, id, ctx);
            }
            self.units.insert(id, ctx);
        } else {
            assert(self.units@ =~= old(self).units@);
        }
    }

    /// Sets the message of the unit's progress bar: at once where the unit has
    /// a bar, and for the bar to come where the unit was not entered yet.
    /// Nothing happens for a unit without a record.
    pub fn pb_set_message(&mut self, id: u64, msg: &str)
        requires
            old(self).wf(),
        ensures
            final(self).wf(),
            final(self)@ == old(self)@.changed(id, |unit: SpanView| unit.message_set(msg@)),
    {
        let removed = self.units.remove(&id);
        if let Some(mut ctx) = removed {
            ctx.set_progress_bar_message(msg.to_owned());
            proof {
                lemma_put_back(self.pb_manager, old(self).units@, id, ctx);
            }
            self.units.insert(id, ctx);
        } else {
            assert(self.units@ =~= old(self).units@);
        }
    }

    /// Sets the message to show when the unit's progress bar is finished.
    /// Nothing happens for a unit without a record.
    pub fn pb_set_finish_message(&mut self, id: u64, msg: &str)
        requires
            old(self).wf(),
        ensures
            final(self).wf(),
            final(self)@ == old(self)@.changed(id, |unit: SpanView| unit.finish_message_set(msg@)),
    {
        let removed = self.units.remove(&id);
        if let Some(mut ctx) = removed {
            ctx.set_progress_bar_finish_message(msg.to_owned());
            proof {
                lemma_put_back(self.pb_manager, old(self).units@, id, ctx);
            }
            self.units.insert(id, ctx);
        } else {
            assert(self.units@ =~= old(self).units@);
        }
    }

    /// Has the unit's progress bar compute its line anew. Nothing happens where
    /// the unit has no bar.
    pub fn pb_tick(&self, id: u64) {
        if let Some(ctx) = self.units.get(&id) {
            ctx.progress_bar_tick();
        }
    }

    /// Sets the unit's progress bar back to its start, position 0. Nothing
    /// happens where the unit has no bar.
    pub fn pb_reset(&mut self, id: u64)
        requires
            old(self).wf(),
        ensures
            final(self).wf(),
            final(self)@ == old(self)@.changed(id, |unit: SpanView| unit.position_reset()),
    {
        let removed = self.units.remove(&id);
        if let Some(mut ctx) = removed {
            ctx.reset_progress_bar();
            proof {
                lemma_put_back(self.pb_manager, old(self).units@, id, ctx);
            }
            self.units.insert(id, ctx);
        } else {
            assert(self.units@ =~= old(self).units@);
        }
    }

    /// Sets the elapsed time of the unit's progress bar back to zero. Nothing
    /// happens where the unit has no bar.
    pub fn pb_reset_elapsed(&self, id: u64) {
        if let Some(ctx) = self.units.get(&id) {
            ctx.reset_progress_bar_elapsed();
        }
    }

    /// Has the unit's progress bar estimate its remaining time anew. Nothing
    /// happens where the unit has no bar.
    pub fn pb_reset_eta(&self, id: u64) {
        if let Some(ctx) = self.units.get(&id) {
            ctx.reset_progress_bar_eta();
        }
    }

    /// The position of the unit's progress bar, where the unit has a bar.
    pub fn pb_position(&self, id: u64) -> (pos: Option<u64>)
        requires
            self.wf(),
        ensures
            pos == if self@.units.contains_key(id) && self@.units[id].has_row() {
                self@.units[id].pos
            } else {
                None
            },
    {
        match self.units.get(&id) {
            Some(ctx) => {
                proof {
                    lemma_record_wf(self.pb_manager, self.units@, id);
                }
                ctx.progress_bar_position()
            },
            None => None,
        }
    }

    /// The length of the unit's progress bar, where the unit has a bar; the
    /// inner value is `None` for a bar without a length.
    pub fn pb_length(&self, id: u64) -> (len: Option<Option<u64>>)
        requires
            self.wf(),
        ensures
            len == if self@.units.contains_key(id) && self@.units[id].has_row() {
                Some(self@.units[id].len)
            } else {
                None
            },
    {
        match self.units.get(&id) {
            Some(ctx) => {
                proof {
                    lemma_record_wf(self.pb_manager, self.units@, id);
                }
                ctx.progress_bar_length()
            },
            None => None,
        }
    }

    /// Starts the progress bars of the unit and of its ancestors, the ancestors
    /// first, as far as they were not started. Nothing changes for a unit that
    /// was entered before, nor for a unit without a record.
    pub fn handle_on_enter(&mut self, id: u64)
        requires
            old(self).wf(),
        ensures
            final(self).wf(),
            final(self)@ == old(self)@.entered(id),
        decreases old(self)@.level_of(id),
    {
        let (parent, level) = match self.units.get(&id) {
            Some(ctx) => {
                if ctx.state() != RowState::NotEntered {
                    return ;
                }
                (ctx.parent_span(), ctx.level())
            },
            None => {
                return ;
            },
        };
        if let Some(parent_id) = parent {
            if let Some(parent_level) = self.span_level(parent_id) {
                if parent_level < level {
                    // Start the parent's progress bar first if the parent was not entered yet.
                    self.handle_on_enter(parent_id);
                }
            }
        }
        let ghost ready = *self;
        let removed = self.units.remove(&id);
        if let Some(mut ctx) = removed {
            if ctx.state() == RowState::NotEntered {
                proof {
                    ready.pb_manager.lemma_unit_removed(ready.units@, id);
                    lemma_views_remove(ready.units@, id);
                }
                // Start the progress bar when the unit is entered for the first time.
                ctx.make_progress_bar(&self.progress_style);
                self.pb_manager.show_progress_bar(&mut ctx, &self.units);
                proof {
                    lemma_views_insert(ready.units@.remove(id), id, ctx);
                    let records = views(ready.units@);
                    assert(records.remove(id).insert(id, ctx@) =~= records.insert(id, ctx@));
                }
                self.units.insert(id, ctx);
            } else {
                self.units.insert(id, ctx);
                assert(self.units@ =~= ready.units@);
            }
        } else {
            assert(self.units@ =~= ready.units@);
        }
    }

    /// A unit was entered. On the first entry of a unit its progress bar is
    /// started, after those of its ancestors; a later entry changes nothing.
    pub fn on_enter(&mut self, id: u64)
        requires
            old(self).wf(),
        ensures
            final(self).wf(),
            final(self)@ == old(self)@.entered(id),
            old(self)@.slots.active <= old(self)@.slots.max ==> final(self)@.slots.active
                <= final(self)@.slots.max,
    {
        proof {
            if self@.slots.active <= self@.slots.max {
                lemma_enter_within_limit(self@, id);
            }
        }
        self.handle_on_enter(id);
    }

    /// Starts the unit's progress bar as a first entry of the unit does. Has
    /// no effect if the unit was entered before.
    pub fn pb_start(&mut self, id: u64)
        requires
            old(self).wf(),
        ensures
            final(self).wf(),
            final(self)@ == old(self)@.entered(id),
            old(self)@.slots.active <= old(self)@.slots.max ==> final(self)@.slots.active
                <= final(self)@.slots.max,
    {
        self.on_enter(id);
    }

    /// A unit ended: its progress bar is finished, and the layer drops the
    /// unit's record. A unit on display frees its slot for the unit that has
    /// waited longest.
    pub fn on_close(&mut self, id: u64)
        requires
            old(self).wf(),
        ensures
            final(self).wf(),
            final(self)@ == old(self)@.closed(id),
            old(self)@.slots.active <= old(self)@.slots.max ==> final(self)@.slots.active
                <= final(self)@.slots.max,
    {
        proof {
            if self@.slots.active <= self@.slots.max {
                lemma_close_within_limit(self@, id);
            }
        }
        let removed = self.units.remove(&id);
        if let Some(mut ctx) = removed {
            proof {
                assert(self.units@.insert(id, ctx) =~= old(self).units@);
                lemma_views_remove(old(self).units@, id);
            }
            // Clear the progress bar only when the unit has ended completely.
            self.pb_manager.finish_progress_bar(&mut ctx, &mut self.units);
        } else {
            assert(self.units@ =~= old(self).units@);
        }
    }

    /// Finishes the unit's progress bar while the unit goes on. The unit gets
    /// no progress bar again; a unit on display frees its slot for the unit
    /// that has waited longest.
    pub fn pb_finish_clear(&mut self, id: u64)
        requires
            old(self).wf(),
        ensures
            final(self).wf(),
            final(self)@ == old(self)@.cleared(id),
            old(self)@.slots.active <= old(self)@.slots.max ==> final(self)@.slots.active
                <= final(self)@.slots.max,
    {
        proof {
            if self@.slots.active <= self@.slots.max {
                lemma_close_within_limit(self@, id);
            }
        }
        let removed = self.units.remove(&id);
        if let Some(mut ctx) = removed {
            proof {
                assert(self.units@.insert(id, ctx) =~= old(self).units@);
                lemma_views_remove(old(self).units@, id);
            }
            self.pb_manager.finish_progress_bar(&mut ctx, &mut self.units);
            proof {
                lemma_views_insert(self.units@, id, ctx);
            }
            self.units.insert(id, ctx);
        } else {
            assert(self.units@ =~= old(self).units@);
        }
    }
}

/// The record of a unit in a well-formed store is well formed.
proof fn lemma_record_wf(
    manager: ProgressBarManager,
    units: Map<u64, IndicatifSpanContext>,
    id: u64,
)
    requires
        manager.wf(units),
        units.contains_key(id),
    ensures
        units[id].wf(),
        units[id]@.id == id,
{
}

/// A record that was taken out of the store, changed without a change of
/// state and put back leaves the layer well formed.
proof fn lemma_put_back(
    manager: ProgressBarManager,
    units: Map<u64, IndicatifSpanContext>,
    id: u64,
    unit: IndicatifSpanContext,
)
    requires
        manager.wf(units),
        units.contains_key(id),
        unit.wf(),
        unit@.id == id,
        unit@.state == units[id]@.state,
        unit.on_display() == units[id].on_display(),
    ensures
        manager.wf(units.remove(id).insert(id, unit)),
        units.remove(id).insert(id, unit) == units.insert(id, unit),
        views(units.insert(id, unit)) == views(units).insert(id, unit@),
{
    manager.lemma_unit_changed(units, id, unit);
    assert(units.remove(id).insert(id, unit) =~= units.insert(id, unit));
}

} // verus!
