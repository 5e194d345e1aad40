//! The record that the layer keeps of each work unit, and the changes that can
//! be made to a unit's progress bar at any time: before the unit is entered,
//! while its row waits or shows, and after the row is gone.

use crate::display::add_row;
use crate::display::clone_style;
use crate::display::cloned_style;
use crate::display::display_id;
use crate::display::displayed;
use crate::display::insert_row_after;
use crate::display::insert_row_from_back;
use crate::display::keyed_style;
use crate::display::steady;
use crate::display::style_with_text;
use crate::display::Row;
use crate::display::RowKey;
use indicatif::MultiProgress;
use indicatif::ProgressStyle;
use std::time::Duration;
use vstd::prelude::*;

verus! {

/// Where a work unit stands between its creation and the end of its row. A unit
/// only moves forward: `NotEntered`, `Hidden`, `Visible`, `Removed`.
#[derive(Clone, Copy, Debug, PartialEq, Eq, Structural)]
pub enum RowState {
    /// The unit was never entered: it has no progress bar.
    NotEntered,
    /// The unit has a progress bar that is not on display.
    Hidden,
    /// The unit's progress bar is a row of the display and fills a slot.
    Visible,
    /// The unit's progress bar was finished and is gone.
    Removed,
}

impl RowState {
    /// How far a unit has come: 0 before its first entry, 1 while it waits, 2
    /// while its row is on display, 3 once its progress bar is gone.
    pub open spec fn rank(self) -> int {
        match self {
            RowState::NotEntered => 0,
            RowState::Hidden => 1,
            RowState::Visible => 2,
            RowState::Removed => 3,
        }
    }
}

/// Settings that were made before the unit had a progress bar. The bar gets
/// them when it is made.
pub struct ProgressBarInitSettings {
    style: Option<ProgressStyle>,
    len: Option<u64>,
    pos: Option<u64>,
    message: Option<String>,
}

/// What the layer knows of one work unit.
pub struct IndicatifSpanContext {
    span_id: u64,
    state: RowState,
    // `Some` exactly while the state is `Hidden` or `Visible`.
    progress_bar: Option<Row>,
    pb_init_settings: ProgressBarInitSettings,
    // The nearest ancestor that the layer had a record of when this unit was
    // created.
    parent_span: Option<u64>,
    span_fields_formatted: String,
    span_name: String,
    span_child_prefix: String,
    // The number of ancestors with a record, by which a child's prefix is
    // computed without walking up the tree.
    level: u16,
    finish_message: Option<String>,
}

/// A work unit's record as plain values.
pub struct SpanView {
    /// The id of the unit.
    pub id: u64,
    /// Where the unit stands between its creation and the end of its row.
    pub state: RowState,
    /// The style of the unit's progress bar as it was given, with the unit's
    /// keys, or of the bar to come where the unit was not entered yet; `None`
    /// where none was set for the bar to come, and for a unit whose bar is
    /// gone.
    pub style: Option<ProgressStyle>,
    /// The length of the unit's progress bar, or of the bar to come where the
    /// unit was not entered yet; `None` where there is no length.
    pub len: Option<u64>,
    /// The position of the unit's progress bar, or of the bar to come where
    /// the unit was not entered yet; `None` where none was set for the bar to
    /// come, and for a unit whose bar is gone.
    pub pos: Option<u64>,
    /// The message of the unit's progress bar, or of the bar to come where the
    /// unit was not entered yet; `None` where none was set for the bar to
    /// come, and for a unit whose bar is gone.
    pub message: Option<Seq<char>>,
    /// The nearest ancestor that had a record when the unit was created.
    pub parent: Option<u64>,
    /// The unit's fields as formatted text.
    pub fields: Seq<char>,
    /// The unit's name.
    pub name: Seq<char>,
    /// The prefix that marks the unit's row as that of a child: one indent for
    /// each level and the child symbol; empty for a unit at level 0.
    pub child_prefix: Seq<char>,
    /// The number of the unit's ancestors with a record, counted when the unit
    /// was created.
    pub level: u16,
    /// The message to show when the unit's progress bar is finished.
    pub finish_message: Option<Seq<char>>,
    /// The interval at which the unit's progress bar ticks by itself; `None`
    /// for a bar that does not, and for a unit without a bar.
    pub tick: Option<Duration>,
}

impl SpanView {
    /// Whether the unit has a progress bar.
    pub open spec fn has_row(self) -> bool {
        self.state == RowState::Hidden || self.state == RowState::Visible
    }

    /// A style with the three keys that a unit's template may use, each
    /// written as the unit's text: `span_name` as the name, `span_fields` as
    /// the formatted fields, `span_child_prefix` as the child prefix.
    pub open spec fn with_keys(self, style: ProgressStyle) -> ProgressStyle {
        keyed_style(
            keyed_style(keyed_style(style, "span_name"@, self.name), "span_fields"@, self.fields),
            "span_child_prefix"@,
            self.child_prefix,
        )
    }

    /// The record once the unit's progress bar went on display: the bar ticks
    /// by itself at the given interval, if one is given.
    pub open spec fn shown(self, interval: Option<Duration>) -> SpanView {
        SpanView { state: RowState::Visible, tick: steady(self.tick, interval), ..self }
    }

    /// The record with another state and nothing else changed.
    pub open spec fn with_state(self, state: RowState) -> SpanView {
        SpanView { state, ..self }
    }

    /// The record once the unit's progress bar is made: the bar has the style
    /// that was set for it, or else a copy of the given style with the unit's
    /// keys; the message that was set for it, or else the empty message; the
    /// length that was set for it, if any; and the position that was set for
    /// it, or else position 0.
    pub open spec fn with_bar(self, state: RowState, default_style: ProgressStyle) -> SpanView {
        SpanView {
            state,
            style: Some(
                match self.style {
                    Some(style) => style,
                    None => self.with_keys(cloned_style(default_style)),
                },
            ),
            pos: Some(
                match self.pos {
                    Some(pos) => pos,
                    None => 0,
                },
            ),
            message: Some(
                match self.message {
                    Some(message) => message,
                    None => Seq::<char>::empty(),
                },
            ),
            ..self
        }
    }

    /// The record once the unit is finished: a unit that had a progress bar
    /// has lost it for good.
    pub open spec fn finished(self) -> SpanView {
        if self.has_row() {
            SpanView {
                state: RowState::Removed,
                tick: None,
                style: None,
                message: None,
                len: None,
                pos: None,
                ..self
            }
        } else {
            self
        }
    }

    /// The record after a style was set: the unit's progress bar, or the bar
    /// to come, has the style with the unit's keys. Nothing changes for a unit
    /// whose progress bar is gone.
    pub open spec fn style_set(self, style: ProgressStyle) -> SpanView {
        if self.state == RowState::Removed {
            self
        } else {
            SpanView { style: Some(self.with_keys(style)), ..self }
        }
    }

    /// The record after a length was set: nothing changes for a unit whose
    /// progress bar is gone.
    pub open spec fn length_set(self, len: u64) -> SpanView {
        if self.state == RowState::Removed {
            self
        } else {
            SpanView { len: Some(len), ..self }
        }
    }

    /// The record after a position was set: nothing changes for a unit whose
    /// progress bar is gone.
    pub open spec fn position_set(self, pos: u64) -> SpanView {
        if self.state == RowState::Removed {
            self
        } else {
            SpanView { pos: Some(pos), ..self }
        }
    }

    /// The record after a message was set: the unit's progress bar, or the
    /// bar to come, has the message. Nothing changes for a unit whose progress
    /// bar is gone.
    pub open spec fn message_set(self, msg: Seq<char>) -> SpanView {
        if self.state == RowState::Removed {
            self
        } else {
            SpanView { message: Some(msg), ..self }
        }
    }

    /// The record after the position was moved forward by `delta`: the
    /// position counts from 0 where none was set, and wraps around past the
    /// largest position. Nothing changes for a unit whose progress bar is gone.
    pub open spec fn position_moved(self, delta: u64) -> SpanView {
        if self.state == RowState::Removed {
            self
        } else {
            SpanView {
                pos: Some(
                    match self.pos {
                        Some(pos) => pos.wrapping_add(delta),
                        None => delta,
                    },
                ),
                ..self
            }
        }
    }

    /// The record after the length grew by `delta`: a length that was set
    /// grows, up to the largest length; where there is no length, there is
    /// none afterwards.
    pub open spec fn length_grown(self, delta: u64) -> SpanView {
        SpanView {
            len: match self.len {
                Some(len) => Some(len.saturating_add(delta)),
                None => None,
            },
            ..self
        }
    }

    /// The record after the unit's progress bar was set back to its start: a
    /// bar is at position 0 again.
    pub open spec fn position_reset(self) -> SpanView {
        if self.has_row() {
            SpanView { pos: Some(0), ..self }
        } else {
            self
        }
    }

    /// The record after a finish message was set.
    pub open spec fn finish_message_set(self, msg: Seq<char>) -> SpanView {
        SpanView { finish_message: Some(msg), ..self }
    }
}

/// The text that `n` copies of `s` make.
pub open spec fn repeated(s: Seq<char>, n: nat) -> Seq<char>
    decreases n,
{
    if n == 0 {
        Seq::<char>::empty()
    } else {
        repeated(s, (n - 1) as nat) + s
    }
}

impl View for IndicatifSpanContext {
    type V = SpanView;

    closed spec fn view(&self) -> SpanView {
        SpanView {
            id: self.span_id,
            state: self.state,
            style: match self.progress_bar {
                Some(row) => Some(row.spec_style()),
                None => self.pb_init_settings.style,
            },
            len: match self.progress_bar {
                Some(row) => row.spec_length(),
                None => self.pb_init_settings.len,
            },
            pos: match self.progress_bar {
                Some(row) => Some(row.spec_position()),
                None => self.pb_init_settings.pos,
            },
            message: match self.progress_bar {
                Some(row) => Some(row.spec_message()),
                None => match self.pb_init_settings.message {
                    Some(m) => Some(m@),
                    None => None,
                },
            },
            parent: self.parent_span,
            fields: self.span_fields_formatted@,
            name: self.span_name@,
            child_prefix: self.span_child_prefix@,
            level: self.level,
            finish_message: match self.finish_message {
                Some(m) => Some(m@),
                None => None,
            },
            tick: match self.progress_bar {
                Some(row) => row.spec_tick(),
                None => None,
            },
        }
    }
}

/// The records of a store as plain values.
pub open spec fn views(units: Map<u64, IndicatifSpanContext>) -> Map<u64, SpanView> {
    Map::new(|id: u64| units.contains_key(id), |id: u64| units[id]@)
}

/// What holds of a store of records: each record is well formed and stands
/// under the id of its unit.
pub open spec fn store_wf(units: Map<u64, IndicatifSpanContext>) -> bool {
    forall|id: u64| #[trigger] units.contains_key(id) ==> units[id].wf() && units[id]@.id == id
}

/// Whether it is the given display that holds the progress bar of each unit
/// whose bar a display holds.
pub open spec fn rows_on(units: Map<u64, IndicatifSpanContext>, display: int) -> bool {
    forall|id: u64| #[trigger]
        units.contains_key(id) && units[id].on_display().is_some() ==> units[id].on_display()
            == Some(display)
}

/// A record whose bar the display holds, or no display, can join a store
/// whose bars the display holds.
pub proof fn lemma_rows_on_insert(
    units: Map<u64, IndicatifSpanContext>,
    id: u64,
    unit: IndicatifSpanContext,
    display: int,
)
    requires
        rows_on(units, display),
        unit.on_display().is_some() ==> unit.on_display() == Some(display),
    ensures
        rows_on(units.insert(id, unit), display),
{
    let after = units.insert(id, unit);
    assert forall|other: u64|
        #[trigger] after.contains_key(other) && after[other].on_display().is_some()
        implies after[other].on_display() == Some(display) by {
        if other != id {
            assert(units.contains_key(other));
        }
    }
}

/// What holds of a store with a record holds of the store without it.
pub proof fn lemma_rows_on_others(
    units: Map<u64, IndicatifSpanContext>,
    id: u64,
    unit: IndicatifSpanContext,
    display: int,
)
    requires
        !units.contains_key(id),
        rows_on(units.insert(id, unit), display),
        store_wf(units.insert(id, unit)),
    ensures
        rows_on(units, display),
        store_wf(units),
{
    let all = units.insert(id, unit);
    assert forall|other: u64| #[trigger] units.contains_key(other) implies units[other].wf()
        && units[other]@.id == other && (units[other].on_display().is_some()
        ==> units[other].on_display() == Some(display)) by {
        assert(all.contains_key(other));
    }
}

/// Putting a record into a store puts its plain values into the store's.
pub proof fn lemma_views_insert(
    units: Map<u64, IndicatifSpanContext>,
    id: u64,
    unit: IndicatifSpanContext,
)
    ensures
        views(units.insert(id, unit)) == views(units).insert(id, unit@),
{
}

/// Taking a record out of a store takes its plain values out of the store's.
pub proof fn lemma_views_remove(units: Map<u64, IndicatifSpanContext>, id: u64)
    ensures
        views(units.remove(id)) == views(units).remove(id),
        views(units).dom() == units.dom(),
{
}

impl IndicatifSpanContext {
    /// The progress bar that the record holds, if it holds one.
    pub closed spec fn row(&self) -> Option<Row> {
        self.progress_bar
    }

    /// The display that holds the unit's progress bar, by
    /// [`crate::display::display_id`]; `None` for a unit whose bar no display
    /// holds, and for a unit without a bar.
    pub closed spec fn on_display(&self) -> Option<int> {
        match self.progress_bar {
            Some(row) => row.spec_home(),
            None => None,
        }
    }

    /// A record holds a progress bar exactly while its unit waits or shows; the
    /// bar has the key of the unit's row, and is not finished. A display holds
    /// the bar exactly while the unit's row is on display.
    pub closed spec fn wf(&self) -> bool {
        &&& self.progress_bar.is_some() <==> self@.has_row()
        &&& self.progress_bar.is_some() ==> self.progress_bar->0.key() == RowKey::Unit(self.span_id)
        &&& self.progress_bar.is_some() ==> !self.progress_bar->0.spec_finished()
        &&& self.on_display().is_some() <==> self.state == RowState::Visible
        &&& self.state != RowState::NotEntered ==> self.pb_init_settings.len.is_none()
            && self.pb_init_settings.pos.is_none() && self.pb_init_settings.style.is_none()
            && self.pb_init_settings.message.is_none()
    }

    /// A well-formed record holds a progress bar exactly while its unit waits
    /// or shows, under the key of the unit's row; the bar is in progress.
    pub proof fn lemma_row(&self)
        requires
            self.wf(),
        ensures
            self.row().is_some() == self@.has_row(),
            self.row().is_some() ==> self.row().unwrap().key() == RowKey::Unit(self@.id),
            self.row().is_some() ==> !self.row().unwrap().spec_finished(),
            self.row().is_some() ==> self.row().unwrap().spec_home() == self.on_display(),
            self.on_display().is_some() <==> self@.state == RowState::Visible,
    {
    }

    /// The record of a unit that was not entered yet.
    pub fn new(
        id: u64,
        parent: Option<u64>,
        level: u16,
        name: String,
        fields: String,
        child_prefix: String,
    ) -> (ctx: Self)
        ensures
            ctx.wf(),
            ctx.row().is_none(),
            ctx@ == (SpanView {
                id,
                state: RowState::NotEntered,
                style: None,
                len: None,
                pos: None,
                message: None,
                parent,
                fields: fields@,
                name: name@,
                child_prefix: child_prefix@,
                level,
                finish_message: None,
                tick: None,
            }),
    {
        IndicatifSpanContext {
            span_id: id,
            state: RowState::NotEntered,
            progress_bar: None,
            pb_init_settings: ProgressBarInitSettings {
                style: None,
                len: None,
                pos: None,
                message: None,
            },
            parent_span: parent,
            span_fields_formatted: fields,
            span_name: name,
            span_child_prefix: child_prefix,
            level,
            finish_message: None,
        }
    }

    /// The unit's state.
    pub fn state(&self) -> (state: RowState)
        ensures
            state == self@.state,
    {
        self.state
    }

    /// The nearest ancestor with a record, as found when the unit was created.
    pub fn parent_span(&self) -> (parent: Option<u64>)
        ensures
            parent == self@.parent,
    {
        self.parent_span
    }

    /// The number of ancestors with a record, as found when the unit was
    /// created.
    pub fn level(&self) -> (level: u16)
        ensures
            level == self@.level,
    {
        self.level
    }

    /// The prefix that marks the unit's row as that of a child.
    pub fn span_child_prefix(&self) -> (prefix: &String)
        ensures
            prefix@ == self@.child_prefix,
    {
        &self.span_child_prefix
    }

    /// The id of the unit.
    pub fn span_id(&self) -> (id: u64)
        ensures
            id == self@.id,
    {
        self.span_id
    }

    /// The unit's progress bar, if it has one.
    pub(crate) fn progress_bar(&self) -> (row: Option<&Row>)
        requires
            self.wf(),
        ensures
            row.is_some() == self@.has_row(),
            row.is_some() == self.row().is_some(),
            row.is_some() ==> *row.unwrap() == self.row().unwrap(),
            row.is_some() ==> row.unwrap().key() == RowKey::Unit(self@.id),
            row.is_some() ==> row.unwrap().spec_home() == self.on_display(),
    {
        self.progress_bar.as_ref()
    }

    /// The style with the three keys that a unit's template may use: the unit's
    /// name, its formatted fields and its child prefix.
    pub fn add_keys_to_style(&self, style: ProgressStyle) -> (keyed: ProgressStyle)
        ensures
            keyed == self@.with_keys(style),
    {
        let style = style_with_text(style, "span_name", self.span_name.clone());
        let style = style_with_text(style, "span_fields", self.span_fields_formatted.clone());
        style_with_text(style, "span_child_prefix", self.span_child_prefix.clone())
    }

    /// Makes the unit's progress bar, which no display holds yet, from the
    /// settings made so far: the style set for the unit or else the default
    /// style with the unit's keys, then length, message and position where
    /// they were set. A unit that was entered before stays as it is.
    pub fn make_progress_bar(&mut self, default_style: &ProgressStyle)
        requires
            old(self).wf(),
        ensures
            final(self).wf(),
            final(self).on_display() == old(self).on_display(),
            old(self)@.state != RowState::NotEntered ==> *final(self) == *old(self),
            old(self)@.state == RowState::NotEntered ==> final(self)@ == old(self)@.with_bar(
                RowState::Hidden,
                *default_style,
            ),
    {
        if self.state == RowState::NotEntered {
            let style = match self.pb_init_settings.style.take() {
                Some(style) => style,
                None => self.add_keys_to_style(clone_style(default_style)),
            };
            let mut row = Row::hidden(RowKey::Unit(self.span_id), style);
            if let Some(len) = self.pb_init_settings.len.take() {
                row.set_length(len);
            }
            if let Some(msg) = self.pb_init_settings.message.take() {
                row.set_message(msg);
            }
            if let Some(pos) = self.pb_init_settings.pos.take() {
                row.set_position(pos);
            }
            self.progress_bar = Some(row);
            self.state = RowState::Hidden;
        }
    }

    /// Sets the style of the unit's progress bar, with the unit's keys added:
    /// at once where the unit has a bar, and for the bar to come where the unit
    /// was not entered yet.
    pub fn set_progress_bar_style(&mut self, style: ProgressStyle)
        requires
            old(self).wf(),
        ensures
            final(self).wf(),
            final(self).on_display() == old(self).on_display(),
            final(self)@ == old(self)@.style_set(style),
    {
        match self.state {
            RowState::NotEntered => {
                let keyed = self.add_keys_to_style(style);
                self.pb_init_settings.style = Some(keyed);
            },
            RowState::Hidden | RowState::Visible => {
                let keyed = self.add_keys_to_style(style);
                if let Some(mut row) = self.progress_bar.take() {
                    row.set_style(keyed);
                    self.progress_bar = Some(row);
                }
            },
            RowState::Removed => {},
        }
    }

    /// Sets the length of the unit's progress bar: at once where the unit has
    /// a bar, and for the bar to come where the unit was not entered yet.
    pub fn set_progress_bar_length(&mut self, len: u64)
        requires
            old(self).wf(),
        ensures
            final(self).wf(),
            final(self).on_display() == old(self).on_display(),
            final(self)@ == old(self)@.length_set(len),
    {
        match self.progress_bar.take() {
            Some(mut row) => {
                row.set_length(len);
                self.progress_bar = Some(row);
            },
            None => {
                if self.state == RowState::NotEntered {
                    self.pb_init_settings.len = Some(len);
                }
            },
        }
    }

    /// Sets the position of the unit's progress bar: at once where the unit has
    /// a bar, and for the bar to come where the unit was not entered yet.
    pub fn set_progress_bar_position(&mut self, pos: u64)
        requires
            old(self).wf(),
        ensures
            final(self).wf(),
            final(self).on_display() == old(self).on_display(),
            final(self)@ == old(self)@.position_set(pos),
    {
        match self.progress_bar.take() {
            Some(mut row) => {
                row.set_position(pos);
                self.progress_bar = Some(row);
            },
            None => {
                if self.state == RowState::NotEntered {
                    self.pb_init_settings.pos = Some(pos);
                }
            },
        }
    }

    /// Sets the message of the unit's progress bar: at once where the unit has
    /// a bar, and for the bar to come where the unit was not entered yet.
    pub fn set_progress_bar_message(&mut self, msg: String)
        requires
            old(self).wf(),
        ensures
            final(self).wf(),
            final(self).on_display() == old(self).on_display(),
            final(self)@ == old(self)@.message_set(msg@),
    {
        match self.state {
            RowState::NotEntered => {
                self.pb_init_settings.message = Some(msg);
            },
            RowState::Hidden | RowState::Visible => {
                if let Some(mut row) = self.progress_bar.take() {
                    row.set_message(msg);
                    self.progress_bar = Some(row);
                }
            },
            RowState::Removed => {},
        }
    }

    /// Moves the position of the unit's progress bar forward by `delta`: at
    /// once where the unit has a bar, and for the bar to come where the unit
    /// was not entered yet. Either way the position counts from 0 where none
    /// was set, and wraps around past the largest position.
    pub fn inc_progress_bar_position(&mut self, delta: u64)
        requires
            old(self).wf(),
        ensures
            final(self).wf(),
            final(self).on_display() == old(self).on_display(),
            final(self)@ == old(self)@.position_moved(delta),
    {
        match self.progress_bar.take() {
            Some(mut row) => {
                row.inc(delta);
                self.progress_bar = Some(row);
            },
            None => {
                if self.state == RowState::NotEntered {
                    let pos = match self.pb_init_settings.pos {
                        Some(pos) => pos.wrapping_add(delta),
                        // A progress bar starts at position 0.
                        None => delta,
                    };
                    self.pb_init_settings.pos = Some(pos);
                }
            },
        }
    }

    /// Makes the length of the unit's progress bar longer by `delta`: at once
    /// where the unit has a bar, and for the bar to come where the unit was
    /// not entered yet. Either way a length that was set grows, up to the
    /// largest length, and nothing grows where no length was set.
    pub fn inc_progress_bar_length(&mut self, delta: u64)
        requires
            old(self).wf(),
        ensures
            final(self).wf(),
            final(self).on_display() == old(self).on_display(),
            final(self)@ == old(self)@.length_grown(delta),
    {
        match self.progress_bar.take() {
            Some(mut row) => {
                row.inc_length(delta);
                self.progress_bar = Some(row);
            },
            None => {
                if let Some(len) = self.pb_init_settings.len {
                    self.pb_init_settings.len = Some(len.saturating_add(delta));
                }
            },
        }
    }

    /// Has the unit's progress bar compute its line anew. Nothing happens where
    /// the unit has no bar.
    pub fn progress_bar_tick(&self) {
        if let Some(row) = self.progress_bar.as_ref() {
            row.tick();
        }
    }

    /// Sets the unit's progress bar back to its start, position 0. Nothing
    /// happens where the unit has no bar.
    pub fn reset_progress_bar(&mut self)
        requires
            old(self).wf(),
        ensures
            final(self).wf(),
            final(self).on_display() == old(self).on_display(),
            final(self)@ == old(self)@.position_reset(),
    {
        match self.progress_bar.take() {
            Some(mut row) => {
                row.reset();
                self.progress_bar = Some(row);
            },
            None => {},
        }
    }

    /// Sets the elapsed time of the unit's progress bar back to zero. Nothing
    /// happens where the unit has no bar.
    pub fn reset_progress_bar_elapsed(&self) {
        if let Some(row) = self.progress_bar.as_ref() {
            row.reset_elapsed();
        }
    }

    /// Has the unit's progress bar estimate its remaining time anew. Nothing
    /// happens where the unit has no bar.
    pub fn reset_progress_bar_eta(&self) {
        if let Some(row) = self.progress_bar.as_ref() {
            row.reset_eta();
        }
    }

    /// Sets the message to show when the unit's progress bar is finished.
    pub fn set_progress_bar_finish_message(&mut self, msg: String)
        requires
            old(self).wf(),
        ensures
            final(self).wf(),
            final(self).on_display() == old(self).on_display(),
            final(self).row() == old(self).row(),
            final(self)@ == old(self)@.finish_message_set(msg@),
    {
        self.finish_message = Some(msg);
    }

    /// The position of the unit's progress bar, where the unit has a bar.
    pub fn progress_bar_position(&self) -> (pos: Option<u64>)
        requires
            self.wf(),
        ensures
            pos == if self@.has_row() {
                self@.pos
            } else {
                None
            },
    {
        match self.progress_bar.as_ref() {
            Some(row) => Some(row.position()),
            None => None,
        }
    }

    /// The length of the unit's progress bar, where the unit has a bar; the
    /// inner value is `None` for a bar without a length.
    pub fn progress_bar_length(&self) -> (len: Option<Option<u64>>)
        requires
            self.wf(),
        ensures
            len == if self@.has_row() {
                Some(self@.len)
            } else {
                None
            },
    {
        match self.progress_bar.as_ref() {
            Some(row) => Some(row.length()),
            None => None,
        }
    }

    /// Puts the unit's progress bar, which waits, on the given display:
    /// directly below the row `after` where one is given, else with
    /// `from_back` rows below it, which is as the last row for 0. The bar
    /// ticks by itself at the given interval, if one is given, and computes
    /// its line at once.
    pub(crate) fn show_row(
        &mut self,
        mp: &mut MultiProgress,
        after: Option<&Row>,
        from_back: usize,
        tick_interval: Option<Duration>,
    )
        requires
            old(self).wf(),
            old(self)@.state == RowState::Hidden,
            displayed(*old(mp)).no_duplicates(),
            !displayed(*old(mp)).contains(RowKey::Unit(old(self)@.id)),
            after.is_some() ==> displayed(*old(mp)).contains(after.unwrap().key())
                && after.unwrap().spec_home() == Some(display_id(*old(mp))),
        ensures
            final(self).wf(),
            final(self).on_display() == Some(display_id(*old(mp))),
            final(self)@ == old(self)@.shown(tick_interval),
            display_id(*final(mp)) == display_id(*old(mp)),
            displayed(*final(mp)) == displayed(*old(mp)).insert(
                match after {
                    Some(above) => displayed(*old(mp)).index_of(above.key()) + 1,
                    None => if displayed(*old(mp)).len() >= from_back {
                        displayed(*old(mp)).len() - from_back
                    } else {
                        0
                    },
                },
                RowKey::Unit(old(self)@.id),
            ),
    {
        let taken = self.progress_bar.take();
        let mut row = taken.unwrap();
        match after {
            Some(above) => insert_row_after(mp, above, &mut row),
            None => {
                if from_back > 0 {
                    insert_row_from_back(mp, from_back, &mut row);
                } else {
                    proof {
                        let rows = displayed(*mp);
                        assert(rows.push(row.key()) =~= rows.insert(rows.len() as int, row.key()));
                    }
                    add_row(mp, &mut row);
                }
            },
        }
        if let Some(interval) = tick_interval {
            row.enable_steady_tick(interval);
        }
        row.tick();
        self.progress_bar = Some(row);
        self.state = RowState::Visible;
    }

    /// Takes the unit's progress bar away for good.
    pub(crate) fn take_progress_bar(&mut self) -> (row: Row)
        requires
            old(self).wf(),
            old(self)@.has_row(),
        ensures
            final(self).wf(),
            final(self).on_display().is_none(),
            row.spec_home() == old(self).on_display(),
            final(self).row().is_none(),
            row == old(self).row().unwrap(),
            row.key() == RowKey::Unit(old(self)@.id),
            final(self)@ == old(self)@.finished(),
    {
        self.state = RowState::Removed;
        self.progress_bar.take().unwrap()
    }
}

} // verus!
