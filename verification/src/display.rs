//! The display that `indicatif` draws: progress bars, their styles, and the
//! `MultiProgress` that holds the bars on screen, top to bottom.
//!
//! The functions marked `external_body` are not proved. Each makes one call
//! into `indicatif` and states, where the source of `indicatif` shows it, what
//! the call does: to the rows of a display, to what is known of a bar (see
//! [`BarView`]), and which style the call makes.
//!
//! A `ProgressBar` and a `MultiProgress` are handles to shared state. Here a
//! bar is changed through the one [`Row`] that holds it, and a display through
//! the one handle that its manager holds; [`display_id`] and [`bar_home`] say
//! which display a handle is to and which display holds a bar, so that no row
//! is taken for a row of another display. The counter that a footer's line
//! reads is shared in the same way: its manager stores to it through one
//! handle, and the footer's style holds a second handle, which only loads;
//! [`counter_id`] says which counter a handle is to, and [`counter_value`]
//! what the counter holds.

use crate::pb_manager::duration_nanos;
use indicatif::MultiProgress;
use indicatif::ProgressBar;
use indicatif::ProgressDrawTarget;
use indicatif::ProgressState;
use indicatif::ProgressStyle;
use std::sync::atomic::AtomicUsize;
use std::sync::Arc;
use std::time::Duration;
use vstd::prelude::*;

verus! {

/// `indicatif::ProgressBar`, a shared handle to one bar. Nothing inside it is
/// visible to the verifier.
#[verifier::external_type_specification]
#[verifier::external_body]
pub struct ExProgressBar(ProgressBar);

/// `indicatif::ProgressStyle`, the template and keys from which a bar's line is
/// rendered. Nothing inside it is visible to the verifier.
#[verifier::external_type_specification]
#[verifier::external_body]
pub struct ExProgressStyle(ProgressStyle);

/// `indicatif::MultiProgress`, a shared handle to the bars on screen. Nothing
/// inside it is visible to the verifier; [`displayed`] names what it shows.
#[verifier::external_type_specification]
#[verifier::external_body]
pub struct ExMultiProgress(MultiProgress);

/// `indicatif::ProgressDrawTarget`, where a display draws to. Nothing inside it
/// is visible to the verifier.
#[verifier::external_type_specification]
#[verifier::external_body]
pub struct ExProgressDrawTarget(ProgressDrawTarget);

/// Names a row of the display: the row of a work unit, or the footer.
#[derive(Clone, Copy, Debug, PartialEq, Eq, Structural)]
pub enum RowKey {
    /// The row of the work unit with this id.
    Unit(u64),
    /// The row that tells how many units wait for a free slot.
    Footer,
}

/// The rows that a `MultiProgress` holds, top to bottom, each by the key of the
/// [`Row`] that was handed to it: the bars in `MultiState::ordering`. The bar
/// of a row on display has the display for its home: see [`bar_home`].
pub uninterp spec fn displayed(mp: MultiProgress) -> Seq<RowKey>;

/// Which display a handle is to. A `MultiProgress` is a handle to the state of
/// a display; two handles are to one display, and share its rows, exactly
/// where this is equal. A clone of a handle is to the same display.
pub uninterp spec fn display_id(mp: MultiProgress) -> int;

/// The display that holds a progress bar, by [`display_id`]: the display that
/// the bar draws to since `MultiProgress::add` or one of the inserts put it
/// there; `None` for a bar that no display holds.
pub uninterp spec fn bar_home(bar: ProgressBar) -> Option<int>;

/// The length of a progress bar, as `ProgressBar::length` returns it: `None`
/// for a bar without a length.
pub uninterp spec fn bar_length(bar: ProgressBar) -> Option<u64>;

/// The position of a progress bar, as `ProgressBar::position` returns it.
pub uninterp spec fn bar_position(bar: ProgressBar) -> u64;

/// Whether a progress bar is finished, as `ProgressBar::is_finished` returns
/// it.
pub uninterp spec fn bar_finished(bar: ProgressBar) -> bool;

/// The style that a progress bar was given last, by `ProgressBar::set_style`.
/// The bar holds it fitted to what the bar draws to, with the bar's tab width
/// and with colours that go by the standard error stream where the bar draws
/// there, and `ProgressBar::style` returns it so fitted; this is the style
/// as it was given.
pub uninterp spec fn bar_style(bar: ProgressBar) -> ProgressStyle;

/// The message that a progress bar was given last, by
/// `ProgressBar::set_message`; `ProgressBar::message` returns it with its tabs
/// made spaces. A bar that was given none has the empty message.
pub uninterp spec fn bar_message(bar: ProgressBar) -> Seq<char>;

/// The interval of the ticker that a progress bar has: the interval that
/// `ProgressBar::enable_steady_tick` gave it last, until
/// `ProgressBar::disable_steady_tick` takes the ticker off; `None` for a bar
/// without a ticker. A ticker ticks its bar at that interval until the bar is
/// finished, and does not start again by itself.
pub uninterp spec fn bar_tick(bar: ProgressBar) -> Option<Duration>;

/// The style that `Clone::clone` makes of a style: a copy field by field, in
/// which each tracker is what its own `clone_box` makes of it.
pub uninterp spec fn cloned_style(style: ProgressStyle) -> ProgressStyle;

/// Which counter a handle is to. An `Arc<AtomicUsize>` is a handle to one
/// shared number; a clone of a handle is to the same counter, and a counter
/// stays the same counter whatever is stored in it.
pub uninterp spec fn counter_id(counter: Arc<AtomicUsize>) -> int;

/// The number that a counter holds, told of the handle that it was stored
/// through by `AtomicUsize::store`. Every handle to the counter loads this
/// number as long as all storing goes through that one handle.
pub uninterp spec fn counter_value(counter: Arc<AtomicUsize>) -> usize;

/// The style that `ProgressStyle::with_key` makes of a style, for a key and a
/// tracker that writes, in decimal, the number that the counter of the given
/// [`counter_id`] holds when the line is rendered.
pub uninterp spec fn counted_style(
    style: ProgressStyle,
    key: Seq<char>,
    counter: int,
) -> ProgressStyle;

/// The style that `ProgressStyle::with_template` makes of a template; `None`
/// where the template does not parse.
pub uninterp spec fn style_of_template(template: Seq<char>) -> Option<ProgressStyle>;

/// The style that `ProgressStyle::with_key` makes of a style, for a key and a
/// tracker that writes the given text wherever the template holds the key.
pub uninterp spec fn keyed_style(
    style: ProgressStyle,
    key: Seq<char>,
    text: Seq<char>,
) -> ProgressStyle;

/// The style of a template, or the style of a spinner where the template does
/// not parse.
pub open spec fn template_or_spinner(template: Seq<char>) -> ProgressStyle {
    match style_of_template(template) {
        Some(style) => style,
        None => style_of_template("{spinner} {msg}"@).unwrap(),
    }
}

/// What is known of a progress bar.
pub struct BarView {
    /// The display that holds the bar, by [`display_id`]; `None` for a bar
    /// that no display holds.
    pub home: Option<int>,
    /// The style that the bar was given last.
    pub style: ProgressStyle,
    /// The message that the bar was given last; empty where it was given none.
    pub message: Seq<char>,
    /// The length of the bar; `None` for a bar without a length.
    pub length: Option<u64>,
    /// The position of the bar.
    pub position: u64,
    /// Whether the bar is finished.
    pub finished: bool,
    /// The interval of the bar's ticker, which ticks the bar until the bar is
    /// finished; `None` for a bar without a ticker.
    pub tick: Option<Duration>,
}

/// The interval at which a bar ticks by itself once it is told to tick at the
/// given interval, if at any: the given interval, or what it was before where
/// none is given or the given one is of no time.
pub open spec fn steady(before: Option<Duration>, interval: Option<Duration>) -> Option<Duration> {
    match interval {
        Some(given) => if duration_nanos(given) == 0 {
            before
        } else {
            Some(given)
        },
        None => before,
    }
}

/// What is known of a progress bar: what the names of this module say of it.
pub open spec fn bar_view(bar: ProgressBar) -> BarView {
    BarView {
        home: bar_home(bar),
        style: bar_style(bar),
        message: bar_message(bar),
        length: bar_length(bar),
        position: bar_position(bar),
        finished: bar_finished(bar),
        tick: bar_tick(bar),
    }
}

/// `ProgressBar::hidden`: a new bar that no display holds, without a message
/// and without a length, at position 0, not finished, and not ticking by
/// itself.
#[verifier::external_body]
fn hidden_bar() -> (bar: ProgressBar)
    ensures
        bar_home(bar).is_none(),
        bar_message(bar) == Seq::<char>::empty(),
        bar_length(bar).is_none(),
        bar_position(bar) == 0,
        !bar_finished(bar),
        bar_tick(bar).is_none(),
{
    ProgressBar::hidden()
}

/// `ProgressBar::set_style`: the bar is given the style.
/// Nothing else of the bar changes.
#[verifier::external_body]
fn bar_set_style(bar: &mut ProgressBar, style: ProgressStyle)
    ensures
        bar_style(*final(bar)) == style,
        bar_view(*final(bar)) == (BarView { style, ..bar_view(*old(bar)) }),
{
    bar.set_style(style)
}

/// `ProgressBar::set_length`: the bar has the given length.
/// Nothing else of the bar changes.
#[verifier::external_body]
fn bar_set_length(bar: &mut ProgressBar, len: u64)
    ensures
        bar_view(*final(bar)) == (BarView { length: Some(len), ..bar_view(*old(bar)) }),
{
    bar.set_length(len)
}

/// `ProgressBar::set_position`: the bar is at the given position.
/// Nothing else of the bar changes.
#[verifier::external_body]
fn bar_set_position(bar: &mut ProgressBar, pos: u64)
    ensures
        bar_view(*final(bar)) == (BarView { position: pos, ..bar_view(*old(bar)) }),
{
    bar.set_position(pos)
}

/// `ProgressBar::set_message`: the bar is given the message.
/// Nothing else of the bar changes.
#[verifier::external_body]
fn bar_set_message(bar: &mut ProgressBar, msg: String)
    ensures
        bar_view(*final(bar)) == (BarView { message: msg@, ..bar_view(*old(bar)) }),
{
    bar.set_message(msg)
}

/// `ProgressBar::inc`: the position moves forward by `delta`, and wraps around
/// past the largest position.
/// Nothing else of the bar changes.
#[verifier::external_body]
fn bar_inc(bar: &mut ProgressBar, delta: u64)
    ensures
        bar_view(*final(bar)) == (BarView {
            position: bar_position(*old(bar)).wrapping_add(delta),
            ..bar_view(*old(bar))
        }),
{
    bar.inc(delta)
}

/// `ProgressBar::inc_length`: the length of a bar that has one grows by
/// `delta`, up to the largest length.
/// Nothing else of the bar changes.
#[verifier::external_body]
fn bar_inc_length(bar: &mut ProgressBar, delta: u64)
    ensures
        bar_view(*final(bar)) == (BarView {
            length: match bar_length(*old(bar)) {
                Some(len) => Some(len.saturating_add(delta)),
                None => None,
            },
            ..bar_view(*old(bar))
        }),
{
    bar.inc_length(delta)
}

/// `ProgressBar::reset`: the bar is at position 0 again and in progress again.
/// Nothing else of the bar changes.
#[verifier::external_body]
fn bar_reset(bar: &mut ProgressBar)
    ensures
        bar_view(*final(bar)) == (BarView {
            position: 0,
            finished: false,
            ..bar_view(*old(bar))
        }),
{
    bar.reset()
}

/// `ProgressBar::finish_and_clear`: the bar is finished; a bar with a length
/// is at the position of its length, a bar without one where it was.
/// Nothing else of the bar changes.
#[verifier::external_body]
fn bar_finish_and_clear(bar: &mut ProgressBar)
    ensures
        bar_view(*final(bar)) == (BarView {
            finished: true,
            position: match bar_length(*old(bar)) {
                Some(len) => len,
                None => bar_position(*old(bar)),
            },
            ..bar_view(*old(bar))
        }),
{
    bar.finish_and_clear()
}

/// `ProgressBar::enable_steady_tick`: the bar ticks by itself at the given
/// interval; an interval of no time changes nothing.
/// Nothing else of the bar changes.
#[verifier::external_body]
fn bar_enable_steady_tick(bar: &mut ProgressBar, interval: Duration)
    ensures
        bar_view(*final(bar)) == (BarView {
            tick: if duration_nanos(interval) == 0 {
                bar_tick(*old(bar))
            } else {
                Some(interval)
            },
            ..bar_view(*old(bar))
        }),
{
    bar.enable_steady_tick(interval)
}

/// `ProgressBar::disable_steady_tick`: the bar does not tick by itself.
/// Nothing else of the bar changes.
#[verifier::external_body]
fn bar_disable_steady_tick(bar: &mut ProgressBar)
    ensures
        bar_view(*final(bar)) == (BarView { tick: None, ..bar_view(*old(bar)) }),
{
    bar.disable_steady_tick()
}

/// `ProgressBar::tick`.
#[verifier::external_body]
fn bar_tick_now(bar: &ProgressBar) {
    bar.tick()
}

/// `ProgressBar::reset_elapsed`.
#[verifier::external_body]
fn bar_reset_elapsed(bar: &ProgressBar) {
    bar.reset_elapsed()
}

/// `ProgressBar::reset_eta`.
#[verifier::external_body]
fn bar_reset_eta(bar: &ProgressBar) {
    bar.reset_eta()
}

/// `ProgressBar::position`.
#[verifier::external_body]
fn bar_get_position(bar: &ProgressBar) -> (pos: u64)
    ensures
        pos == bar_position(*bar),
{
    bar.position()
}

/// `ProgressBar::length`.
#[verifier::external_body]
fn bar_get_length(bar: &ProgressBar) -> (len: Option<u64>)
    ensures
        len == bar_length(*bar),
{
    bar.length()
}

/// A progress bar together with the key of the row it fills. A key is given to
/// a bar when the bar is made and stays with it. Nothing but the row holds the
/// bar for changes: the display gets a handle to draw from.
pub struct Row {
    key: RowKey,
    bar: ProgressBar,
}

impl Row {
    /// The key of the row that this bar fills.
    pub closed spec fn key(&self) -> RowKey {
        self.key
    }

    /// What is known of the row's bar.
    pub closed spec fn bar(&self) -> BarView {
        bar_view(self.bar)
    }

    /// The length of the bar; `None` for a bar without a length.
    pub open spec fn spec_length(&self) -> Option<u64> {
        self.bar().length
    }

    /// The position of the bar.
    pub open spec fn spec_position(&self) -> u64 {
        self.bar().position
    }

    /// Whether the bar is finished.
    pub open spec fn spec_finished(&self) -> bool {
        self.bar().finished
    }

    /// The display that holds the bar, by [`display_id`]; `None` for a bar
    /// that no display holds.
    pub open spec fn spec_home(&self) -> Option<int> {
        self.bar().home
    }

    /// The style that the bar was given last.
    pub open spec fn spec_style(&self) -> ProgressStyle {
        self.bar().style
    }

    /// The message that the bar was given last; empty where it was given none.
    pub open spec fn spec_message(&self) -> Seq<char> {
        self.bar().message
    }

    /// The interval at which the bar ticks by itself; `None` for a bar that
    /// does not.
    pub open spec fn spec_tick(&self) -> Option<Duration> {
        self.bar().tick
    }

    /// A new bar with the given style that no display holds, under the given
    /// key: without a message and without a length, at position 0, not
    /// finished, and not ticking by itself.
    pub(crate) fn hidden(key: RowKey, style: ProgressStyle) -> (row: Row)
        ensures
            row.key() == key,
            row.bar() == (BarView {
                home: None,
                style,
                message: Seq::<char>::empty(),
                length: None,
                position: 0,
                finished: false,
                tick: None,
            }),
    {
        let mut bar = hidden_bar();
        bar_set_style(&mut bar, style);
        Row { key, bar }
    }

    /// Sets the style from which the bar's line is rendered.
    pub(crate) fn set_style(&mut self, style: ProgressStyle)
        ensures
            final(self).key() == old(self).key(),
            final(self).bar() == (BarView { style, ..old(self).bar() }),
    {
        bar_set_style(&mut self.bar, style)
    }

    /// Sets the length of the bar.
    pub(crate) fn set_length(&mut self, len: u64)
        ensures
            final(self).key() == old(self).key(),
            final(self).bar() == (BarView { length: Some(len), ..old(self).bar() }),
    {
        bar_set_length(&mut self.bar, len)
    }

    /// Sets the position of the bar.
    pub(crate) fn set_position(&mut self, pos: u64)
        ensures
            final(self).key() == old(self).key(),
            final(self).bar() == (BarView { position: pos, ..old(self).bar() }),
    {
        bar_set_position(&mut self.bar, pos)
    }

    /// Sets the message of the bar.
    pub(crate) fn set_message(&mut self, msg: String)
        ensures
            final(self).key() == old(self).key(),
            final(self).bar() == (BarView { message: msg@, ..old(self).bar() }),
    {
        bar_set_message(&mut self.bar, msg)
    }

    /// Moves the position of the bar forward by `delta`; the position wraps
    /// around past the largest position.
    pub(crate) fn inc(&mut self, delta: u64)
        ensures
            final(self).key() == old(self).key(),
            final(self).bar() == (BarView {
                position: old(self).bar().position.wrapping_add(delta),
                ..old(self).bar()
            }),
    {
        bar_inc(&mut self.bar, delta)
    }

    /// Makes the length of the bar longer by `delta`, up to the largest
    /// length; a bar without a length stays without one.
    pub(crate) fn inc_length(&mut self, delta: u64)
        ensures
            final(self).key() == old(self).key(),
            final(self).bar() == (BarView {
                length: match old(self).bar().length {
                    Some(len) => Some(len.saturating_add(delta)),
                    None => None,
                },
                ..old(self).bar()
            }),
    {
        bar_inc_length(&mut self.bar, delta)
    }

    /// Sets the bar back to its start: position 0 and in progress.
    pub(crate) fn reset(&mut self)
        ensures
            final(self).key() == old(self).key(),
            final(self).bar() == (BarView {
                position: 0,
                finished: false,
                ..old(self).bar()
            }),
    {
        bar_reset(&mut self.bar)
    }

    /// Finishes the bar and clears its line. A bar with a length ends at the
    /// position of its length, a bar without one where it was.
    pub(crate) fn finish_and_clear(&mut self)
        ensures
            final(self).key() == old(self).key(),
            final(self).bar() == (BarView {
                finished: true,
                position: match old(self).bar().length {
                    Some(len) => len,
                    None => old(self).bar().position,
                },
                ..old(self).bar()
            }),
    {
        bar_finish_and_clear(&mut self.bar)
    }

    /// Has the bar tick by itself at the given interval; an interval of no
    /// time changes nothing.
    pub(crate) fn enable_steady_tick(&mut self, interval: Duration)
        ensures
            final(self).key() == old(self).key(),
            final(self).bar() == (BarView {
                tick: if duration_nanos(interval) == 0 {
                    old(self).bar().tick
                } else {
                    Some(interval)
                },
                ..old(self).bar()
            }),
    {
        bar_enable_steady_tick(&mut self.bar, interval)
    }

    /// Stops the bar from ticking by itself.
    pub(crate) fn disable_steady_tick(&mut self)
        ensures
            final(self).key() == old(self).key(),
            final(self).bar() == (BarView { tick: None, ..old(self).bar() }),
    {
        bar_disable_steady_tick(&mut self.bar)
    }

    /// Has the bar compute its line anew.
    pub(crate) fn tick(&self) {
        bar_tick_now(&self.bar)
    }

    /// Sets the elapsed time of the bar back to zero.
    pub(crate) fn reset_elapsed(&self) {
        bar_reset_elapsed(&self.bar)
    }

    /// Has the bar estimate its remaining time anew.
    pub(crate) fn reset_eta(&self) {
        bar_reset_eta(&self.bar)
    }

    /// The position of the bar.
    pub(crate) fn position(&self) -> (pos: u64)
        ensures
            pos == self.bar().position,
    {
        bar_get_position(&self.bar)
    }

    /// The length of the bar; `None` for a bar without a length.
    pub(crate) fn length(&self) -> (len: Option<u64>)
        ensures
            len == self.bar().length,
    {
        bar_get_length(&self.bar)
    }
}

/// Whether a template holds no digit, and so gives no width to any of its
/// keys.
pub open spec fn digit_free(template: Seq<char>) -> bool {
    forall|i: int| 0 <= i < template.len() ==> !('0' <= #[trigger] template[i] <= '9')
}

/// `ProgressStyle::with_template`; `None` where the template does not parse.
/// `indicatif` panics on a width that is too large a number: a template
/// without digits has no width.
#[verifier::external_body]
pub(crate) fn style_from_template(template: &str) -> (style: Option<ProgressStyle>)
    requires
        digit_free(template@),
    ensures
        style == style_of_template(template@),
{
    ProgressStyle::with_template(template).ok()
}

/// `ProgressStyle::default_spinner`: the style of the template
/// `{spinner} {msg}`.
#[verifier::external_body]
pub(crate) fn default_spinner_style() -> (style: ProgressStyle)
    ensures
        style_of_template("{spinner} {msg}"@) == Some(style),
{
    ProgressStyle::default_spinner()
}

/// `Clone::clone` of a `ProgressStyle`.
#[verifier::external_body]
pub(crate) fn clone_style(style: &ProgressStyle) -> (copy: ProgressStyle)
    ensures
        copy == cloned_style(*style),
{
    style.clone()
}

/// `ProgressStyle::with_key`, with a tracker that writes `text` wherever the
/// template holds `key`.
#[verifier::external_body]
pub(crate) fn style_with_text(
    style: ProgressStyle,
    key: &'static str,
    text: String,
) -> (keyed: ProgressStyle)
    ensures
        keyed == keyed_style(style, key@, text@),
{
    style.with_key(
        key,
        move |_: &ProgressState, writer: &mut dyn std::fmt::Write| {
            let _ = writer.write_str(&text);
        },
    )
}

/// `AtomicUsize::store`, with release ordering: the counter holds the given
/// number afterwards, and is the same counter as before.
#[verifier::external_body]
pub(crate) fn counter_store(counter: &mut Arc<AtomicUsize>, value: usize)
    ensures
        counter_value(*final(counter)) == value,
        counter_id(*final(counter)) == counter_id(*old(counter)),
{
    counter.store(value, std::sync::atomic::Ordering::Release)
}

/// `ProgressStyle::with_key`, with a tracker that loads the number that
/// `counter` holds when the line is rendered, and writes it in decimal.
#[verifier::external_body]
pub(crate) fn style_with_counter(
    style: ProgressStyle,
    key: &'static str,
    counter: Arc<AtomicUsize>,
) -> (counted: ProgressStyle)
    ensures
        counted == counted_style(style, key@, counter_id(counter)),
{
    style.with_key(
        key,
        move |_: &ProgressState, writer: &mut dyn std::fmt::Write| {
            let _ = write!(writer, "{}", counter.load(std::sync::atomic::Ordering::Acquire));
        },
    )
}

/// `MultiProgress::new`: a display that holds no row.
#[verifier::external_body]
pub(crate) fn new_multi_progress() -> (mp: MultiProgress)
    ensures
        displayed(mp) == Seq::<RowKey>::empty(),
{
    MultiProgress::new()
}

/// `Clone::clone` of a `MultiProgress`: a second handle to the same display.
/// Nothing is said of the rows that the second handle shows: they change with
/// the display.
#[verifier::external_body]
pub(crate) fn clone_multi_progress(mp: &MultiProgress) -> (handle: MultiProgress)
    ensures
        display_id(handle) == display_id(*mp),
{
    mp.clone()
}

/// `ProgressDrawTarget::stderr_with_hz`: the standard error stream, drawn to at
/// most `hz` times a second. `indicatif` panics on a rate of 0.
#[verifier::external_body]
pub(crate) fn stderr_with_hz(hz: u8) -> ProgressDrawTarget
    requires
        hz > 0,
{
    ProgressDrawTarget::stderr_with_hz(hz)
}

/// `MultiProgress::set_draw_target`. The rows stay as they are.
#[verifier::external_body]
pub(crate) fn set_draw_target(mp: &MultiProgress, target: ProgressDrawTarget) {
    mp.set_draw_target(target)
}

/// `MultiProgress::add`: the bar, which no display holds, becomes the last
/// row of this display.
#[verifier::external_body]
pub(crate) fn add_row(mp: &mut MultiProgress, row: &mut Row)
    requires
        old(row).spec_home().is_none(),
        !displayed(*old(mp)).contains(old(row).key()),
    ensures
        displayed(*final(mp)) == displayed(*old(mp)).push(old(row).key()),
        display_id(*final(mp)) == display_id(*old(mp)),
        final(row).key() == old(row).key(),
        final(row).bar() == (BarView { home: Some(display_id(*old(mp))), ..old(row).bar() }),
{
    mp.add(row.bar.clone());
}

/// `MultiProgress::insert_after`: the bar, which no display holds, becomes the
/// row directly below `after`. `indicatif` panics where the bar of `after` is
/// not a row of this display.
#[verifier::external_body]
pub(crate) fn insert_row_after(mp: &mut MultiProgress, after: &Row, row: &mut Row)
    requires
        displayed(*old(mp)).no_duplicates(),
        displayed(*old(mp)).contains(after.key()),
        after.spec_home() == Some(display_id(*old(mp))),
        old(row).spec_home().is_none(),
        !displayed(*old(mp)).contains(old(row).key()),
    ensures
        displayed(*final(mp)) == displayed(*old(mp)).insert(
            displayed(*old(mp)).index_of(after.key()) + 1,
            old(row).key(),
        ),
        display_id(*final(mp)) == display_id(*old(mp)),
        final(row).key() == old(row).key(),
        final(row).bar() == (BarView { home: Some(display_id(*old(mp))), ..old(row).bar() }),
{
    mp.insert_after(&after.bar, row.bar.clone());
}

/// `MultiProgress::insert_from_back`: the bar, which no display holds, becomes
/// a row with `index` rows below it, or the first row where the display holds
/// fewer than `index` rows.
#[verifier::external_body]
pub(crate) fn insert_row_from_back(mp: &mut MultiProgress, index: usize, row: &mut Row)
    requires
        old(row).spec_home().is_none(),
        !displayed(*old(mp)).contains(old(row).key()),
    ensures
        displayed(*final(mp)) == displayed(*old(mp)).insert(
            if displayed(*old(mp)).len() >= index {
                displayed(*old(mp)).len() - index
            } else {
                0
            },
            old(row).key(),
        ),
        display_id(*final(mp)) == display_id(*old(mp)),
        final(row).key() == old(row).key(),
        final(row).bar() == (BarView { home: Some(display_id(*old(mp))), ..old(row).bar() }),
{
    mp.insert_from_back(index, row.bar.clone());
}

/// `MultiProgress::remove`: the row of the bar, which this display holds,
/// leaves the display; the other rows keep their order, and no display holds
/// the bar. `indicatif` panics where another display holds the bar.
#[verifier::external_body]
pub(crate) fn remove_row(mp: &mut MultiProgress, row: &mut Row)
    requires
        displayed(*old(mp)).no_duplicates(),
        displayed(*old(mp)).contains(old(row).key()),
        old(row).spec_home() == Some(display_id(*old(mp))),
    ensures
        displayed(*final(mp)) == displayed(*old(mp)).remove(
            displayed(*old(mp)).index_of(old(row).key()),
        ),
        display_id(*final(mp)) == display_id(*old(mp)),
        final(row).key() == old(row).key(),
        final(row).bar() == (BarView { home: None, ..old(row).bar() }),
{
    mp.remove(&row.bar);
}

} // verus!
