use indicatif::ProgressStyle;
use std::collections::HashMap;
use std::time::Duration;
use tracing_indicatif::pb_manager::ProgressBarManager;
use tracing_indicatif::span_context::IndicatifSpanContext;
use tracing_indicatif::span_context::RowState;
use tracing_indicatif::IndicatifLayer;
use tracing_indicatif::TickSettings;

fn layer_with_limit(max: u64, footer: bool) -> IndicatifLayer {
    IndicatifLayer::new()
        .with_max_progress_bars(
            max,
            if footer {
                Some(ProgressStyle::with_template("{pending_progress_bars} more").unwrap())
            } else {
                None
            },
        )
        .with_tick_settings(TickSettings {
            term_draw_hz: 20,
            default_tick_interval: None,
            footer_tick_interval: None,
            ..Default::default()
        })
}

fn new_span(layer: &mut IndicatifLayer, id: u64, ancestors: &[u64]) {
    assert!(!layer.has_span(id));
    layer.on_new_span(id, "unit", String::new(), ancestors);
}

#[test]
fn default_layer_shows_seven_progress_bars() {
    let layer = IndicatifLayer::new();
    assert_eq!(layer.max_progress_bars(), 7);
    assert_eq!(layer.active_progress_bars(), 0);
    assert_eq!(layer.pending_progress_bars(), 0);

    let layer = IndicatifLayer::default();
    assert_eq!(layer.max_progress_bars(), 7);
}

#[test]
fn default_tick_settings() {
    let settings = TickSettings::default();
    assert_eq!(settings.term_draw_hz, 20);
    assert_eq!(settings.default_tick_interval, Some(Duration::from_millis(100)));
    assert_eq!(settings.footer_tick_interval, None);
}

#[test]
fn visible_count_never_exceeds_the_limit() {
    let mut layer = layer_with_limit(3, true);
    for id in 1..=10u64 {
        new_span(&mut layer, id, &[]);
        layer.on_enter(id);
        assert!(layer.active_progress_bars() <= 3);
    }
    assert_eq!(layer.active_progress_bars(), 3);
    assert_eq!(layer.pending_progress_bars(), 7);
    for id in 1..=10u64 {
        layer.on_close(id);
        assert!(layer.active_progress_bars() <= 3);
    }
    assert_eq!(layer.active_progress_bars(), 0);
    assert_eq!(layer.pending_progress_bars(), 0);
}

#[test]
fn counts_add_up_to_the_units_entered_and_not_ended() {
    let mut layer = layer_with_limit(2, false);
    let mut open = 0usize;
    for id in 1..=6u64 {
        new_span(&mut layer, id, &[]);
        // A unit that was created and not entered counts for nothing.
        assert_eq!(
            layer.active_progress_bars() as usize + layer.pending_progress_bars(),
            open
        );
        layer.on_enter(id);
        open += 1;
        assert_eq!(
            layer.active_progress_bars() as usize + layer.pending_progress_bars(),
            open
        );
    }
    // Ending a unit that waits takes one off the pending count only.
    layer.on_close(5);
    assert_eq!(layer.active_progress_bars(), 2);
    assert_eq!(layer.pending_progress_bars(), 3);
    // Ending a unit on display promotes the unit that has waited longest.
    layer.on_close(1);
    assert_eq!(layer.active_progress_bars(), 2);
    assert_eq!(layer.pending_progress_bars(), 2);
    assert_eq!(layer.span_state(3), Some(RowState::Visible));
    assert_eq!(layer.span_state(4), Some(RowState::Hidden));
    assert_eq!(layer.span_state(6), Some(RowState::Hidden));
    assert_eq!(layer.span_state(1), None);
}

#[test]
fn entering_twice_makes_one_progress_bar() {
    let mut layer = layer_with_limit(5, true);
    new_span(&mut layer, 1, &[]);
    layer.on_enter(1);
    layer.on_enter(1);
    layer.pb_start(1);
    assert_eq!(layer.active_progress_bars(), 1);
    assert_eq!(layer.pending_progress_bars(), 0);
    assert_eq!(layer.span_state(1), Some(RowState::Visible));

    // The same holds of a unit that waits.
    let mut layer = layer_with_limit(0, true);
    new_span(&mut layer, 1, &[]);
    layer.pb_start(1);
    layer.pb_start(1);
    assert_eq!(layer.active_progress_bars(), 0);
    assert_eq!(layer.pending_progress_bars(), 1);
    assert_eq!(layer.span_state(1), Some(RowState::Hidden));
}

#[test]
fn starting_a_unit_twice_changes_nothing_the_second_time() {
    let mut layer = layer_with_limit(2, true);
    new_span(&mut layer, 1, &[]);
    new_span(&mut layer, 2, &[1]);
    new_span(&mut layer, 3, &[2, 1]);

    // The ancestors are started with the unit; one slot is left short.
    layer.handle_on_enter(3);
    assert_eq!(layer.span_state(1), Some(RowState::Visible));
    assert_eq!(layer.span_state(2), Some(RowState::Visible));
    assert_eq!(layer.span_state(3), Some(RowState::Hidden));
    assert_eq!(layer.active_progress_bars(), 2);
    assert_eq!(layer.pending_progress_bars(), 1);

    for id in [3u64, 2, 1, 3, 9] {
        layer.handle_on_enter(id);
        assert_eq!(layer.span_state(1), Some(RowState::Visible));
        assert_eq!(layer.span_state(2), Some(RowState::Visible));
        assert_eq!(layer.span_state(3), Some(RowState::Hidden));
        assert_eq!(layer.active_progress_bars(), 2);
        assert_eq!(layer.pending_progress_bars(), 1);
    }
}

#[test]
fn unit_states_move_forward() {
    let mut layer = layer_with_limit(1, true);
    new_span(&mut layer, 1, &[]);
    new_span(&mut layer, 2, &[]);
    assert_eq!(layer.span_state(1), Some(RowState::NotEntered));
    layer.on_enter(1);
    assert_eq!(layer.span_state(1), Some(RowState::Visible));
    layer.on_enter(2);
    assert_eq!(layer.span_state(2), Some(RowState::Hidden));
    layer.pb_finish_clear(1);
    assert_eq!(layer.span_state(1), Some(RowState::Removed));
    assert_eq!(layer.span_state(2), Some(RowState::Visible));
    layer.on_enter(1);
    assert_eq!(layer.span_state(1), Some(RowState::Removed));
    layer.pb_finish_clear(1);
    assert_eq!(layer.span_state(1), Some(RowState::Removed));
    layer.on_close(1);
    assert_eq!(layer.span_state(1), None);
    assert_eq!(layer.active_progress_bars(), 1);
}

#[test]
fn ending_a_unit_that_was_never_entered_changes_nothing() {
    let mut layer = layer_with_limit(1, true);
    new_span(&mut layer, 1, &[]);
    layer.on_enter(1);
    new_span(&mut layer, 2, &[]);
    layer.on_close(2);
    assert!(!layer.has_span(2));
    assert_eq!(layer.active_progress_bars(), 1);
    assert_eq!(layer.pending_progress_bars(), 0);
    // A unit that the layer has no record of changes nothing either.
    layer.on_close(77);
    layer.on_enter(77);
    layer.pb_finish_clear(77);
    assert_eq!(layer.active_progress_bars(), 1);
    assert_eq!(layer.pending_progress_bars(), 0);
}

#[test]
fn units_that_ended_while_waiting_are_skipped_at_promotion() {
    let mut layer = layer_with_limit(1, true);
    for id in 1..=5u64 {
        new_span(&mut layer, id, &[]);
        layer.on_enter(id);
    }
    assert_eq!(layer.pending_progress_bars(), 4);
    // The two units at the front of the queue end while they wait.
    layer.on_close(2);
    layer.on_close(3);
    assert_eq!(layer.pending_progress_bars(), 2);
    layer.on_close(1);
    assert_eq!(layer.span_state(4), Some(RowState::Visible));
    assert_eq!(layer.span_state(5), Some(RowState::Hidden));
    assert_eq!(layer.active_progress_bars(), 1);
    assert_eq!(layer.pending_progress_bars(), 1);
    // An id that comes back while its old entry is in the queue is shown once.
    new_span(&mut layer, 2, &[]);
    layer.on_enter(2);
    layer.on_close(4);
    assert_eq!(layer.span_state(5), Some(RowState::Visible));
    layer.on_close(5);
    assert_eq!(layer.span_state(2), Some(RowState::Visible));
    layer.on_close(2);
    assert_eq!(layer.active_progress_bars(), 0);
    assert_eq!(layer.pending_progress_bars(), 0);
}

#[test]
fn exactly_one_unit_is_promoted_at_a_time() {
    let mut layer = layer_with_limit(2, false);
    for id in 1..=5u64 {
        new_span(&mut layer, id, &[]);
        layer.on_enter(id);
    }
    layer.on_close(1);
    assert_eq!(layer.span_state(3), Some(RowState::Visible));
    assert_eq!(layer.span_state(4), Some(RowState::Hidden));
    assert_eq!(layer.span_state(5), Some(RowState::Hidden));
}

#[test]
fn lower_limit_takes_no_row_off_the_display() {
    let mut layer = layer_with_limit(3, true);
    for id in 1..=3u64 {
        new_span(&mut layer, id, &[]);
        layer.on_enter(id);
    }
    let mut layer = layer.with_max_progress_bars(1, None);
    assert_eq!(layer.max_progress_bars(), 1);
    assert_eq!(layer.active_progress_bars(), 3);
    new_span(&mut layer, 4, &[]);
    layer.on_enter(4);
    assert_eq!(layer.span_state(4), Some(RowState::Hidden));
    // The slot that a unit frees is not given away while more rows are on
    // display than the limit allows: the promoted unit waits again.
    layer.on_close(1);
    assert_eq!(layer.active_progress_bars(), 2);
    assert_eq!(layer.pending_progress_bars(), 1);
    assert_eq!(layer.span_state(4), Some(RowState::Hidden));
    layer.on_close(2);
    layer.on_close(3);
    assert_eq!(layer.active_progress_bars(), 1);
    assert_eq!(layer.span_state(4), Some(RowState::Visible));
}

#[test]
fn parent_is_the_nearest_ancestor_with_a_record() {
    let mut layer = layer_with_limit(5, true)
        .with_span_child_prefix_indent("--")
        .with_span_child_prefix_symbol("> ");
    new_span(&mut layer, 1, &[]);
    // Ancestor 9 has no record: the unit's parent is the one above it.
    new_span(&mut layer, 2, &[9, 1]);
    new_span(&mut layer, 3, &[2, 9, 1]);
    new_span(&mut layer, 4, &[8, 9]);

    assert_eq!(layer.span_parent(1), Some(None));
    assert_eq!(layer.span_parent(2), Some(Some(1)));
    assert_eq!(layer.span_parent(3), Some(Some(2)));
    assert_eq!(layer.span_parent(4), Some(None));
    assert_eq!(layer.span_parent(5), None);

    assert_eq!(layer.span_level(1), Some(0));
    assert_eq!(layer.span_level(2), Some(1));
    assert_eq!(layer.span_level(3), Some(2));
    assert_eq!(layer.span_level(4), Some(0));
    assert_eq!(layer.span_level(5), None);

    assert_eq!(layer.span_child_prefix(1), Some(String::new()));
    assert_eq!(layer.span_child_prefix(2), Some("--> ".to_string()));
    assert_eq!(layer.span_child_prefix(3), Some("----> ".to_string()));
    assert_eq!(layer.span_child_prefix(4), Some(String::new()));
    assert_eq!(layer.span_child_prefix(5), None);
}

#[test]
fn default_prefix_of_a_child() {
    let mut layer = IndicatifLayer::new();
    new_span(&mut layer, 1, &[]);
    new_span(&mut layer, 2, &[1]);
    new_span(&mut layer, 3, &[2, 1]);
    assert_eq!(layer.span_child_prefix(2), Some("  ↳ ".to_string()));
    assert_eq!(layer.span_child_prefix(3), Some("    ↳ ".to_string()));
}

#[test]
fn entering_a_unit_starts_its_ancestors_first() {
    let mut layer = layer_with_limit(2, true);
    new_span(&mut layer, 1, &[]);
    new_span(&mut layer, 2, &[1]);
    new_span(&mut layer, 3, &[2, 1]);
    layer.on_enter(3);
    // The two slots go to the ancestors, from the root down; the unit waits.
    assert_eq!(layer.span_state(1), Some(RowState::Visible));
    assert_eq!(layer.span_state(2), Some(RowState::Visible));
    assert_eq!(layer.span_state(3), Some(RowState::Hidden));
    layer.on_close(3);
    layer.on_close(2);
    layer.on_close(1);
    assert_eq!(layer.active_progress_bars(), 0);
    assert_eq!(layer.pending_progress_bars(), 0);
}

#[test]
fn settings_made_before_the_first_entry_reach_the_progress_bar() {
    let mut layer = layer_with_limit(5, true);
    new_span(&mut layer, 1, &[]);
    assert_eq!(layer.pb_length(1), None);
    assert_eq!(layer.pb_position(1), None);
    layer.pb_set_length(1, 10);
    layer.pb_inc_length(1, 1);
    layer.pb_inc(1, 2);
    layer.pb_inc(1, 3);
    layer.on_enter(1);
    assert_eq!(layer.pb_length(1), Some(Some(11)));
    assert_eq!(layer.pb_position(1), Some(5));

    // After the entry the changes go to the progress bar at once.
    layer.pb_inc(1, 1);
    layer.pb_inc_length(1, 4);
    assert_eq!(layer.pb_length(1), Some(Some(15)));
    assert_eq!(layer.pb_position(1), Some(6));
    layer.pb_set_position(1, 1);
    layer.pb_set_length(1, 2);
    assert_eq!(layer.pb_length(1), Some(Some(2)));
    assert_eq!(layer.pb_position(1), Some(1));
}

#[test]
fn position_set_before_the_first_entry() {
    let mut layer = layer_with_limit(5, true);
    new_span(&mut layer, 1, &[]);
    layer.pb_set_position(1, 7);
    layer.pb_inc(1, 2);
    layer.on_enter(1);
    assert_eq!(layer.pb_position(1), Some(9));
    // No length was set: the progress bar has none.
    assert_eq!(layer.pb_length(1), Some(None));
}

#[test]
fn length_does_not_grow_before_it_is_set() {
    let mut layer = layer_with_limit(5, true);
    new_span(&mut layer, 1, &[]);
    layer.pb_inc_length(1, 5);
    layer.on_enter(1);
    assert_eq!(layer.pb_length(1), Some(None));
    assert_eq!(layer.pb_position(1), Some(0));
}

#[test]
fn deferred_position_wraps_and_deferred_length_stops_at_the_largest() {
    let mut layer = layer_with_limit(5, true);
    new_span(&mut layer, 1, &[]);
    layer.pb_set_position(1, u64::MAX);
    layer.pb_inc(1, 2);
    layer.pb_set_length(1, u64::MAX - 1);
    layer.pb_inc_length(1, 5);
    layer.on_enter(1);
    assert_eq!(layer.pb_position(1), Some(1));
    assert_eq!(layer.pb_length(1), Some(Some(u64::MAX)));
}

#[test]
fn settings_of_a_waiting_unit_reach_its_progress_bar() {
    let mut layer = layer_with_limit(0, true);
    new_span(&mut layer, 1, &[]);
    layer.pb_set_length(1, 4);
    layer.on_enter(1);
    assert_eq!(layer.span_state(1), Some(RowState::Hidden));
    layer.pb_inc(1, 3);
    assert_eq!(layer.pb_length(1), Some(Some(4)));
    assert_eq!(layer.pb_position(1), Some(3));
}

#[test]
fn changes_to_a_unit_without_a_record_do_nothing() {
    let mut layer = layer_with_limit(5, true);
    layer.pb_set_style(1, ProgressStyle::default_bar());
    layer.pb_set_length(1, 10);
    layer.pb_set_position(1, 1);
    layer.pb_inc(1, 1);
    layer.pb_inc_length(1, 1);
    layer.pb_set_message(1, "hello");
    layer.pb_set_finish_message(1, "bye");
    layer.pb_tick(1);
    layer.pb_reset(1);
    layer.pb_reset_elapsed(1);
    layer.pb_reset_eta(1);
    layer.pb_start(1);
    layer.pb_finish_clear(1);
    assert!(!layer.has_span(1));
    assert_eq!(layer.pb_length(1), None);
    assert_eq!(layer.pb_position(1), None);
    assert_eq!(layer.active_progress_bars(), 0);
    assert_eq!(layer.pending_progress_bars(), 0);
}

#[test]
fn changes_after_the_progress_bar_is_gone_do_nothing() {
    let mut layer = layer_with_limit(5, true);
    new_span(&mut layer, 1, &[]);
    layer.on_enter(1);
    layer.pb_finish_clear(1);
    layer.pb_set_length(1, 10);
    layer.pb_inc(1, 1);
    layer.pb_set_message(1, "hello");
    layer.pb_tick(1);
    assert_eq!(layer.pb_length(1), None);
    assert_eq!(layer.pb_position(1), None);
    assert_eq!(layer.span_state(1), Some(RowState::Removed));
}

#[test]
fn reset_sets_the_position_back() {
    let mut layer = layer_with_limit(5, true);
    new_span(&mut layer, 1, &[]);
    layer.on_enter(1);
    layer.pb_inc(1, 4);
    assert_eq!(layer.pb_position(1), Some(4));
    layer.pb_reset(1);
    assert_eq!(layer.pb_position(1), Some(0));
    layer.pb_reset_elapsed(1);
    layer.pb_reset_eta(1);
    assert_eq!(layer.pb_position(1), Some(0));
}

#[test]
fn steady_ticks_can_be_configured() {
    let mut layer = IndicatifLayer::new()
        .with_max_progress_bars(
            1,
            Some(ProgressStyle::with_template("{pending_progress_bars} more").unwrap()),
        )
        .with_tick_settings(TickSettings {
            term_draw_hz: 10,
            default_tick_interval: Some(Duration::from_millis(50)),
            footer_tick_interval: Some(Duration::from_millis(50)),
            ..Default::default()
        });
    new_span(&mut layer, 1, &[]);
    layer.on_enter(1);
    new_span(&mut layer, 2, &[]);
    layer.on_enter(2);
    layer.on_close(2);
    layer.on_close(1);
    assert_eq!(layer.active_progress_bars(), 0);
    assert_eq!(layer.pending_progress_bars(), 0);
}

#[test]
fn writers_share_the_display_of_the_layer() {
    let layer = IndicatifLayer::new();
    let stderr = layer.get_stderr_writer();
    let stdout = layer.get_stdout_writer();
    let fmt = layer.get_fmt_writer();
    let again = stderr.make_writer();
    // Suspending the progress bars through a writer's display runs the closure.
    assert_eq!(stderr.progress_bars().suspend(|| 1), 1);
    assert_eq!(stdout.progress_bars().suspend(|| 2), 2);
    assert_eq!(fmt.progress_bars().suspend(|| 3), 3);
    assert_eq!(again.progress_bars().suspend(|| 4), 4);
}

#[test]
fn position_of_a_progress_bar_wraps_and_its_length_stops_at_the_largest() {
    let mut layer = layer_with_limit(5, true);
    new_span(&mut layer, 1, &[]);
    layer.on_enter(1);
    layer.pb_set_position(1, u64::MAX);
    layer.pb_inc(1, 2);
    assert_eq!(layer.pb_position(1), Some(1));
    layer.pb_set_length(1, u64::MAX - 1);
    layer.pb_inc_length(1, 5);
    assert_eq!(layer.pb_length(1), Some(Some(u64::MAX)));
    // Changes of the length leave the position, and the other way round.
    assert_eq!(layer.pb_position(1), Some(1));
    layer.pb_set_position(1, 3);
    assert_eq!(layer.pb_length(1), Some(Some(u64::MAX)));
    layer.pb_reset(1);
    assert_eq!(layer.pb_position(1), Some(0));
    assert_eq!(layer.pb_length(1), Some(Some(u64::MAX)));
}

#[test]
fn reset_before_the_first_entry_changes_nothing() {
    let mut layer = layer_with_limit(5, true);
    new_span(&mut layer, 1, &[]);
    layer.pb_set_position(1, 4);
    layer.pb_reset(1);
    layer.on_enter(1);
    assert_eq!(layer.pb_position(1), Some(4));
}

#[test]
fn parent_that_ended_early_is_not_taken_for_the_unit_that_got_its_id() {
    let mut layer = layer_with_limit(5, true);
    new_span(&mut layer, 1, &[]);
    new_span(&mut layer, 2, &[1]);
    layer.on_close(1);
    // The id of the parent goes to a unit deep in another tree.
    new_span(&mut layer, 10, &[]);
    new_span(&mut layer, 11, &[10]);
    new_span(&mut layer, 1, &[11, 10]);
    assert_eq!(layer.span_level(1), Some(2));
    assert_eq!(layer.span_level(2), Some(1));
    layer.on_enter(2);
    assert_eq!(layer.span_state(2), Some(RowState::Visible));
    // The unit that got the id is no ancestor: it is not started.
    assert_eq!(layer.span_state(1), Some(RowState::NotEntered));
    assert_eq!(layer.active_progress_bars(), 1);
}

#[test]
fn child_of_a_parent_that_ended_is_shown_like_a_unit_without_parent() {
    let mut layer = layer_with_limit(5, true);
    new_span(&mut layer, 1, &[]);
    layer.on_enter(1);
    new_span(&mut layer, 2, &[1]);
    layer.on_close(1);
    layer.on_enter(2);
    assert_eq!(layer.span_state(2), Some(RowState::Visible));
    assert_eq!(layer.span_parent(2), Some(Some(1)));
    layer.on_close(2);
    assert_eq!(layer.active_progress_bars(), 0);
}

fn waiting_unit(id: u64) -> IndicatifSpanContext {
    let mut ctx = IndicatifSpanContext::new(
        id,
        None,
        0,
        "unit".to_string(),
        String::new(),
        String::new(),
    );
    assert_eq!(ctx.state(), RowState::NotEntered);
    ctx.make_progress_bar(&ProgressStyle::default_bar());
    assert_eq!(ctx.state(), RowState::Hidden);
    ctx
}

#[test]
fn slot_manager_shows_and_finishes_units() {
    let mut manager = ProgressBarManager::new(1, None, TickSettings::default());
    let mut units: HashMap<u64, IndicatifSpanContext> = HashMap::new();
    assert_eq!(manager.max_progress_bars(), 1);

    let mut first = waiting_unit(1);
    manager.show_progress_bar(&mut first, &units);
    assert_eq!(first.state(), RowState::Visible);
    units.insert(1, first);

    let mut second = waiting_unit(2);
    manager.show_progress_bar(&mut second, &units);
    assert_eq!(second.state(), RowState::Hidden);
    units.insert(2, second);
    assert_eq!(manager.active_progress_bars(), 1);
    assert_eq!(manager.pending_progress_bars(), 1);

    let mut third = waiting_unit(3);
    manager.show_progress_bar(&mut third, &units);
    assert_eq!(third.state(), RowState::Hidden);
    units.insert(3, third);
    assert_eq!(manager.pending_progress_bars(), 2);

    let mut first = units.remove(&1).unwrap();
    manager.finish_progress_bar(&mut first, &mut units);
    assert_eq!(first.state(), RowState::Removed);
    assert_eq!(units[&2].state(), RowState::Visible);
    assert_eq!(units[&3].state(), RowState::Hidden);
    assert_eq!(manager.active_progress_bars(), 1);
    assert_eq!(manager.pending_progress_bars(), 1);

    // Finishing a unit a second time changes nothing.
    manager.finish_progress_bar(&mut first, &mut units);
    assert_eq!(first.state(), RowState::Removed);
    assert_eq!(manager.active_progress_bars(), 1);

    manager.set_tick_settings(TickSettings {
        term_draw_hz: 5,
        ..Default::default()
    });
    assert_eq!(manager.active_progress_bars(), 1);
}

#[test]
fn slot_manager_starts_the_queue_anew_with_another_limit() {
    let mut manager = ProgressBarManager::new(1, None, TickSettings::default());
    let mut units: HashMap<u64, IndicatifSpanContext> = HashMap::new();
    for id in 1..=3u64 {
        let mut unit = waiting_unit(id);
        manager.show_progress_bar(&mut unit, &units);
        units.insert(id, unit);
    }
    assert_eq!(manager.active_progress_bars(), 1);
    assert_eq!(manager.pending_progress_bars(), 2);

    // A unit that waited and was finished is still in the queue.
    let mut second = units.remove(&2).unwrap();
    manager.finish_progress_bar(&mut second, &mut units);
    units.insert(2, second);
    assert_eq!(manager.pending_progress_bars(), 1);

    manager.set_max_progress_bars(2, None, &mut units);
    assert_eq!(manager.max_progress_bars(), 2);
    assert_eq!(manager.active_progress_bars(), 1);
    assert_eq!(manager.pending_progress_bars(), 0);
    assert_eq!(units[&1].state(), RowState::Visible);
    assert_eq!(units[&2].state(), RowState::Removed);
    assert_eq!(units[&3].state(), RowState::Removed);
    assert_eq!(units[&3].progress_bar_position(), None);

    // The next unit gets the slot that the higher limit adds.
    let mut fourth = waiting_unit(4);
    manager.show_progress_bar(&mut fourth, &units);
    assert_eq!(fourth.state(), RowState::Visible);
    units.insert(4, fourth);
    assert_eq!(manager.active_progress_bars(), 2);

    // Nothing is promoted when a unit on display is finished: no unit waits.
    let mut first = units.remove(&1).unwrap();
    manager.finish_progress_bar(&mut first, &mut units);
    assert_eq!(manager.active_progress_bars(), 1);
    assert_eq!(manager.pending_progress_bars(), 0);
    assert_eq!(units[&3].state(), RowState::Removed);
}

#[test]
fn record_of_a_unit_keeps_what_it_was_made_with() {
    let mut ctx = IndicatifSpanContext::new(
        7,
        Some(3),
        2,
        "name".to_string(),
        "val=1".to_string(),
        "----> ".to_string(),
    );
    assert_eq!(ctx.span_id(), 7);
    assert_eq!(ctx.parent_span(), Some(3));
    assert_eq!(ctx.level(), 2);
    assert_eq!(ctx.span_child_prefix(), "----> ");
    assert_eq!(ctx.state(), RowState::NotEntered);
    assert_eq!(ctx.progress_bar_position(), None);
    assert_eq!(ctx.progress_bar_length(), None);

    ctx.set_progress_bar_length(5);
    ctx.inc_progress_bar_length(2);
    ctx.set_progress_bar_position(1);
    ctx.inc_progress_bar_position(1);
    ctx.set_progress_bar_message("msg".to_string());
    ctx.set_progress_bar_finish_message("bye".to_string());
    ctx.set_progress_bar_style(ProgressStyle::default_bar());
    ctx.make_progress_bar(&ProgressStyle::default_spinner());
    assert_eq!(ctx.state(), RowState::Hidden);
    assert_eq!(ctx.progress_bar_length(), Some(Some(7)));
    assert_eq!(ctx.progress_bar_position(), Some(2));

    // Making the progress bar a second time changes nothing.
    ctx.inc_progress_bar_position(1);
    ctx.make_progress_bar(&ProgressStyle::default_spinner());
    assert_eq!(ctx.progress_bar_position(), Some(3));
    ctx.reset_progress_bar();
    assert_eq!(ctx.progress_bar_position(), Some(0));
    ctx.progress_bar_tick();
    ctx.reset_progress_bar_elapsed();
    ctx.reset_progress_bar_eta();
    assert_eq!(ctx.progress_bar_length(), Some(Some(7)));
}
