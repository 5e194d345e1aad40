use indicatif::InMemoryTerm;
use indicatif::ProgressDrawTarget;
use indicatif::ProgressStyle;
use indicatif::TermLike;
use std::time::Duration;
use std::time::Instant;
use tracing_indicatif::IndicatifLayer;
use tracing_indicatif::TickSettings;

struct HelpersConfig {
    show_footer: bool,
    enable_steady_tick: bool,
}

impl Default for HelpersConfig {
    fn default() -> Self {
        Self {
            show_footer: true,
            enable_steady_tick: false,
        }
    }
}

fn wait(duration: Duration) {
    let start = Instant::now();
    while start.elapsed() < duration {
        std::hint::spin_loop();
    }
}

fn make_helpers(config: HelpersConfig) -> (IndicatifLayer, InMemoryTerm) {
    let indicatif_layer = IndicatifLayer::new()
        .with_max_progress_bars(
            5,
            if config.show_footer {
                Some(
                    ProgressStyle::with_template(
                        "...and {pending_progress_bars} more not shown above.",
                    )
                    .unwrap(),
                )
            } else {
                None
            },
        )
        .with_progress_style(
            ProgressStyle::with_template("{span_child_prefix}{span_name}{{{span_fields}}}")
                .unwrap(),
        )
        .with_span_child_prefix_indent("--")
        .with_span_child_prefix_symbol("> ")
        .with_tick_settings(TickSettings {
            term_draw_hz: 20,
            default_tick_interval: if config.enable_steady_tick {
                Some(Duration::from_millis(50))
            } else {
                None
            },
            footer_tick_interval: None,
            ..Default::default()
        });

    let term = InMemoryTerm::new(10, 100);

    let mp = indicatif_layer.multi_progress();

    mp.set_draw_target(ProgressDrawTarget::term_like(Box::new(term.clone())));

    (indicatif_layer, term)
}

fn new_span(layer: &mut IndicatifLayer, id: u64, name: &str) {
    layer.on_new_span(id, name, String::new(), &[]);
}

fn new_child_span(layer: &mut IndicatifLayer, id: u64, name: &str, fields: &str, ancestors: &[u64]) {
    layer.on_new_span(id, name, fields.to_string(), ancestors);
}

#[test]
fn test_one_basic_pb() {
    let (mut layer, term) = make_helpers(HelpersConfig::default());

    new_span(&mut layer, 1, "foo");
    layer.on_enter(1);

    assert_eq!(
        term.contents(),
        r#"
foo{}
            "#
        .trim()
    );
}

#[test]
fn test_one_child_pb() {
    let (mut layer, term) = make_helpers(HelpersConfig::default());

    new_span(&mut layer, 1, "foo");
    layer.on_enter(1);
    new_child_span(&mut layer, 2, "child", "", &[1]);
    layer.on_enter(2);

    assert_eq!(
        term.contents(),
        r#"
foo{}
--> child{}
            "#
        .trim()
    );
}

#[test]
fn test_span_fields() {
    let (mut layer, term) = make_helpers(HelpersConfig::default());

    new_child_span(&mut layer, 1, "foo", "val=3", &[]);
    layer.on_enter(1);

    assert_eq!(
        term.contents(),
        r#"
foo{val=3}
            "#
        .trim()
    );
}

#[test]
fn test_multi_child_pb() {
    let (mut layer, term) = make_helpers(HelpersConfig::default());

    new_child_span(&mut layer, 1, "foo", "blah=1", &[]);
    layer.on_enter(1);

    new_child_span(&mut layer, 2, "foo.child", "", &[1]);
    layer.on_enter(2);

    new_child_span(&mut layer, 3, "foo.child.child", "blah=3 hello=\"world\"", &[2, 1]);
    layer.on_enter(3);

    new_span(&mut layer, 4, "bar");
    layer.on_enter(4);

    new_child_span(&mut layer, 5, "bar.child", "", &[4]);
    layer.on_enter(5);

    assert_eq!(
        term.contents(),
        r#"
foo{blah=1}
--> foo.child{}
----> foo.child.child{blah=3 hello="world"}
bar{}
--> bar.child{}
            "#
        .trim()
    );
}

#[test]
fn test_max_pbs() {
    let (mut layer, term) = make_helpers(HelpersConfig::default());

    new_span(&mut layer, 1, "1");
    layer.pb_start(1);
    new_span(&mut layer, 2, "2");
    layer.pb_start(2);
    new_span(&mut layer, 3, "3");
    layer.pb_start(3);
    new_span(&mut layer, 4, "4");
    layer.pb_start(4);
    new_span(&mut layer, 5, "5");
    layer.pb_start(5);

    assert_eq!(
        term.contents(),
        r#"
1{}
2{}
3{}
4{}
5{}
            "#
        .trim()
    );

    new_span(&mut layer, 6, "6");
    layer.pb_start(6);

    assert_eq!(
        term.contents(),
        r#"
1{}
2{}
3{}
4{}
5{}
...and 1 more not shown above.
            "#
        .trim()
    );

    new_span(&mut layer, 7, "7");
    layer.pb_start(7);

    assert_eq!(
        term.contents(),
        r#"
1{}
2{}
3{}
4{}
5{}
...and 2 more not shown above.
            "#
        .trim()
    );

    layer.on_close(6);

    assert_eq!(
        term.contents(),
        r#"
1{}
2{}
3{}
4{}
5{}
...and 1 more not shown above.
            "#
        .trim()
    );

    layer.on_close(1);

    assert_eq!(
        term.contents(),
        r#"
2{}
3{}
4{}
5{}
7{}
            "#
        .trim()
    );

    layer.on_close(2);

    assert_eq!(
        term.contents(),
        r#"
3{}
4{}
5{}
7{}
            "#
        .trim()
    );

    new_span(&mut layer, 8, "8");
    layer.pb_start(8);

    assert_eq!(
        term.contents(),
        r#"
3{}
4{}
5{}
7{}
8{}
            "#
        .trim()
    );

    new_span(&mut layer, 9, "9");
    layer.pb_start(9);

    assert_eq!(
        term.contents(),
        r#"
3{}
4{}
5{}
7{}
8{}
...and 1 more not shown above.
            "#
        .trim()
    );

    new_span(&mut layer, 10, "10");
    layer.pb_start(10);

    assert_eq!(
        term.contents(),
        r#"
3{}
4{}
5{}
7{}
8{}
...and 2 more not shown above.
            "#
        .trim()
    );

    layer.on_close(3);

    assert_eq!(
        term.contents(),
        r#"
4{}
5{}
7{}
8{}
9{}
...and 1 more not shown above.
            "#
        .trim()
    );

    layer.on_close(4);

    assert_eq!(
        term.contents(),
        r#"
5{}
7{}
8{}
9{}
10{}
            "#
        .trim()
    );
}

#[test]
fn test_parent_span_enter_ordering() {
    let (mut layer, _) = make_helpers(HelpersConfig::default());

    // grandparent, parent, child
    layer.on_new_span(1, "grandparent", String::new(), &[]);
    layer.on_new_span(2, "parent", String::new(), &[1]);
    layer.on_new_span(3, "child", String::new(), &[2, 1]);

    new_span(&mut layer, 4, "span1");
    layer.pb_start(4);
    new_span(&mut layer, 5, "span2");
    layer.pb_start(5);
    new_span(&mut layer, 6, "span3");
    layer.pb_start(6);
    new_span(&mut layer, 7, "span4");
    layer.pb_start(7);
    new_span(&mut layer, 8, "span5");
    layer.pb_start(8);

    layer.pb_start(3);
    layer.pb_start(1);

    layer.on_close(4);
}

#[test]
fn test_max_pbs_no_footer() {
    let (mut layer, term) = make_helpers(HelpersConfig {
        show_footer: false,
        ..Default::default()
    });

    new_span(&mut layer, 1, "1");
    layer.pb_start(1);
    new_span(&mut layer, 2, "2");
    layer.pb_start(2);
    new_span(&mut layer, 3, "3");
    layer.pb_start(3);
    new_span(&mut layer, 4, "4");
    layer.pb_start(4);
    new_span(&mut layer, 5, "5");
    layer.pb_start(5);
    new_span(&mut layer, 6, "6");
    layer.pb_start(6);

    assert_eq!(
        term.contents(),
        r#"
1{}
2{}
3{}
4{}
5{}
            "#
        .trim()
    );

    new_span(&mut layer, 7, "7");
    layer.pb_start(7);

    assert_eq!(
        term.contents(),
        r#"
1{}
2{}
3{}
4{}
5{}
            "#
        .trim()
    );

    layer.on_close(6);

    assert_eq!(
        term.contents(),
        r#"
1{}
2{}
3{}
4{}
5{}
            "#
        .trim()
    );

    layer.on_close(1);

    assert_eq!(
        term.contents(),
        r#"
2{}
3{}
4{}
5{}
7{}
            "#
        .trim()
    );
}

#[test]
fn test_parent_no_enter_doesnt_panic() {
    let (mut layer, term) = make_helpers(HelpersConfig::default());

    new_span(&mut layer, 1, "foo");
    new_child_span(&mut layer, 2, "child", "", &[1]);
    layer.on_enter(2);

    assert_eq!(
        term.contents(),
        r#"
foo{}
--> child{}
            "#
        .trim()
    );
}

#[test]
fn test_change_style_before_show() {
    let (mut layer, term) = make_helpers(HelpersConfig::default());

    new_span(&mut layer, 1, "foo");
    layer.pb_set_style(1, ProgressStyle::with_template("hello_world").unwrap());
    layer.pb_start(1);

    assert_eq!(
        term.contents(),
        r#"
hello_world
            "#
        .trim()
    );
}

#[test]
fn test_change_style_after_show_tick() {
    let (mut layer, term) = make_helpers(HelpersConfig::default());

    new_span(&mut layer, 1, "foo");
    layer.pb_start(1);

    assert_eq!(
        term.contents(),
        r#"
foo{}
            "#
        .trim()
    );

    layer.pb_set_style(1, ProgressStyle::with_template("hello_world").unwrap());
    layer.pb_tick(1);
    assert_eq!(
        term.contents(),
        r#"
hello_world
            "#
        .trim()
    );
}

#[test]
fn test_bar_style_progress_bar() {
    let (mut layer, term) = make_helpers(HelpersConfig::default());

    new_span(&mut layer, 1, "foo");
    layer.pb_set_style(1, ProgressStyle::default_bar());
    layer.pb_set_length(1, 10);
    layer.pb_start(1);

    assert_eq!(
        term.contents(),
        r#"
░░░░░░░░░░░░░░░░░░░░░░░░░░░░░░░░░░░░░░░░░░░░░░░░░░░░░░░░░░░░░░░░░░░░░░░░░░░░░░░░░░░░░░░░░░░░░░░ 0/10
            "#
        .trim()
    );

    layer.pb_inc(1, 1);
    layer.pb_tick(1);

    assert_eq!(
        term.contents(),
        r#"
█████████░░░░░░░░░░░░░░░░░░░░░░░░░░░░░░░░░░░░░░░░░░░░░░░░░░░░░░░░░░░░░░░░░░░░░░░░░░░░░░░░░░░░░░ 1/10
            "#
        .trim()
    );

    layer.pb_inc(1, 9);
    layer.pb_tick(1);
    assert_eq!(
        term.contents(),
        r#"
██████████████████████████████████████████████████████████████████████████████████████████████ 10/10
            "#
        .trim()
    );
}

#[test]
fn test_bar_style_progress_bar_inc_before_start() {
    let (mut layer, term) = make_helpers(HelpersConfig::default());

    new_span(&mut layer, 1, "foo");
    layer.pb_set_style(1, ProgressStyle::default_bar());
    layer.pb_set_length(1, 10);
    layer.pb_inc_length(1, 1);
    layer.pb_inc(1, 2);
    layer.pb_start(1);

    assert_eq!(
        term.contents(),
        r#"
█████████████████░░░░░░░░░░░░░░░░░░░░░░░░░░░░░░░░░░░░░░░░░░░░░░░░░░░░░░░░░░░░░░░░░░░░░░░░░░░░░░ 2/11
            "#
        .trim()
    );

    layer.pb_inc(1, 1);
    layer.pb_tick(1);

    assert_eq!(
        term.contents(),
        r#"
█████████████████████████░░░░░░░░░░░░░░░░░░░░░░░░░░░░░░░░░░░░░░░░░░░░░░░░░░░░░░░░░░░░░░░░░░░░░░ 3/11
            "#
        .trim()
    );

    layer.pb_inc_length(1, 1);
    layer.pb_inc(1, 9);
    layer.pb_tick(1);
    assert_eq!(
        term.contents(),
        r#"
██████████████████████████████████████████████████████████████████████████████████████████████ 12/12
            "#
        .trim()
    );
}

#[test]
fn test_bar_style_progress_bar_inc_without_set_length() {
    let (mut layer, term) = make_helpers(HelpersConfig::default());

    new_span(&mut layer, 1, "foo");
    layer.pb_set_style(1, ProgressStyle::default_bar());
    layer.pb_inc_length(1, 5);
    layer.pb_inc(1, 2);
    layer.pb_start(1);

    assert_eq!(
        term.contents(),
        r#"
░░░░░░░░░░░░░░░░░░░░░░░░░░░░░░░░░░░░░░░░░░░░░░░░░░░░░░░░░░░░░░░░░░░░░░░░░░░░░░░░░░░░░░░░░░░░░░░░ 2/2
            "#
        .trim()
    );

    layer.pb_inc_length(1, 5);
    layer.pb_inc(1, 1);
    layer.pb_tick(1);

    assert_eq!(
        term.contents(),
        r#"
░░░░░░░░░░░░░░░░░░░░░░░░░░░░░░░░░░░░░░░░░░░░░░░░░░░░░░░░░░░░░░░░░░░░░░░░░░░░░░░░░░░░░░░░░░░░░░░░ 3/3
            "#
        .trim()
    );

    layer.pb_inc(1, 8);
    layer.pb_tick(1);
    assert_eq!(
        term.contents(),
        r#"
░░░░░░░░░░░░░░░░░░░░░░░░░░░░░░░░░░░░░░░░░░░░░░░░░░░░░░░░░░░░░░░░░░░░░░░░░░░░░░░░░░░░░░░░░░░░░░ 11/11
            "#
        .trim()
    );
}

#[test]
fn fifo_promotion_keeps_the_footer_for_the_unit_still_waiting() {
    let (mut layer, term) = make_helpers(HelpersConfig::default());

    for id in 1..=5u64 {
        new_span(&mut layer, id, &id.to_string());
        layer.on_enter(id);
    }
    assert_eq!(term.contents(), "1{}\n2{}\n3{}\n4{}\n5{}");

    new_span(&mut layer, 6, "6");
    layer.on_enter(6);
    assert_eq!(
        term.contents(),
        "1{}\n2{}\n3{}\n4{}\n5{}\n...and 1 more not shown above."
    );

    new_span(&mut layer, 7, "7");
    layer.on_enter(7);
    assert_eq!(
        term.contents(),
        "1{}\n2{}\n3{}\n4{}\n5{}\n...and 2 more not shown above."
    );

    layer.on_close(1);
    assert_eq!(
        term.contents(),
        "2{}\n3{}\n4{}\n5{}\n6{}\n...and 1 more not shown above."
    );
    assert_eq!(layer.active_progress_bars(), 5);
    assert_eq!(layer.pending_progress_bars(), 1);
}

#[test]
fn child_row_goes_directly_below_its_parent() {
    let (mut layer, term) = make_helpers(HelpersConfig::default());

    new_span(&mut layer, 1, "first");
    layer.on_enter(1);
    new_span(&mut layer, 2, "second");
    layer.on_enter(2);
    new_span(&mut layer, 3, "third");
    layer.on_enter(3);
    // A child of the first unit is entered last and still stands below its parent.
    new_child_span(&mut layer, 4, "child", "", &[1]);
    layer.on_enter(4);

    assert_eq!(
        term.contents(),
        "first{}\n--> child{}\nsecond{}\nthird{}"
    );

    // A second child of the same parent goes directly below the parent too.
    new_child_span(&mut layer, 5, "younger", "", &[1]);
    layer.on_enter(5);
    assert_eq!(
        term.contents(),
        "first{}\n--> younger{}\n--> child{}\nsecond{}\nthird{}"
    );
}

#[test]
fn new_row_goes_above_the_footer() {
    let (layer, term) = make_helpers(HelpersConfig::default());
    let mut layer = layer.with_max_progress_bars(
        1,
        Some(ProgressStyle::with_template("{pending_progress_bars} waiting").unwrap()),
    );

    new_span(&mut layer, 1, "a");
    layer.on_enter(1);
    new_span(&mut layer, 2, "b");
    layer.on_enter(2);
    assert_eq!(term.contents(), "a{}\n1 waiting");
    new_span(&mut layer, 3, "c");
    layer.on_enter(3);
    assert_eq!(term.contents(), "a{}\n2 waiting");

    // The unit that gets the free slot has its row above the footer.
    layer.on_close(1);
    assert_eq!(term.contents(), "b{}\n1 waiting");
    layer.on_close(2);
    assert_eq!(term.contents(), "c{}");
}

#[test]
fn finished_row_leaves_and_the_others_keep_their_order() {
    let (mut layer, term) = make_helpers(HelpersConfig::default());

    for id in 1..=4u64 {
        new_span(&mut layer, id, &id.to_string());
        layer.on_enter(id);
    }
    layer.on_close(2);
    assert_eq!(term.contents(), "1{}\n3{}\n4{}");
    layer.on_close(4);
    assert_eq!(term.contents(), "1{}\n3{}");
    layer.on_close(1);
    assert_eq!(term.contents(), "3{}");
}

#[test]
fn queue_starts_anew_when_the_layer_is_reconfigured() {
    let (layer, term) = make_helpers(HelpersConfig::default());
    let mut layer = layer.with_max_progress_bars(
        1,
        Some(ProgressStyle::with_template("old {pending_progress_bars}").unwrap()),
    );
    new_span(&mut layer, 1, "a");
    layer.on_enter(1);
    new_span(&mut layer, 2, "b");
    layer.on_enter(2);
    assert_eq!(term.contents(), "a{}\nold 1");
    assert_eq!(layer.pending_progress_bars(), 1);

    // No unit waits afterwards, and the new footer stays off the display.
    let mut layer = layer.with_max_progress_bars(
        1,
        Some(ProgressStyle::with_template("new {pending_progress_bars}").unwrap()),
    );
    assert_eq!(term.contents(), "a{}");
    assert_eq!(layer.active_progress_bars(), 1);
    assert_eq!(layer.pending_progress_bars(), 0);

    // The footer comes with the next unit that has to wait, and counts from one.
    new_span(&mut layer, 3, "c");
    layer.on_enter(3);
    assert_eq!(term.contents(), "a{}\nnew 1");

    // The unit that waited before gets no row; the one that waits now does.
    layer.on_enter(2);
    layer.on_close(1);
    assert_eq!(term.contents(), "c{}");
    layer.on_close(2);
    layer.on_close(3);
    assert_eq!(term.contents(), "");
    assert_eq!(layer.active_progress_bars(), 0);
    assert_eq!(layer.pending_progress_bars(), 0);
}

#[test]
fn footer_leaves_when_the_layer_is_reconfigured_without_one() {
    let (layer, term) = make_helpers(HelpersConfig::default());
    let mut layer = layer.with_max_progress_bars(
        1,
        Some(ProgressStyle::with_template("{pending_progress_bars} waiting").unwrap()),
    );
    new_span(&mut layer, 1, "a");
    layer.on_enter(1);
    new_span(&mut layer, 2, "b");
    layer.on_enter(2);
    new_span(&mut layer, 3, "c");
    layer.on_enter(3);
    assert_eq!(term.contents(), "a{}\n2 waiting");

    let mut layer = layer.with_max_progress_bars(1, None);
    assert_eq!(term.contents(), "a{}");
    assert_eq!(layer.pending_progress_bars(), 0);

    new_span(&mut layer, 4, "d");
    layer.on_enter(4);
    assert_eq!(term.contents(), "a{}");
    assert_eq!(layer.pending_progress_bars(), 1);
    layer.on_close(1);
    assert_eq!(term.contents(), "d{}");
}

#[test]
fn deferred_message_reaches_the_progress_bar() {
    let (mut layer, term) = make_helpers(HelpersConfig::default());

    new_span(&mut layer, 1, "foo");
    layer.pb_set_style(1, ProgressStyle::with_template("{span_name}: {msg}").unwrap());
    layer.pb_set_message(1, "loading");
    layer.on_enter(1);
    assert_eq!(term.contents(), "foo: loading");

    layer.pb_set_message(1, "done");
    layer.pb_tick(1);
    assert_eq!(term.contents(), "foo: done");
}

#[test]
fn finishing_a_progress_bar_early_clears_its_row_for_good() {
    let (mut layer, term) = make_helpers(HelpersConfig::default());

    new_span(&mut layer, 1, "foo");
    layer.on_enter(1);
    new_span(&mut layer, 2, "bar");
    layer.on_enter(2);
    assert_eq!(term.contents(), "foo{}\nbar{}");

    layer.pb_finish_clear(1);
    assert_eq!(term.contents(), "bar{}");

    // The unit goes on and is entered again: it gets no second progress bar.
    layer.on_enter(1);
    assert_eq!(term.contents(), "bar{}");
    assert_eq!(layer.active_progress_bars(), 1);

    // A child of the unit without a row goes to the end.
    new_child_span(&mut layer, 3, "child", "", &[1]);
    layer.on_enter(3);
    assert_eq!(term.contents(), "bar{}\n--> child{}");

    layer.on_close(3);
    layer.on_close(1);
    assert_eq!(term.contents(), "bar{}");
}

#[test]
fn display_is_empty_before_a_unit_is_entered() {
    let (mut layer, term) = make_helpers(HelpersConfig::default());
    assert_eq!(term.contents(), "");
    new_span(&mut layer, 1, "foo");
    assert_eq!(term.contents(), "");
    layer.on_enter(1);
    layer.on_close(1);
    assert_eq!(term.contents(), "");
}

#[test]
fn row_of_a_child_whose_parent_lost_its_place_goes_to_the_end() {
    let (layer, term) = make_helpers(HelpersConfig::default());
    let mut layer = layer.with_max_progress_bars(1, None);
    new_span(&mut layer, 1, "a");
    layer.on_enter(1);
    new_span(&mut layer, 2, "parent");
    layer.on_enter(2);
    let mut layer = layer.with_max_progress_bars(3, None);
    new_child_span(&mut layer, 3, "child", "", &[2]);
    layer.on_enter(3);
    assert_eq!(term.contents(), "a{}\n--> child{}");
    assert_eq!(layer.active_progress_bars(), 2);
    layer.on_close(1);
    assert_eq!(term.contents(), "--> child{}");
    assert_eq!(layer.active_progress_bars(), 1);
    assert_eq!(layer.pending_progress_bars(), 0);
}

#[test]
fn test_change_style_after_show() {
    let (mut layer, term) = make_helpers(HelpersConfig {
        enable_steady_tick: true,
        ..Default::default()
    });

    new_span(&mut layer, 1, "foo");
    layer.pb_start(1);

    wait(Duration::from_millis(10));
    assert_eq!(
        term.contents(),
        r#"
foo{}
            "#
        .trim()
    );

    layer.pb_set_style(1, ProgressStyle::with_template("hello_world").unwrap());
    wait(Duration::from_millis(150));
    assert_eq!(
        term.contents(),
        r#"
hello_world
            "#
        .trim()
    );
}

#[test]
fn test_suspend_with_layer() {
    let (mut layer, term) = make_helpers(HelpersConfig::default());
    let writer = layer.get_stderr_writer();

    new_span(&mut layer, 1, "foo");
    layer.pb_start(1);

    wait(Duration::from_millis(10));
    assert_eq!(
        term.contents(),
        r#"
foo{}
            "#
        .trim()
    );

    let _ = writer
        .progress_bars()
        .suspend(|| term.write_line("hello world"));

    assert_eq!(
        term.contents()
            .lines()
            .map(|line| line.trim())
            .collect::<Vec<_>>()
            .join("\n"),
        r#"
hello world
foo{}
            "#
        .trim()
    );

    let _ = writer
        .progress_bars()
        .suspend(|| term.write_line("this is a test"));

    assert_eq!(
        term.contents()
            .lines()
            .map(|line| line.trim())
            .collect::<Vec<_>>()
            .join("\n"),
        r#"
hello world
this is a test
foo{}
            "#
        .trim()
    );
}

#[test]
fn default_style_shows_the_name_and_the_fields_of_a_unit() {
    let mut layer = IndicatifLayer::new().with_tick_settings(TickSettings {
        term_draw_hz: 20,
        default_tick_interval: None,
        footer_tick_interval: None,
        ..Default::default()
    });
    let term = InMemoryTerm::new(10, 100);
    layer
        .multi_progress()
        .set_draw_target(ProgressDrawTarget::term_like(Box::new(term.clone())));

    layer.on_new_span(1, "foo", "val=3".to_string(), &[]);
    layer.on_enter(1);
    layer.on_new_span(2, "child", String::new(), &[1]);
    layer.on_enter(2);
    assert_eq!(term.contents(), "⠁ foo{val=3}\n  ↳ ⠁ child{}");

    // With more units than the default limit of 7 the default footer shows.
    for id in 3..=8u64 {
        layer.on_new_span(id, "more", String::new(), &[]);
        layer.on_enter(id);
    }
    assert_eq!(layer.active_progress_bars(), 7);
    assert!(term
        .contents()
        .ends_with("\n...and 1 more not shown above."));
}
