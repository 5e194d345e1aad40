use tracing_core::callsite::Identifier;
use tracing_core::field::FieldSet;
use tracing_core::metadata::Kind;
use tracing_core::subscriber::Interest;
use tracing_core::Callsite;
use tracing_core::Field;
use tracing_core::Level;
use tracing_core::Metadata;
use tracing_indicatif::filter::hide_indicatif_span_fields;
use tracing_indicatif::filter::is_indicatif_field;
use tracing_indicatif::filter::shows_field;
use tracing_indicatif::filter::IndicatifFilter;
use tracing_indicatif::util::FilteredFormatFields;
use tracing_indicatif::util::FilteredFormatFieldsVisitor;

struct TestCallsite;

impl Callsite for TestCallsite {
    fn set_interest(&self, _: Interest) {}

    fn metadata(&self) -> &Metadata<'_> {
        unreachable!()
    }
}

fn metadata(names: &'static [&'static str], kind: Kind) -> Metadata<'static> {
    let callsite: &'static TestCallsite = Box::leak(Box::new(TestCallsite));
    Metadata::new(
        "unit",
        "tests",
        Level::INFO,
        None,
        None,
        None,
        FieldSet::new(names, Identifier(callsite)),
        kind,
    )
}

#[test]
fn filter_decides_by_the_two_fields() {
    let shows = IndicatifFilter::<()>::new(true);
    let hides = IndicatifFilter::<()>::new(false);

    // Nothing but a span passes.
    assert!(!shows.enabled_for(false, false, false));
    assert!(!shows.enabled_for(false, true, false));
    assert!(!hides.enabled_for(false, true, true));

    // A span with the show field passes, whatever else holds.
    assert!(shows.enabled_for(true, true, false));
    assert!(shows.enabled_for(true, true, true));
    assert!(hides.enabled_for(true, true, false));
    assert!(hides.enabled_for(true, true, true));

    // A span with the hide field only does not pass.
    assert!(!shows.enabled_for(true, false, true));
    assert!(!hides.enabled_for(true, false, true));

    // A span with neither goes by the default.
    assert!(shows.enabled_for(true, false, false));
    assert!(!hides.enabled_for(true, false, false));
}

#[test]
fn filter_reads_the_metadata_of_a_callsite() {
    let shows = IndicatifFilter::<()>::new(true);
    let hides = IndicatifFilter::<()>::new(false);

    let plain = metadata(&["val"], Kind::SPAN);
    assert!(shows.enabled(&plain));
    assert!(!hides.enabled(&plain));

    let show = metadata(&["val", "indicatif.pb_show"], Kind::SPAN);
    assert!(shows.enabled(&show));
    assert!(hides.enabled(&show));

    let hide = metadata(&["indicatif.pb_hide"], Kind::SPAN);
    assert!(!shows.enabled(&hide));
    assert!(!hides.enabled(&hide));

    let both = metadata(&["indicatif.pb_hide", "indicatif.pb_show"], Kind::SPAN);
    assert!(shows.enabled(&both));
    assert!(hides.enabled(&both));

    let event = metadata(&["indicatif.pb_show"], Kind::EVENT);
    assert!(!shows.enabled(&event));
    assert!(!hides.enabled(&event));
}

#[test]
fn the_two_steering_fields_are_told_apart_from_the_others() {
    assert!(is_indicatif_field("indicatif.pb_show"));
    assert!(is_indicatif_field("indicatif.pb_hide"));
    assert!(!is_indicatif_field("indicatif.pb_shown"));
    assert!(!is_indicatif_field("indicatif.pb"));
    assert!(!is_indicatif_field("pb_show"));
    assert!(!is_indicatif_field(""));
    assert!(!is_indicatif_field("val"));
}

fn field(meta: &Metadata<'static>, name: &str) -> Field {
    meta.fields().field(name).unwrap()
}

#[test]
fn steering_fields_are_not_formatted() {
    let meta = metadata(&["val", "indicatif.pb_show", "indicatif.pb_hide"], Kind::SPAN);
    assert!(shows_field(&field(&meta, "val")));
    assert!(!shows_field(&field(&meta, "indicatif.pb_show")));
    assert!(!shows_field(&field(&meta, "indicatif.pb_hide")));

    let fields = hide_indicatif_span_fields("formatter");
    assert_eq!(*fields.format(), "formatter");
    assert!((fields.filter())(&field(&meta, "val")));
    assert!(!(fields.filter())(&field(&meta, "indicatif.pb_show")));
    assert!(!(fields.filter())(&field(&meta, "indicatif.pb_hide")));
    let copy = fields.filter().clone();
    assert!(copy(&field(&meta, "val")));
}

#[test]
fn filtered_visitor_accepts_what_its_filter_accepts() {
    let meta = metadata(&["a", "b"], Kind::SPAN);
    let fields = FilteredFormatFields::new(5u8, |field: &Field| field.name() == "a");
    assert_eq!(*fields.format(), 5);
    let visitor = FilteredFormatFieldsVisitor::new(vec![1u8], *fields.filter());
    assert!(visitor.accepts(&field(&meta, "a")));
    assert!(!visitor.accepts(&field(&meta, "b")));
    assert_eq!(visitor.finish(), vec![1u8]);
}

#[test]
fn test_with_span_field_formatter() {
    let meta = metadata(&["val", "indicatif.pb_show"], Kind::SPAN);
    let fields = hide_indicatif_span_fields(String::from("default fields"));
    let visitor = FilteredFormatFieldsVisitor::new(Vec::<String>::new(), fields.filter().clone());
    let mut seen = Vec::new();
    for f in meta.fields().iter() {
        if visitor.accepts(&f) {
            seen.push(f.name());
        }
    }
    assert_eq!(seen, vec!["val"]);
}
