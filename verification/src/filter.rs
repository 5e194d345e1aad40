//! A rudimentary filter that selects, unit by unit, which spans get a progress
//! bar: by the presence of a field named `indicatif.pb_show` or
//! `indicatif.pb_hide`.

use crate::util::FilteredFormatFields;
use std::marker::PhantomData;
use tracing_core::Field;
use tracing_core::Metadata;
use vstd::prelude::*;

verus! {

/// `tracing_core::Metadata`, what is known of a span or event at its callsite.
/// Nothing inside it is visible to the verifier.
#[verifier::external_type_specification]
#[verifier::external_body]
pub struct ExMetadata<'a>(Metadata<'a>);

/// `tracing_core::Field`, the key of one field of a span or event. Nothing
/// inside it is visible to the verifier.
#[verifier::external_type_specification]
#[verifier::external_body]
pub struct ExField(Field);

/// Whether a callsite is that of a span, as `Metadata::is_span` returns it.
pub uninterp spec fn callsite_is_span(meta: Metadata<'_>) -> bool;

/// The field of the given name at a callsite, as `FieldSet::field` returns it
/// for the fields of the metadata; `None` where the callsite has no field of
/// that name.
pub uninterp spec fn callsite_field(meta: Metadata<'_>, name: Seq<char>) -> Option<Field>;

/// Whether a field is one of the fields of the set that it belongs to: its
/// index is within that set. It is so for every field that a field set hands
/// out or records; it is not for the placeholder of
/// `Metadata::private_fake_field`, which stands for a field that is unknown.
pub uninterp spec fn field_in_set(field: Field) -> bool;

/// The name of a field of its set, as `Field::name` returns it.
pub uninterp spec fn name_of_field(field: Field) -> Seq<char>;

/// `Metadata::is_span`.
#[verifier::external_body]
fn metadata_is_span(meta: &Metadata<'_>) -> (is_span: bool)
    ensures
        is_span == callsite_is_span(*meta),
{
    meta.is_span()
}

/// `FieldSet::field` on `Metadata::fields`: the field of that name, if the
/// callsite has one; it is a field of the callsite's set.
#[verifier::external_body]
fn metadata_field(meta: &Metadata<'_>, name: &str) -> (field: Option<Field>)
    ensures
        field == callsite_field(*meta, name@),
        field.is_some() ==> field_in_set(field.unwrap()),
{
    meta.fields().field(name)
}

/// `Field::name`: the name that the field's set has at the field's index.
/// `tracing_core` panics where the index is not within the set.
#[verifier::external_body]
fn field_name(field: &Field) -> (name: &'static str)
    requires
        field_in_set(*field),
    ensures
        name@ == name_of_field(*field),
{
    field.name()
}

/// Whether two texts are the same.
fn same_text(a: &str, b: &str) -> (same: bool)
    ensures
        same == (a@ == b@),
{
    a.to_owned() == b.to_owned()
}

/// Whether a field of the given name is one of the two that only steer the
/// filter: `indicatif.pb_show` and `indicatif.pb_hide`.
pub fn is_indicatif_field(name: &str) -> (steers: bool)
    ensures
        steers == (name@ == "indicatif.pb_show"@ || name@ == "indicatif.pb_hide"@),
{
    same_text(name, "indicatif.pb_show") || same_text(name, "indicatif.pb_hide")
}

/// Whether a field is to be formatted: every field but the two that steer the
/// filter.
pub open spec fn field_shown(field: Field) -> bool {
    name_of_field(field) != "indicatif.pb_show"@ && name_of_field(field) != "indicatif.pb_hide"@
}

/// Whether a field is to be formatted: every field but the two that steer the
/// filter. The field is one of its set, as every field is that is recorded.
pub fn shows_field(field: &Field) -> (shown: bool)
    requires
        field_in_set(*field),
    ensures
        shown == field_shown(*field),
{
    !is_indicatif_field(field_name(field))
}

/// A filter that filters based on the presence of a field with the name of
/// either "indicatif.pb_show" or "indicatif.pb_hide" on the span.
///
/// The value of the field is not looked at. If both fields are present, the
/// span gets a progress bar.
pub struct IndicatifFilter<S> {
    show_progress_bars_by_default: bool,
    subscriber: PhantomData<S>,
}

impl<S> IndicatifFilter<S> {
    /// Whether spans without either field get a progress bar.
    pub closed spec fn by_default(&self) -> bool {
        self.show_progress_bars_by_default
    }

    /// What the filter decides: only spans pass; a span with a field
    /// `indicatif.pb_show` passes; of the others, a span with a field
    /// `indicatif.pb_hide` does not pass; the rest goes by the default.
    pub open spec fn passes(&self, is_span: bool, has_show: bool, has_hide: bool) -> bool {
        is_span && (has_show || (!has_hide && self.by_default()))
    }

    /// Constructs the filter. Spans that have neither field get a progress bar
    /// if `show_progress_bars_by_default` is `true`.
    pub fn new(show_progress_bars_by_default: bool) -> (filter: Self)
        ensures
            filter.by_default() == show_progress_bars_by_default,
    {
        IndicatifFilter { show_progress_bars_by_default, subscriber: PhantomData }
    }

    /// Whether a callsite gets a progress bar, given whether it is a span and
    /// which of the two fields it has.
    pub fn enabled_for(&self, is_span: bool, has_show: bool, has_hide: bool) -> (enabled: bool)
        ensures
            enabled == self.passes(is_span, has_show, has_hide),
    {
        if !is_span {
            return false;
        }
        if has_show {
            return true;
        }
        if has_hide {
            return false;
        }
        self.show_progress_bars_by_default
    }

    /// Whether the callsite of the given metadata gets a progress bar: what
    /// the filter decides of a callsite that is a span or not as the metadata
    /// says, and has the two fields or not as the metadata says.
    pub fn enabled(&self, meta: &Metadata<'_>) -> (enabled: bool)
        ensures
            enabled == self.passes(
                callsite_is_span(*meta),
                callsite_field(*meta, "indicatif.pb_show"@).is_some(),
                callsite_field(*meta, "indicatif.pb_hide"@).is_some(),
            ),
    {
        let is_span = metadata_is_span(meta);
        let has_show = metadata_field(meta, "indicatif.pb_show").is_some();
        let has_hide = metadata_field(meta, "indicatif.pb_hide").is_some();
        self.enabled_for(is_span, has_show, has_hide)
    }
}

/// Wraps a formatter of fields so that the fields "indicatif.pb_show" and
/// "indicatif.pb_hide" are left out: the result wraps `format`, and its filter
/// takes every field of its set and returns for it what [`shows_field`]
/// returns. The type of the result hides its filter, so that no clause can
/// follow the result out of this function: what is proved of it is proved in
/// the body.
pub fn hide_indicatif_span_fields<Format>(format: Format) -> FilteredFormatFields<
    Format,
    impl Fn(&Field) -> bool + Clone,
> {
    let filter = |field: &Field| -> (shown: bool)
        requires
            field_in_set(*field),
        ensures
            shown == field_shown(*field),
        {
            shows_field(field)
        };
    let fields = FilteredFormatFields::new(format, filter);
    assert(fields.spec_format() == format);
    assert(forall|field: &Field|
        field_in_set(*field) ==> call_requires(fields.spec_filter(), (field,)));
    assert(forall|field: &Field, shown: bool|
        call_ensures(fields.spec_filter(), (field,), shown) ==> shown == field_shown(*field));
    fields
}

} // verus!
