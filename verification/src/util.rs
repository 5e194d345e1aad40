//! A formatter of fields that leaves some fields out.

use tracing_core::Field;
use vstd::prelude::*;

verus! {

/// Wraps around a formatter of fields and filters out the fields for which
/// `filter` returns `false`.
pub struct FilteredFormatFields<Format, Filter> {
    format: Format,
    filter: Filter,
}

impl<Format, Filter> FilteredFormatFields<Format, Filter> {
    /// The wrapped formatter.
    pub closed spec fn spec_format(&self) -> Format {
        self.format
    }

    /// The predicate that a field must meet to be formatted.
    pub closed spec fn spec_filter(&self) -> Filter {
        self.filter
    }

    /// Wraps around `format`; the fields for which `filter` returns `false`
    /// are left out.
    pub fn new(format: Format, filter: Filter) -> (fields: Self)
        ensures
            fields.spec_format() == format,
            fields.spec_filter() == filter,
    {
        FilteredFormatFields { format, filter }
    }

    /// The wrapped formatter.
    pub fn format(&self) -> (format: &Format)
        ensures
            *format == self.spec_format(),
    {
        &self.format
    }

    /// The predicate that a field must meet to be formatted.
    pub fn filter(&self) -> (filter: &Filter)
        ensures
            *filter == self.spec_filter(),
    {
        &self.filter
    }
}

/// Visits the fields of a span or event and hands on to `visitor` those for
/// which `filter` returns `true`.
pub struct FilteredFormatFieldsVisitor<Visitor, Filter> {
    visitor: Visitor,
    filter: Filter,
}

impl<Visitor, Filter> FilteredFormatFieldsVisitor<Visitor, Filter> {
    /// The visitor that gets the fields that pass.
    pub closed spec fn spec_visitor(&self) -> Visitor {
        self.visitor
    }

    /// The predicate that a field must meet to pass.
    pub closed spec fn spec_filter(&self) -> Filter {
        self.filter
    }

    /// A visitor that hands on to `visitor` the fields for which `filter`
    /// returns `true`.
    pub fn new(visitor: Visitor, filter: Filter) -> (filtered: Self)
        ensures
            filtered.spec_visitor() == visitor,
            filtered.spec_filter() == filter,
    {
        FilteredFormatFieldsVisitor { visitor, filter }
    }

    /// The visitor that gets the fields that pass, to hand a field on to it.
    pub fn visitor_mut(&mut self) -> (visitor: &mut Visitor)
        ensures
            *visitor == old(self).spec_visitor(),
            final(self).spec_visitor() == *final(visitor),
            final(self).spec_filter() == old(self).spec_filter(),
    {
        &mut self.visitor
    }

    /// The visitor that gets the fields that pass, when all fields were seen.
    pub fn finish(self) -> (visitor: Visitor)
        ensures
            visitor == self.spec_visitor(),
    {
        self.visitor
    }
}

impl<Visitor, Filter: Fn(&Field) -> bool> FilteredFormatFieldsVisitor<Visitor, Filter> {
    /// Whether the field is handed on: what the filter returns for it.
    pub fn accepts(&self, field: &Field) -> (passes: bool)
        requires
            call_requires(self.spec_filter(), (field,)),
        ensures
            call_ensures(self.spec_filter(), (field,), passes),
    {
        (self.filter)(field)
    }
}

} // verus!
