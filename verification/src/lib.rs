//! Progress bars that follow the life of work units: one row per unit that has
//! been entered, children below their parents, and never more rows on screen
//! than the configured limit.
//!
//! The rows are drawn by `indicatif`; this crate decides which unit gets a row,
//! where the row goes, and which unit waits.
//!
//! An [`IndicatifLayer`] is told of each unit that is created
//! ([`IndicatifLayer::on_new_span`]), entered ([`IndicatifLayer::on_enter`])
//! and ended ([`IndicatifLayer::on_close`]), by the unit's id. The progress bar
//! of a unit can be changed at any time, before the first entry too: see
//! [`IndicatifLayer::pb_set_length`] and its neighbours.
//!
//! What the layer does is stated over plain values: [`tree::LayerView`] for the
//! layer and [`slots::Slots`] for its slot manager. [`laws`] holds what follows
//! for every course of events: the limit is kept, the counts add up, a child's
//! row goes below its parent's, and a second entry changes nothing.

pub mod display;
pub mod filter;
pub mod laws;
pub mod layer;
pub mod pb_manager;
pub mod slots;
pub mod span_context;
pub mod tree;
pub mod util;
pub mod writer;

pub use layer::IndicatifLayer;
pub use pb_manager::TickSettings;
pub use writer::IndicatifWriter;
