//! Writers that keep console output from colliding with the progress bars.

use crate::display::clone_multi_progress;
use crate::display::display_id;
use indicatif::MultiProgress;
use std::marker::PhantomData;
use vstd::prelude::*;

mod private;

verus! {

/// The streams that an [`IndicatifWriter`] can write to.
pub trait WriterTarget: private::Sealed {

}

/// Marker for where the [`IndicatifWriter`] should write to.
pub struct Stdout {}

/// Marker for where the [`IndicatifWriter`] should write to.
pub struct Stderr {}

impl WriterTarget for Stdout {

}

impl WriterTarget for Stderr {

}

/// A handle to the display for a writer to the standard output or the standard
/// error stream: whoever writes suspends the progress bars for the time of the
/// write, so that the output is not overdrawn.
pub struct IndicatifWriter<Target = Stderr> {
    progress_bars: MultiProgress,
    inner: PhantomData<Target>,
}

impl<T: WriterTarget> IndicatifWriter<T> {
    /// A writer that suspends the progress bars of `mp` while it writes.
    pub fn new(mp: MultiProgress) -> (writer: Self)
        ensures
            writer.spec_progress_bars() == mp,
    {
        IndicatifWriter { progress_bars: mp, inner: PhantomData }
    }
}

impl<T> IndicatifWriter<T> {
    /// The display whose progress bars the writer suspends.
    pub closed spec fn spec_progress_bars(&self) -> MultiProgress {
        self.progress_bars
    }

    /// The display whose progress bars the writer suspends.
    pub fn progress_bars(&self) -> (mp: &MultiProgress)
        ensures
            *mp == self.spec_progress_bars(),
    {
        &self.progress_bars
    }

    /// A second writer for the same display.
    pub fn make_writer(&self) -> (writer: Self)
        ensures
            display_id(writer.spec_progress_bars()) == display_id(self.spec_progress_bars()),
    {
        IndicatifWriter {
            progress_bars: clone_multi_progress(&self.progress_bars),
            inner: PhantomData,
        }
    }
}

} // verus!
