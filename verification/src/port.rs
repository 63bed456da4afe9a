//! What the logic asks of the platform.

use crate::domain::{DisplayInput, MonitorDescriptor, MonitorId};
use crate::error::DisplayMuxError;
use vstd::prelude::*;

verus! {

/// The displays connected to this host.
pub trait MonitorControl {
    /// The connected displays.
    fn enumerate(&self) -> Result<Vec<MonitorDescriptor>, DisplayMuxError>;

    /// The input a display shows.
    fn read_input(&self, monitor: &MonitorId) -> Result<DisplayInput, DisplayMuxError>;

    /// The inputs a display says it has.
    fn supported_inputs(&self, monitor: &MonitorId) -> Result<Vec<DisplayInput>, DisplayMuxError>;

    /// Makes a display show an input.
    fn write_input(&self, monitor: &MonitorId, input: DisplayInput) -> Result<(), DisplayMuxError>;

    /// The largest input value that a display says it takes, where it says one.
    /// A platform that cannot ask for it knows of none.
    fn input_value_maximum(&self, monitor: &MonitorId) -> (maximum: Result<
        Option<u32>,
        DisplayMuxError,
    >)
        default_ensures
            maximum == Ok::<Option<u32>, DisplayMuxError>(None),
    {
        Ok(None)
    }
}

} // verus!
