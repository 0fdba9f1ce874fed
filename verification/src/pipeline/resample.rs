//! Resampling failures.

use vstd::prelude::*;

use crate::error::PipelineError;

verus! {

/// A source rate the resampler cannot convert.
#[derive(Debug, PartialEq, Eq)]
pub enum ResampleError {
    Unsupported(u32),
}

impl From<ResampleError> for PipelineError {
    fn from(value: ResampleError) -> (e: PipelineError) {
        match value {
            ResampleError::Unsupported(rate) => PipelineError::Resample { source_rate: rate },
        }
    }
}

impl vstd::std_specs::convert::FromSpecImpl<ResampleError> for PipelineError {
    open spec fn obeys_from_spec() -> bool {
        true
    }

    open spec fn from_spec(value: ResampleError) -> PipelineError {
        match value {
            ResampleError::Unsupported(rate) => PipelineError::Resample { source_rate: rate },
        }
    }
}

} // verus!
