//! Where pipelines are made.

use crate::pipeline::StandardRequestProcessor;
use vstd::prelude::*;

verus! {

/// A pipeline without middleware and without controllers.
pub fn create_request_proc() -> (p: StandardRequestProcessor)
    ensures
        p.chain().len() == 0,
        p.registry().len() == 0,
{
    StandardRequestProcessor::new(Vec::new(), Vec::new())
}

} // verus!
