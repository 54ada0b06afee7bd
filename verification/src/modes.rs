//! The modes of operation of the tool.
use vstd::prelude::*;

verus! {

/// All modes the tool can run in.
#[derive(Debug, Clone, Copy, PartialEq, Eq, Structural)]
pub enum Modes {
    Exporter,
    Merger,
    Sampler,
    Clutter,
    Clipper,
    Gmicer,
}

} // verus!
