//! The kinds of inlay hints.
use vstd::prelude::*;

verus! {

/// What an inlay hint shows: a type, or the name of a parameter.
#[derive(Debug, Clone, Copy, PartialEq, Eq, Structural)]
pub enum InlayHintKind {
    Type,
    Parameter,
}

} // verus!
