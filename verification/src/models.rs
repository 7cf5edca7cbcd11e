//! The collaborator-facing request schema.

use vstd::prelude::*;

verus! {

/// A conversion request as the transport layer hands it over: the text
/// payload and the names of the source and target layouts. Not part of the
/// engine's owned state.
pub struct TextSchema {
    pub text: String,
    pub from: String,
    pub to: String,
}

} // verus!
