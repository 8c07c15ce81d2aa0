//! Error taxonomy of the protocol.
//!
//! Input errors are reported before any session starts; protocol errors are
//! fatal to the running session; nothing falls back to a default value.

use vstd::prelude::*;

verus! {

/// Every failure the library can surface.
#[derive(Clone, Copy, PartialEq, Eq, Structural, Debug)]
pub enum TwopcError {
    /// Input error: the selected attribute set is empty.
    EmptySelection,
    /// Input error: an input bit-vector does not match the circuit's
    /// declared width for that party.
    WidthMismatch,
    /// Input error: the circuit description references an undefined wire or
    /// is otherwise ill-formed.
    MalformedCircuit,
    /// Input error: the circuit declares more output wires than the result
    /// integer can carry.
    OutputTooWide,
    /// Protocol error: an oblivious-transfer message lies outside the group.
    MalformedOtMessage,
    /// Protocol error: the garbled-table blob has the wrong shape for the
    /// agreed circuit.
    MalformedTables,
    /// Protocol error: an output label matches neither label of its wire.
    DecodeMismatch,
}

} // verus!
