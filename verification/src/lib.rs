//! A verified two-party secure computation library.
//!
//! Two mutually distrusting parties compute an agreed function (a sum or a
//! threshold comparison) of their private integers, revealing only the
//! result.  The engine is a Yao-style garbled boolean circuit combined with
//! a one-of-two oblivious transfer for the evaluator's input-wire labels.

pub mod aggregate;
pub mod bits;
pub mod gadgets;
pub mod circuit;
pub mod errors;
pub mod garble;
pub mod ot;
pub mod prim;
pub mod session;
