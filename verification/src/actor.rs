//! The live-stream actor.
//!
//! The actor consumes market-data events and drives the broker; the stream
//! subscription and the dispatch of incoming events are network work and
//! live outside this crate, which is why the actor itself carries no state.

use vstd::prelude::*;

verus! {

/// Consumer of live market-data events; the evaluator it drives is owned
/// by the caller.
pub struct Actor {}

impl Actor {
    pub fn new() -> Actor {
        Actor {  }
    }
}

/// One-shot window helper from the stream-dispatch path: despite the size
/// parameter it always yields a window holding exactly the one element
/// just received.
pub fn buffer<T>(size: usize, data: T) -> (r: Vec<T>)
    ensures
        r@.len() == 1,
        r@[0] == data,
{
    let mut buf: Vec<T> = Vec::new();
    buf.push(data);
    buf
}

} // verus!
