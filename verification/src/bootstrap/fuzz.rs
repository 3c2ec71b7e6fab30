//! One fuzz iteration after another, on one host.

use crate::data::{FuzzData, LogView};
use crate::fuzz_input::FuzzInput;
use crate::output::{parse_commands, spec_parse};
use vstd::prelude::*;
use vstd::slice::slice_to_vec;

verus! {

/// What lasts from one fuzz iteration to the next: whether the host was
/// built. It is built once, by the first iteration that runs.
pub struct FuzzSession {
    host_built: bool,
}

/// An iteration that is to be run.
pub struct FuzzIteration {
    /// Whether the host has to be built first.
    pub build_host: bool,
    /// The log to install in the host.
    pub data: FuzzData,
}

/// The events that fuzz bytes stand for; `None` where there is nothing to
/// run: no bytes, bytes that are rejected, or no event in them.
pub open spec fn spec_fuzz_events(fuzz_bytes: Seq<u8>) -> Option<Seq<FuzzInput>> {
    if fuzz_bytes.len() == 0 {
        None
    } else {
        match spec_parse(fuzz_bytes) {
            Ok(events) => if events.len() == 0 {
                None
            } else {
                Some(events)
            },
            Err(_) => None,
        }
    }
}

impl FuzzSession {
    /// Whether the host was built.
    pub closed spec fn host_built(&self) -> bool {
        self.host_built
    }

    /// A session whose host is yet to be built.
    pub fn new() -> (r: Self)
        ensures
            !r.host_built(),
    {
        FuzzSession { host_built: false }
    }
}

/// Prepares one fuzz iteration. Bytes that give no events are skipped: the
/// result is `None`, and the session is as it was, so that no host is built
/// for them. Otherwise the iteration gets a fresh log over the events, and
/// is told to build the host if no iteration before it has.
pub fn fuzz_bootstrap(session: &mut FuzzSession, fuzz_bytes: &[u8]) -> (r: Option<FuzzIteration>)
    ensures
        match spec_fuzz_events(fuzz_bytes@) {
            None => r is None && final(session).host_built() == old(session).host_built(),
            Some(events) => {
                &&& r is Some
                &&& r->Some_0.build_host == !old(session).host_built()
                &&& r->Some_0.data@ == (LogView { inputs: events, cursor: None })
                &&& final(session).host_built()
            },
        },
        fuzz_bytes@.len() == 0 ==> r is None,
{
    if fuzz_bytes.len() == 0 {
        return None;
    }
    let fuzz_inputs = match parse_commands(slice_to_vec(fuzz_bytes)) {
        Ok(d) => d,
        Err(_) => {
            return None;
        },
    };
    if fuzz_inputs.len() == 0 {
        return None;
    }
    let build_host = !session.host_built;
    session.host_built = true;
    Some(FuzzIteration { build_host, data: FuzzData::new(fuzz_inputs) })
}

} // verus!
