//! One connection's request/response cycle, from parsed lines to wire
//! text. The two event hooks are capabilities the embedder supplies; they
//! are installed before serving starts and read-only afterwards. Socket
//! reads, writes and timeouts stay with the embedding application.

use vstd::prelude::*;
use crate::request::{Request, request_parser};
use crate::response::{Response, response_parser, spec_response_string};

verus! {

/// The request hook: observes each parsed request, for its side effects
/// alone; what it returns is ignored.
pub trait RequestObserver {
    /// Called once per connection, after parsing.
    fn on_request(&self, request: &Request);
}

/// The response hook: produces the response for a parsed request,
/// typically by building the default response and reworking its body.
pub trait Responder {
    /// Called once per connection, after the request hook.
    fn on_response(&self, request: &Request) -> Response;
}

/// The installed hooks; either may be absent.
pub struct ClientEvent<A, B> {
    pub event_request: Option<A>,
    pub event_response: Option<B>,
}

/// Runs one connection's cycle on already-read, already-split lines:
/// parse, let the request hook observe, let the response hook answer, and
/// serialize its answer. Without a response hook nothing is written, so
/// the result is text exactly when that hook is installed — and then it
/// is the exact wire form of whatever response the hook returned.
pub fn handle_request_lines<A: RequestObserver, B: Responder>(
    packet: &Vec<&str>,
    events: &ClientEvent<A, B>,
) -> (r: Option<String>)
    ensures
        (r is Some) == (events.event_response is Some),
        r matches Some(s) ==> exists|resp: Response| s@ == spec_response_string(resp),
{
    let request = request_parser(packet);
    match &events.event_request {
        Some(handler) => {
            handler.on_request(&request);
        },
        None => {},
    }
    match &events.event_response {
        Some(handler) => {
            let response = handler.on_response(&request);
            let ghost witness = response;
            let text = response_parser(response);
            proof {
                assert(text@ == spec_response_string(witness));
            }
            Some(text)
        },
        None => None,
    }
}

} // verus!
