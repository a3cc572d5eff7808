//! The server core: lifecycle control around the accept loop, and the
//! per-connection dispatch step.
//!
//! The embedding program owns the listening socket and the worker
//! pool. It drives this core: `on_bind` records the bind outcome,
//! `accept_gate` is checked before every accept attempt, and each
//! accepted connection's bytes go through `dispatch`, whose outcome
//! tells the worker what to write back before closing the socket.

use vstd::prelude::*;
use crate::request::{Method, Request, Response, spec_parse};
use crate::router::Router;

verus! {

/// Phases of the server lifecycle.
#[derive(Clone, Copy, PartialEq, Eq, Structural, Debug)]
pub enum Lifecycle {
    /// Constructed; routes may be registered.
    Created,
    /// The listening socket is bound and the accept loop is admitting
    /// connections (binding leads here at once).
    Serving,
    /// The accept loop has exited; the socket is released.
    Stopped,
}

/// The server core: the router, the address configuration, the shared
/// running flag, and the lifecycle phase. The socket itself and the
/// pool of `max_threads` workers live in the embedding program.
pub struct Rabbit<H> {
    pub router: Router<H>,
    pub ip: Vec<u8>,
    pub port: u16,
    pub max_threads: usize,
    pub running: bool,
    pub phase: Lifecycle,
}

/// Whether the accept loop may wait for another connection.
pub open spec fn spec_should_accept<H>(s: Rabbit<H>) -> bool {
    s.running && s.phase == Lifecycle::Serving
}

/// The core after `stop`: the shared running flag is cleared and
/// nothing else changes.
pub open spec fn spec_stop<H>(s: Rabbit<H>) -> Rabbit<H> {
    Rabbit { running: false, ..s }
}

/// The core after the accept loop turns down a further round: the phase is
/// Stopped, so the embedding program releases the listening socket.
pub open spec fn spec_halt<H>(s: Rabbit<H>) -> Rabbit<H> {
    Rabbit { phase: Lifecycle::Stopped, ..s }
}

/// The core after a bind attempt: serving on success; stopped, with
/// the running flag cleared, on failure (bind failure is fatal).
pub open spec fn spec_on_bind<H>(s: Rabbit<H>, bound: bool) -> Rabbit<H> {
    if bound {
        Rabbit { phase: Lifecycle::Serving, ..s }
    } else {
        Rabbit { phase: Lifecycle::Stopped, running: false, ..s }
    }
}

impl<H: Copy> Rabbit<H> {
    /// A fresh server core: an empty router, the given address and
    /// worker bound, running flag up, no socket bound yet.
    pub fn new(ip: Vec<u8>, port: u16, max_threads: usize) -> (r: Rabbit<H>)
        ensures
            r.router@ == Map::<(Method, Seq<u8>), H>::empty(),
            r.ip@ == ip@,
            r.port == port,
            r.max_threads == max_threads,
            r.running,
            r.phase == Lifecycle::Created,
    {
        Rabbit {
            router: Router::new(),
            ip,
            port,
            max_threads,
            running: true,
            phase: Lifecycle::Created,
        }
    }

    /// Register a handler for (method, path); the latest registration
    /// of a key wins. Allowed only before the server starts.
    pub fn add_route(&mut self, method: Method, path: Vec<u8>, handler: H)
        requires
            old(self).phase == Lifecycle::Created,
        ensures
            final(self).router@ == old(self).router@.insert((method, path@), handler),
            final(self).ip == old(self).ip,
            final(self).port == old(self).port,
            final(self).max_threads == old(self).max_threads,
            final(self).running == old(self).running,
            final(self).phase == old(self).phase,
    {
        self.router.add(method, path, handler);
    }

    /// Record the outcome of binding the listening socket: on success
    /// the accept loop begins at once; a failed bind is fatal, so the
    /// core stops.
    pub fn on_bind(&mut self, bound: bool)
        requires
            old(self).phase == Lifecycle::Created,
        ensures
            *final(self) == spec_on_bind(*old(self), bound),
    {
        if bound {
            self.phase = Lifecycle::Serving;
        } else {
            self.phase = Lifecycle::Stopped;
            self.running = false;
        }
    }

    /// The accept loop's guard, checked before each accept attempt:
    /// continue only while the core is serving and the running flag is
    /// up; otherwise exit the loop and mark the server stopped.
    pub fn accept_gate(&mut self) -> (cont: bool)
        ensures
            cont == spec_should_accept(*old(self)),
            cont ==> *final(self) == *old(self),
            !cont ==> *final(self) == spec_halt(*old(self)),
    {
        if self.running && self.phase == Lifecycle::Serving {
            true
        } else {
            self.phase = Lifecycle::Stopped;
            false
        }
    }

    /// Request shutdown: clear the shared running flag. Only prevents
    /// new connections from being accepted; work already handed to the
    /// pool runs to completion.
    pub fn stop(&mut self)
        ensures
            *final(self) == spec_stop(*old(self)),
    {
        self.running = false;
    }

    /// Read the shared running flag without mutating anything.
    pub fn is_running(&self) -> (r: bool)
        ensures
            r == self.running,
    {
        self.running
    }
}

/// Law: once `stop` has run, `accept_gate` lets no further accept
/// attempt through, and the loop's exit leaves the server stopped,
/// from where nothing is let through either.
pub proof fn lemma_stop_halts_accepting<H>(s: Rabbit<H>)
    ensures
        !spec_should_accept(spec_stop(s)),
        spec_halt(spec_stop(s)).phase == Lifecycle::Stopped,
        !spec_should_accept(spec_halt(spec_stop(s))),
{
}

/// What the worker handling one accepted connection must do after the
/// socket read: invoke a handler and write its payload, write a fixed
/// fallback payload, or just close.
pub enum Outcome<H> {
    /// A route matched: invoke the handler on the request and write
    /// the response payload it returns.
    Invoke(H, Request),
    /// Write this payload back as-is.
    Respond(Vec<u8>),
    /// Close the connection without writing anything.
    Close,
}

/// The fixed fallback payload for requests whose route is not
/// registered.
pub open spec fn not_found_bytes() -> Seq<u8> {
    seq![
        'N' as u8,
        'o' as u8,
        't' as u8,
        ' ' as u8,
        'F' as u8,
        'o' as u8,
        'u' as u8,
        'n' as u8,
        'd' as u8,
    ]
}

/// Build the fallback payload.
pub fn not_found_payload() -> (r: Vec<u8>)
    ensures
        r@ == not_found_bytes(),
{
    let mut v: Vec<u8> = Vec::new();
    v.push('N' as u8);
    v.push('o' as u8);
    v.push('t' as u8);
    v.push(' ' as u8);
    v.push('F' as u8);
    v.push('o' as u8);
    v.push('u' as u8);
    v.push('n' as u8);
    v.push('d' as u8);
    proof {
        assert(v@ =~= not_found_bytes());
    }
    v
}

/// Decide one connection: parse the buffer's first line, look the key
/// up in the router, and report what to write back. A connection whose
/// buffer yields no request (an empty read included) is closed without
/// a response; an unregistered key gets the fixed fallback payload.
///
/// The outcome is a function of the router and this connection's bytes
/// alone, so concurrently handled connections cannot affect each
/// other's responses.
pub fn dispatch<H: Copy>(router: &Router<H>, buffer: &Vec<u8>) -> (r: Outcome<H>)
    ensures
        spec_parse(buffer@) is Err ==> r is Close,
        spec_parse(buffer@) matches Ok(mp) ==> if router@.contains_key(mp) {
            r matches Outcome::Invoke(h, req) && h == router@[mp] && req.method == mp.0
                && req.path@ == mp.1
        } else {
            r matches Outcome::Respond(msg) && msg@ == not_found_bytes()
        },
{
    match Request::new(buffer) {
        Err(_) => Outcome::Close,
        Ok(req) => match router.get_callback(&req) {
            Some(h) => Outcome::Invoke(h, req),
            None => Outcome::Respond(not_found_payload()),
        },
    }
}

} // verus!
