//! The demo handlers the server ships with: pure functions from a
//! parsed request to a response payload, as the handler contract asks.

use vstd::prelude::*;
use crate::request::{Request, Response};

verus! {

/// The payload of the car-listing handler.
pub open spec fn cars_bytes() -> Seq<u8> {
    seq![
        '[' as u8,
        'f' as u8,
        'i' as u8,
        'a' as u8,
        't' as u8,
        ',' as u8,
        ' ' as u8,
        'a' as u8,
        'u' as u8,
        'd' as u8,
        'i' as u8,
        ',' as u8,
        ' ' as u8,
        's' as u8,
        'e' as u8,
        'r' as u8,
        'g' as u8,
        'i' as u8,
        'o' as u8,
        ' ' as u8,
        'r' as u8,
        'a' as u8,
        't' as u8,
        'a' as u8,
        ']' as u8,
    ]
}

/// The payload of the greeting handler.
pub open spec fn sergio_bytes() -> Seq<u8> {
    seq![
        'S' as u8,
        'e' as u8,
        'r' as u8,
        'g' as u8,
        'i' as u8,
        'o' as u8,
        ' ' as u8,
        'e' as u8,
        'r' as u8,
        'e' as u8,
        's' as u8,
        't' as u8,
        ' ' as u8,
        'u' as u8,
        'n' as u8,
        ' ' as u8,
        'r' as u8,
        'a' as u8,
        't' as u8,
        'a' as u8,
    ]
}

/// Handler for the car listing: always the fixed car-list payload.
pub fn get_cars(request: Request) -> (r: Response)
    ensures
        r.msg@ == cars_bytes(),
{
    let mut msg: Vec<u8> = Vec::new();
    msg.push('[' as u8);
    msg.push('f' as u8);
    msg.push('i' as u8);
    msg.push('a' as u8);
    msg.push('t' as u8);
    msg.push(',' as u8);
    msg.push(' ' as u8);
    msg.push('a' as u8);
    msg.push('u' as u8);
    msg.push('d' as u8);
    msg.push('i' as u8);
    msg.push(',' as u8);
    msg.push(' ' as u8);
    msg.push('s' as u8);
    msg.push('e' as u8);
    msg.push('r' as u8);
    msg.push('g' as u8);
    msg.push('i' as u8);
    msg.push('o' as u8);
    msg.push(' ' as u8);
    msg.push('r' as u8);
    msg.push('a' as u8);
    msg.push('t' as u8);
    msg.push('a' as u8);
    msg.push(']' as u8);
    proof {
        assert(msg@ =~= cars_bytes());
    }
    Response { msg }
}

/// Handler for the greeting: always the fixed greeting payload.
pub fn sergio_rata(request: Request) -> (r: Response)
    ensures
        r.msg@ == sergio_bytes(),
{
    let mut msg: Vec<u8> = Vec::new();
    msg.push('S' as u8);
    msg.push('e' as u8);
    msg.push('r' as u8);
    msg.push('g' as u8);
    msg.push('i' as u8);
    msg.push('o' as u8);
    msg.push(' ' as u8);
    msg.push('e' as u8);
    msg.push('r' as u8);
    msg.push('e' as u8);
    msg.push('s' as u8);
    msg.push('t' as u8);
    msg.push(' ' as u8);
    msg.push('u' as u8);
    msg.push('n' as u8);
    msg.push(' ' as u8);
    msg.push('r' as u8);
    msg.push('a' as u8);
    msg.push('t' as u8);
    msg.push('a' as u8);
    proof {
        assert(msg@ =~= sergio_bytes());
    }
    Response { msg }
}

} // verus!
