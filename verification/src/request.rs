//! Request-line parsing: turn a raw connection buffer into a
//! structured request of (method, path).
//!
//! Parsing is permissive, as the dispatch core requires: the first
//! line of the buffer is split on single spaces; the first token
//! selects the method (unrecognized tokens fall back to GET) and the
//! second token is the path. The one hard failure is a first line
//! with no space at all, which cannot yield a path.

use vstd::prelude::*;

verus! {

/// Line feed, the end of the request line.
pub const LF: u8 = 10;

/// Carriage return, stripped when it precedes the line feed.
pub const CR: u8 = 13;

/// The space that separates the request-line tokens.
pub const SP: u8 = 32;

/// The methods the router distinguishes. Method tokens that match
/// none of these parse as `GET`.
#[derive(Clone, Copy, PartialEq, Eq, Structural, Debug)]
pub enum Method {
    GET,
    POST,
    PUT,
    DELETE,
    UPDATE,
}

/// Why a buffer could not be turned into a request.
#[derive(Clone, Copy, PartialEq, Eq, Structural, Debug)]
pub enum ParseError {
    /// The first line holds fewer than two space-separated tokens.
    MalformedRequestLine,
}

/// A parsed request: the method and the path bytes taken verbatim
/// from the request line. Built fresh from one connection's buffer
/// and never kept beyond that connection's handling.
#[derive(Debug)]
pub struct Request {
    pub method: Method,
    pub path: Vec<u8>,
}

/// A response: an opaque byte payload written back to the client.
#[derive(Debug)]
pub struct Response {
    pub msg: Vec<u8>,
}

/// The position of the first occurrence of `c` in `s`, if any.
pub open spec fn find_byte(s: Seq<u8>, c: u8) -> Option<int>
    decreases s.len(),
{
    if s.len() == 0 {
        None
    } else if s[0] == c {
        Some(0int)
    } else {
        match find_byte(s.drop_first(), c) {
            None => None,
            Some(i) => Some(i + 1),
        }
    }
}

/// The request line: everything before the first line feed, with a
/// single trailing carriage return stripped.
pub open spec fn request_line(s: Seq<u8>) -> Seq<u8> {
    let l = match find_byte(s, LF) {
        None => s,
        Some(i) => s.take(i),
    };
    if l.len() > 0 && l.last() == CR {
        l.drop_last()
    } else {
        l
    }
}

/// The method named by a request-line token; anything unrecognized,
/// the empty token included, is GET.
pub open spec fn method_of(t: Seq<u8>) -> Method {
    if t == seq!['P' as u8, 'O' as u8, 'S' as u8, 'T' as u8] {
        Method::POST
    } else if t == seq!['P' as u8, 'U' as u8, 'T' as u8] {
        Method::PUT
    } else if t == seq!['D' as u8, 'E' as u8, 'L' as u8, 'E' as u8, 'T' as u8, 'E' as u8] {
        Method::DELETE
    } else if t == seq!['U' as u8, 'P' as u8, 'D' as u8, 'A' as u8, 'T' as u8, 'E' as u8] {
        Method::UPDATE
    } else {
        Method::GET
    }
}

/// What parsing a raw buffer yields: the method named by the first
/// token of the request line and the path between the first space and
/// the next space or the line's end; or a failure when the line has
/// no space at all.
pub open spec fn spec_parse(s: Seq<u8>) -> Result<(Method, Seq<u8>), ParseError> {
    let line = request_line(s);
    match find_byte(line, SP) {
        None => Err(ParseError::MalformedRequestLine),
        Some(i) => {
            let rest = line.skip(i + 1);
            let path = match find_byte(rest, SP) {
                None => rest,
                Some(j) => rest.take(j),
            };
            Ok((method_of(line.take(i)), path))
        },
    }
}

proof fn lemma_find_byte_some(s: Seq<u8>, c: u8, i: int)
    requires
        0 <= i < s.len(),
        s[i] == c,
        forall|j: int| 0 <= j < i ==> s[j] != c,
    ensures
        find_byte(s, c) == Some(i),
    decreases i,
{
    if i > 0 {
        lemma_find_byte_some(s.drop_first(), c, i - 1);
    }
}

proof fn lemma_find_byte_none(s: Seq<u8>, c: u8)
    requires
        forall|j: int| 0 <= j < s.len() ==> s[j] != c,
    ensures
        find_byte(s, c) is None,
    decreases s.len(),
{
    if s.len() > 0 {
        lemma_find_byte_none(s.drop_first(), c);
    }
}

proof fn lemma_find_byte_finds(s: Seq<u8>, c: u8, i: int)
    requires
        0 <= i < s.len(),
        s[i] == c,
    ensures
        find_byte(s, c) is Some,
    decreases i,
{
    if s[0] != c {
        lemma_find_byte_finds(s.drop_first(), c, i - 1);
    }
}

/// Law: a first line without a space cannot yield a request; every
/// such buffer fails with the malformed-request-line error.
pub proof fn lemma_no_space_is_malformed(s: Seq<u8>)
    requires
        forall|j: int| 0 <= j < request_line(s).len() ==> request_line(s)[j] != SP,
    ensures
        spec_parse(s) == Err::<(Method, Seq<u8>), ParseError>(ParseError::MalformedRequestLine),
{
    lemma_find_byte_none(request_line(s), SP);
}

/// Law: a first line with a space always yields a request; parsing
/// never fails for any other reason.
pub proof fn lemma_space_gives_request(s: Seq<u8>, i: int)
    requires
        0 <= i < request_line(s).len(),
        request_line(s)[i] == SP,
    ensures
        spec_parse(s) is Ok,
{
    lemma_find_byte_finds(request_line(s), SP, i);
}

/// First index of `c` in `v[from..to]`, scanning left to right.
fn find_byte_in(v: &Vec<u8>, from: usize, to: usize, c: u8) -> (r: Option<usize>)
    requires
        from <= to <= v@.len(),
    ensures
        match r {
            Some(i) => {
                &&& from <= i < to
                &&& v@[i as int] == c
                &&& forall|j: int| from <= j < i ==> v@[j] != c
                &&& find_byte(v@.subrange(from as int, to as int), c) == Some(i - from)
            },
            None => {
                &&& forall|j: int| from <= j < to ==> v@[j] != c
                &&& find_byte(v@.subrange(from as int, to as int), c) is None
            },
        },
{
    let mut i: usize = from;
    while i < to
        invariant
            from <= i <= to <= v@.len(),
            forall|j: int| from <= j < i ==> v@[j] != c,
        decreases to - i,
    {
        if v[i] == c {
            proof {
                lemma_find_byte_some(v@.subrange(from as int, to as int), c, i - from);
            }
            return Some(i);
        }
        i = i + 1;
    }
    proof {
        lemma_find_byte_none(v@.subrange(from as int, to as int), c);
    }
    None
}

/// The method named by the token `v[0..end]`.
fn parse_method(v: &Vec<u8>, end: usize) -> (m: Method)
    requires
        end <= v@.len(),
    ensures
        m == method_of(v@.take(end as int)),
{
    let ghost t = v@.take(end as int);
    if end == 4 && v[0] == 'P' as u8 && v[1] == 'O' as u8 && v[2] == 'S' as u8 && v[3] == 'T' as u8 {
        proof {
            assert(t =~= seq!['P' as u8, 'O' as u8, 'S' as u8, 'T' as u8]);
        }
        Method::POST
    } else if end == 3 && v[0] == 'P' as u8 && v[1] == 'U' as u8 && v[2] == 'T' as u8 {
        proof {
            assert(t =~= seq!['P' as u8, 'U' as u8, 'T' as u8]);
        }
        Method::PUT
    } else if end == 6 && v[0] == 'D' as u8 && v[1] == 'E' as u8 && v[2] == 'L' as u8 && v[3]
        == 'E' as u8 && v[4] == 'T' as u8 && v[5] == 'E' as u8 {
        proof {
            assert(t =~= seq!['D' as u8, 'E' as u8, 'L' as u8, 'E' as u8, 'T' as u8, 'E' as u8]);
        }
        Method::DELETE
    } else if end == 6 && v[0] == 'U' as u8 && v[1] == 'P' as u8 && v[2] == 'D' as u8 && v[3]
        == 'A' as u8 && v[4] == 'T' as u8 && v[5] == 'E' as u8 {
        proof {
            assert(t =~= seq!['U' as u8, 'P' as u8, 'D' as u8, 'A' as u8, 'T' as u8, 'E' as u8]);
        }
        Method::UPDATE
    } else {
        Method::GET
    }
}

impl Request {
    /// Parse a raw buffer's first line into a request; fails exactly
    /// when that line holds no space, so no path token exists.
    pub fn new(raw: &Vec<u8>) -> (r: Result<Request, ParseError>)
        ensures
            match r {
                Ok(req) => spec_parse(raw@) == Ok::<(Method, Seq<u8>), ParseError>(
                    (req.method, req.path@),
                ),
                Err(e) => {
                    &&& spec_parse(raw@) == Err::<(Method, Seq<u8>), ParseError>(e)
                    &&& e == ParseError::MalformedRequestLine
                },
            },
    {
        let n: usize = raw.len();
        // the first line: up to the first line feed, minus a trailing
        // carriage return
        let line_break: usize = match find_byte_in(raw, 0, n, LF) {
            Some(i) => i,
            None => n,
        };
        let line_len: usize = if line_break > 0 && raw[line_break - 1] == CR {
            line_break - 1
        } else {
            line_break
        };
        let ghost line = request_line(raw@);
        proof {
            assert(raw@.subrange(0, n as int) =~= raw@);
            if line_break > 0 && raw@[line_break as int - 1] == CR {
                assert(raw@.take(line_break as int).drop_last() =~= raw@.take(
                    line_break as int - 1,
                ));
            }
            assert(line =~= raw@.take(line_len as int));
        }
        // the first space separates the method token from the path
        let sp1: usize = match find_byte_in(raw, 0, line_len, SP) {
            Some(i) => i,
            None => {
                proof {
                    assert(line =~= raw@.subrange(0, line_len as int));
                }
                return Err(ParseError::MalformedRequestLine);
            },
        };
        proof {
            assert(line =~= raw@.subrange(0, line_len as int));
        }
        let method = parse_method(raw, sp1);
        // the path runs to the next space or to the line's end
        let path_end: usize = match find_byte_in(raw, sp1 + 1, line_len, SP) {
            Some(j) => j,
            None => line_len,
        };
        let mut path: Vec<u8> = Vec::new();
        let mut k: usize = sp1 + 1;
        while k < path_end
            invariant
                sp1 + 1 <= k <= path_end <= raw@.len(),
                path@ == raw@.subrange(sp1 + 1, k as int),
            decreases path_end - k,
        {
            path.push(raw[k]);
            proof {
                assert(path@ =~= raw@.subrange(sp1 + 1, k + 1));
            }
            k = k + 1;
        }
        proof {
            let rest = line.skip(sp1 + 1);
            assert(rest =~= raw@.subrange(sp1 + 1, line_len as int));
            assert(line.take(sp1 as int) =~= raw@.take(sp1 as int));
            match find_byte(rest, SP) {
                None => {
                    assert(path@ =~= rest);
                },
                Some(j) => {
                    assert(path@ =~= rest.take(j));
                },
            }
        }
        Ok(Request { method, path })
    }
}

} // verus!
