//! The connection preface, and telling an HTTP/1 client apart.
use vstd::prelude::*;
use crate::headers::bytes_eq_prefix;

verus! {

/// What the first bytes from a client turn out to be.
#[derive(Clone, Copy, Debug, PartialEq, Eq, Structural)]
pub enum PrefaceCheck {
    /// Not enough bytes to tell yet.
    NeedMore,
    /// The HTTP/2 connection preface.
    Http2,
    /// An HTTP/1 request line: answer with the canned 500 and close.
    Http1,
    /// Anything else: close.
    Invalid,
}

/// The 24-byte client connection preface.
pub open spec fn preface_spec() -> Seq<u8> {
    seq![80u8, 82, 73, 32, 42, 32, 72, 84, 84, 80, 47, 50, 46, 48, 13, 10, 13, 10, 83, 77, 13, 10, 13, 10]
}

pub const N_HTTP1_METHODS: usize = 9;

/// The HTTP/1 request methods that are recognised, each with the space
/// that follows it on a request line.
pub open spec fn http1_method_spec(i: int) -> Seq<u8> {
    if i == 0 { seq![71u8, 69, 84, 32] }
    else if i == 1 { seq![80u8, 79, 83, 84, 32] }
    else if i == 2 { seq![72u8, 69, 65, 68, 32] }
    else if i == 3 { seq![80u8, 85, 84, 32] }
    else if i == 4 { seq![68u8, 69, 76, 69, 84, 69, 32] }
    else if i == 5 { seq![79u8, 80, 84, 73, 79, 78, 83, 32] }
    else if i == 6 { seq![67u8, 79, 78, 78, 69, 67, 84, 32] }
    else if i == 7 { seq![84u8, 82, 65, 67, 69, 32] }
    else if i == 8 { seq![80u8, 65, 84, 67, 72, 32] }
    else { seq![] }
}

pub open spec fn starts_with(b: Seq<u8>, s: Seq<u8>) -> bool {
    b.len() >= s.len() && b.take(s.len() as int) == s
}

pub open spec fn is_prefix_of(b: Seq<u8>, s: Seq<u8>) -> bool {
    b.len() <= s.len() && s.take(b.len() as int) == b
}

pub open spec fn starts_http1(b: Seq<u8>) -> bool {
    exists|i: int| 0 <= i < N_HTTP1_METHODS && starts_with(b, #[trigger] http1_method_spec(i))
}

pub open spec fn may_start_http1(b: Seq<u8>) -> bool {
    exists|i: int| 0 <= i < N_HTTP1_METHODS && is_prefix_of(b, #[trigger] http1_method_spec(i))
}

/// The server's reading of the first bytes: the preface; an HTTP/1
/// request line; a beginning of either that needs more bytes; or neither.
pub open spec fn preface_check_spec(b: Seq<u8>) -> PrefaceCheck {
    if starts_with(b, preface_spec()) {
        PrefaceCheck::Http2
    } else if starts_http1(b) {
        PrefaceCheck::Http1
    } else if is_prefix_of(b, preface_spec()) || may_start_http1(b) {
        PrefaceCheck::NeedMore
    } else {
        PrefaceCheck::Invalid
    }
}

/// The connection preface as bytes.
pub fn preface() -> (r: Vec<u8>)
    ensures
        r@ == preface_spec(),
{
    let v = vec![80u8, 82, 73, 32, 42, 32, 72, 84, 84, 80, 47, 50, 46, 48, 13, 10, 13, 10, 83, 77, 13, 10, 13, 10];
    assert(v@ =~= preface_spec());
    v
}

fn http1_method(i: usize) -> (r: Vec<u8>)
    requires
        i < N_HTTP1_METHODS,
    ensures
        r@ == http1_method_spec(i as int),
{
    let v = match i {
        0 => vec![71u8, 69, 84, 32],
        1 => vec![80u8, 79, 83, 84, 32],
        2 => vec![72u8, 69, 65, 68, 32],
        3 => vec![80u8, 85, 84, 32],
        4 => vec![68u8, 69, 76, 69, 84, 69, 32],
        5 => vec![79u8, 80, 84, 73, 79, 78, 83, 32],
        6 => vec![67u8, 79, 78, 78, 69, 67, 84, 32],
        7 => vec![84u8, 82, 65, 67, 69, 32],
        _ => vec![80u8, 65, 84, 67, 72, 32],
    };
    assert(v@ =~= http1_method_spec(i as int));
    v
}

fn starts_with_exec(b: &[u8], s: &[u8]) -> (r: bool)
    ensures
        r == starts_with(b@, s@),
{
    if b.len() < s.len() {
        return false;
    }
    assert(s@.take(s@.len() as int) =~= s@);
    bytes_eq_prefix(b, s, s.len())
}

fn is_prefix_of_exec(b: &[u8], s: &[u8]) -> (r: bool)
    ensures
        r == is_prefix_of(b@, s@),
{
    if b.len() > s.len() {
        return false;
    }
    assert(b@.take(b@.len() as int) =~= b@);
    bytes_eq_prefix(b, s, b.len())
}

/// Reads the first bytes a server gets; see `preface_check_spec`.
pub fn check_preface(b: &[u8]) -> (r: PrefaceCheck)
    ensures
        r == preface_check_spec(b@),
{
    let p = preface();
    if starts_with_exec(b, p.as_slice()) {
        return PrefaceCheck::Http2;
    }
    let mut i: usize = 0;
    let mut maybe = false;
    while i < N_HTTP1_METHODS
        invariant
            0 <= i <= N_HTTP1_METHODS,
            forall|k: int| 0 <= k < i ==> !starts_with(b@, #[trigger] http1_method_spec(k)),
            maybe == exists|k: int| 0 <= k < i && is_prefix_of(b@, #[trigger] http1_method_spec(k)),
        decreases N_HTTP1_METHODS - i,
    {
        let m = http1_method(i);
        if starts_with_exec(b, m.as_slice()) {
            return PrefaceCheck::Http1;
        }
        if is_prefix_of_exec(b, m.as_slice()) {
            maybe = true;
        }
        i = i + 1;
    }
    if is_prefix_of_exec(b, p.as_slice()) || maybe {
        PrefaceCheck::NeedMore
    } else {
        PrefaceCheck::Invalid
    }
}

/// The canned reply to an HTTP/1 client.
pub open spec fn http1_500_spec() -> Seq<u8> {
    seq![72u8, 84, 84, 80, 47, 49, 46, 49, 32, 53, 48, 48, 32, 73, 110, 116, 101, 114, 110, 97, 108, 32, 83, 101, 114, 118, 101, 114, 32, 69, 114, 114, 111, 114, 13, 10, 67, 111, 110, 116, 101, 110, 116, 45, 84, 121, 112, 101, 58, 32, 116, 101, 120, 116, 47, 112, 108, 97, 105, 110, 13, 10, 67, 111, 110, 110, 101, 99, 116, 105, 111, 110, 58, 32, 99, 108, 111, 115, 101, 13, 10, 13, 10, 84, 104, 105, 115, 32, 115, 101, 114, 118, 101, 114, 32, 115, 112, 101, 97, 107, 115, 32, 72, 84, 84, 80, 47, 50, 32, 111, 110, 108, 121, 13, 10]
}

/// The reply written to an HTTP/1 client before closing.
pub fn http1_500_response() -> (r: Vec<u8>)
    ensures
        r@ == http1_500_spec(),
{
    let v = vec![72u8, 84, 84, 80, 47, 49, 46, 49, 32, 53, 48, 48, 32, 73, 110, 116, 101, 114, 110, 97, 108, 32, 83, 101, 114, 118, 101, 114, 32, 69, 114, 114, 111, 114, 13, 10, 67, 111, 110, 116, 101, 110, 116, 45, 84, 121, 112, 101, 58, 32, 116, 101, 120, 116, 47, 112, 108, 97, 105, 110, 13, 10, 67, 111, 110, 110, 101, 99, 116, 105, 111, 110, 58, 32, 99, 108, 111, 115, 101, 13, 10, 13, 10, 84, 104, 105, 115, 32, 115, 101, 114, 118, 101, 114, 32, 115, 112, 101, 97, 107, 115, 32, 72, 84, 84, 80, 47, 50, 32, 111, 110, 108, 121, 13, 10];
    assert(v@ =~= http1_500_spec());
    v
}

} // verus!
