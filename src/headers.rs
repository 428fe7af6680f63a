//! Header lists: pseudo-header rules, `:status` and `content-length`.
use vstd::prelude::*;

verus! {

/// One header field: name and value as raw bytes.
#[derive(Clone, Debug)]
pub struct Header {
    pub name: Vec<u8>,
    pub value: Vec<u8>,
}

/// A header list in wire order.
#[derive(Clone, Debug)]
pub struct Headers(pub Vec<Header>);

/// Whether a header block opens a message or trails its body.
#[derive(Clone, Copy, Debug, PartialEq, Eq, Structural)]
pub enum HeadersPlace {
    Initial,
    Trailing,
}

/// Whether a header block belongs to a request or to a response.
#[derive(Clone, Copy, Debug, PartialEq, Eq, Structural)]
pub enum RequestOrResponse {
    Request,
    Response,
}

/// The pseudo-header fields that RFC 7540 section 8.1.2 defines.
#[derive(Clone, Copy, Debug, PartialEq, Eq, Structural)]
pub enum PseudoKind {
    Method,
    Scheme,
    Authority,
    Path,
    Status,
    Other,
}

/// Why a header list is refused.
#[derive(Clone, Copy, Debug, PartialEq, Eq, Structural)]
pub enum HeaderError {
    /// A pseudo-header field after a regular one.
    PseudoAfterRegular,
    /// A pseudo-header field not defined for this kind of block.
    UnexpectedPseudo,
    /// A required pseudo-header field is missing or repeated.
    PseudoCount,
}

/// Field and value as sequences, in wire order.
pub open spec fn view_headers(h: Headers) -> Seq<(Seq<u8>, Seq<u8>)> {
    h.0@.map_values(|x: Header| (x.name@, x.value@))
}

pub open spec fn is_pseudo(n: Seq<u8>) -> bool {
    n.len() > 0 && n[0] == 58u8
}

pub open spec fn bytes_are(n: Seq<u8>, s: Seq<u8>) -> bool {
    n =~= s
}

/// ":method", ":scheme", ":authority", ":path", ":status" in ASCII.
pub open spec fn method_name() -> Seq<u8> { seq![58u8, 109, 101, 116, 104, 111, 100] }
pub open spec fn scheme_name() -> Seq<u8> { seq![58u8, 115, 99, 104, 101, 109, 101] }
pub open spec fn authority_name() -> Seq<u8> { seq![58u8, 97, 117, 116, 104, 111, 114, 105, 116, 121] }
pub open spec fn path_name() -> Seq<u8> { seq![58u8, 112, 97, 116, 104] }
pub open spec fn status_name() -> Seq<u8> { seq![58u8, 115, 116, 97, 116, 117, 115] }
/// "content-length" in ASCII.
pub open spec fn content_length_name() -> Seq<u8> {
    seq![99u8, 111, 110, 116, 101, 110, 116, 45, 108, 101, 110, 103, 116, 104]
}

pub open spec fn pseudo_kind_spec(n: Seq<u8>) -> PseudoKind {
    if n == method_name() { PseudoKind::Method }
    else if n == scheme_name() { PseudoKind::Scheme }
    else if n == authority_name() { PseudoKind::Authority }
    else if n == path_name() { PseudoKind::Path }
    else if n == status_name() { PseudoKind::Status }
    else { PseudoKind::Other }
}

fn bytes_eq(a: &[u8], b: &[u8]) -> (r: bool)
    ensures
        r == (a@ == b@),
{
    if a.len() != b.len() {
        return false;
    }
    let mut i: usize = 0;
    while i < a.len()
        invariant
            a@.len() == b@.len(),
            0 <= i <= a@.len(),
            forall|j: int| 0 <= j < i ==> a@[j] == b@[j],
        decreases a@.len() - i,
    {
        if a[i] != b[i] {
            return false;
        }
        i = i + 1;
    }
    assert(a@ =~= b@);
    true
}

/// Whether the first `n` bytes of `a` and `b` agree.
pub(crate) fn bytes_eq_prefix(a: &[u8], b: &[u8], n: usize) -> (r: bool)
    requires
        n <= a@.len(),
        n <= b@.len(),
    ensures
        r == (a@.take(n as int) == b@.take(n as int)),
{
    let mut i: usize = 0;
    while i < n
        invariant
            n <= a@.len(),
            n <= b@.len(),
            0 <= i <= n,
            forall|j: int| 0 <= j < i ==> a@[j] == b@[j],
        decreases n - i,
    {
        if a[i] != b[i] {
            assert(a@.take(n as int)[i as int] != b@.take(n as int)[i as int]);
            return false;
        }
        i = i + 1;
    }
    assert(a@.take(n as int) =~= b@.take(n as int));
    true
}

/// Kind of a pseudo-header field by its name.
pub fn pseudo_kind(n: &[u8]) -> (r: PseudoKind)
    ensures
        r == pseudo_kind_spec(n@),
{
    let method: [u8; 7] = [58u8, 109, 101, 116, 104, 111, 100];
    let scheme: [u8; 7] = [58u8, 115, 99, 104, 101, 109, 101];
    let authority: [u8; 10] = [58u8, 97, 117, 116, 104, 111, 114, 105, 116, 121];
    let path: [u8; 5] = [58u8, 112, 97, 116, 104];
    let status: [u8; 7] = [58u8, 115, 116, 97, 116, 117, 115];
    assert(method@ =~= method_name());
    assert(scheme@ =~= scheme_name());
    assert(authority@ =~= authority_name());
    assert(path@ =~= path_name());
    assert(status@ =~= status_name());
    if bytes_eq(n, method.as_slice()) {
        PseudoKind::Method
    } else if bytes_eq(n, scheme.as_slice()) {
        PseudoKind::Scheme
    } else if bytes_eq(n, authority.as_slice()) {
        PseudoKind::Authority
    } else if bytes_eq(n, path.as_slice()) {
        PseudoKind::Path
    } else if bytes_eq(n, status.as_slice()) {
        PseudoKind::Status
    } else {
        PseudoKind::Other
    }
}

/// Number of fields among the first `k` whose name has kind `p`.
pub open spec fn count_kind(hs: Seq<(Seq<u8>, Seq<u8>)>, k: int, p: PseudoKind) -> nat
    decreases k,
{
    if k <= 0 {
        0
    } else {
        count_kind(hs, k - 1, p) + if is_pseudo(hs[k - 1].0) && pseudo_kind_spec(hs[k - 1].0)
            == p { 1nat } else { 0nat }
    }
}

/// Pseudo-header kinds that a block of this sort may hold.
pub open spec fn allowed_pseudo(rr: RequestOrResponse, place: HeadersPlace, p: PseudoKind) -> bool {
    match place {
        HeadersPlace::Trailing => false,
        HeadersPlace::Initial => match rr {
            RequestOrResponse::Request => p == PseudoKind::Method || p == PseudoKind::Scheme
                || p == PseudoKind::Authority || p == PseudoKind::Path,
            RequestOrResponse::Response => p == PseudoKind::Status,
        },
    }
}

/// RFC 7540 section 8.1.2: pseudo-header fields precede regular ones, are
/// of the kinds this block allows, and the required ones occur once
/// (`:method`, `:scheme`, `:path` in a request; `:status` in a response;
/// `:authority` at most once). Trailers hold none.
pub open spec fn validate_spec(hs: Seq<(Seq<u8>, Seq<u8>)>, rr: RequestOrResponse, place: HeadersPlace)
    -> Result<(), HeaderError>
{
    if exists|i: int, j: int| 0 <= i < j < hs.len() && !is_pseudo(hs[i].0) && is_pseudo(hs[j].0) {
        Err(HeaderError::PseudoAfterRegular)
    } else if exists|i: int| 0 <= i < hs.len() && is_pseudo(hs[i].0)
        && !allowed_pseudo(rr, place, pseudo_kind_spec(hs[i].0)) {
        Err(HeaderError::UnexpectedPseudo)
    } else if place == HeadersPlace::Initial && !counts_ok(hs, rr) {
        Err(HeaderError::PseudoCount)
    } else {
        Ok(())
    }
}

pub open spec fn counts_ok(hs: Seq<(Seq<u8>, Seq<u8>)>, rr: RequestOrResponse) -> bool {
    let n = hs.len() as int;
    match rr {
        RequestOrResponse::Request => count_kind(hs, n, PseudoKind::Method) == 1
            && count_kind(hs, n, PseudoKind::Scheme) == 1
            && count_kind(hs, n, PseudoKind::Path) == 1
            && count_kind(hs, n, PseudoKind::Authority) <= 1,
        RequestOrResponse::Response => count_kind(hs, n, PseudoKind::Status) == 1,
    }
}

/// Value of a run of ASCII digits, most significant first.
pub open spec fn decimal_value(s: Seq<u8>) -> nat
    decreases s.len(),
{
    if s.len() == 0 {
        0
    } else {
        decimal_value(s.drop_last()) * 10 + (s.last() - 48) as nat
    }
}

pub open spec fn all_digits(s: Seq<u8>) -> bool {
    forall|i: int| 0 <= i < s.len() ==> 48 <= #[trigger] s[i] <= 57
}

/// Parses a non-empty run of ASCII digits whose value fits in `u64`.
pub fn parse_decimal(s: &[u8]) -> (r: Option<u64>)
    ensures
        r is Some <==> (s@.len() > 0 && all_digits(s@) && decimal_value(s@) <= u64::MAX),
        r matches Some(v) ==> v == decimal_value(s@),
{
    if s.len() == 0 {
        return None;
    }
    let mut acc: u64 = 0;
    let mut i: usize = 0;
    while i < s.len()
        invariant
            0 <= i <= s@.len(),
            all_digits(s@.subrange(0, i as int)),
            acc == decimal_value(s@.subrange(0, i as int)),
        decreases s@.len() - i,
    {
        assert(s@.subrange(0, i as int + 1).drop_last() =~= s@.subrange(0, i as int));
        let c = s[i];
        if c < 48 || c > 57 {
            assert(!all_digits(s@));
            return None;
        }
        let d: u64 = (c - 48) as u64;
        if acc > (u64::MAX - d) / 10 {
            proof {
                lemma_decimal_prefix_grows(s@, i as int + 1);
            }
            return None;
        }
        acc = acc * 10 + d;
        i = i + 1;
        assert(all_digits(s@.subrange(0, i as int)));
    }
    assert(s@.subrange(0, s@.len() as int) =~= s@);
    Some(acc)
}

proof fn lemma_decimal_prefix_grows(s: Seq<u8>, k: int)
    requires
        0 <= k <= s.len(),
        all_digits(s.subrange(0, k)),
    ensures
        all_digits(s) ==> decimal_value(s.subrange(0, k)) <= decimal_value(s),
    decreases s.len() - k,
{
    if k < s.len() && all_digits(s) {
        assert(s.subrange(0, k + 1).drop_last() =~= s.subrange(0, k));
        assert(all_digits(s.subrange(0, k + 1)));
        lemma_decimal_prefix_grows(s, k + 1);
    } else if k == s.len() {
        assert(s.subrange(0, k) =~= s);
    }
}


/// Value of the first field named `name`.
pub open spec fn field_value(hs: Seq<(Seq<u8>, Seq<u8>)>, name: Seq<u8>) -> Option<Seq<u8>>
    decreases hs.len(),
{
    if hs.len() == 0 {
        None
    } else if hs[0].0 == name {
        Some(hs[0].1)
    } else {
        field_value(hs.drop_first(), name)
    }
}

/// `:status` as a number: the first `:status` field, when it is three digits.
pub open spec fn status_spec(hs: Seq<(Seq<u8>, Seq<u8>)>) -> Option<u32> {
    match field_value(hs, status_name()) {
        Some(v) => if v.len() == 3 && all_digits(v) {
            Some(decimal_value(v) as u32)
        } else {
            None
        },
        None => None,
    }
}

/// `content-length` as a number: the first such field, when it is a decimal
/// that fits in `u64`.
pub open spec fn content_length_spec(hs: Seq<(Seq<u8>, Seq<u8>)>) -> Option<u64> {
    match field_value(hs, content_length_name()) {
        Some(v) => if v.len() > 0 && all_digits(v) && decimal_value(v) <= u64::MAX {
            Some(decimal_value(v) as u64)
        } else {
            None
        },
        None => None,
    }
}

proof fn lemma_field_value_step(hs: Seq<(Seq<u8>, Seq<u8>)>, i: int, name: Seq<u8>)
    requires
        0 <= i < hs.len(),
        hs[i].0 != name,
    ensures
        field_value(hs.subrange(i, hs.len() as int), name) == field_value(
            hs.subrange(i + 1, hs.len() as int),
            name,
        ),
{
    assert(hs.subrange(i, hs.len() as int).drop_first() =~= hs.subrange(i + 1, hs.len() as int));
}

proof fn lemma_three_digits(v: Seq<u8>)
    requires
        v.len() == 3,
    ensures
        all_digits(v) ==> decimal_value(v) < 1000,
{
    if all_digits(v) {
        let a = v.drop_last();
        let b = a.drop_last();
        let c = b.drop_last();
        assert(c.len() == 0);
        assert(decimal_value(c) == 0);
        assert(b.last() == v[0] && a.last() == v[1] && v.last() == v[2]);
        assert(decimal_value(b) <= 9);
        assert(decimal_value(a) <= 99);
    }
}

proof fn lemma_count_le(hs: Seq<(Seq<u8>, Seq<u8>)>, k: int, p: PseudoKind)
    requires
        k >= 0,
    ensures
        count_kind(hs, k, p) <= k,
    decreases k,
{
    if k > 0 {
        lemma_count_le(hs, k - 1, p);
    }
}

impl Headers {
    /// Index of the first field named `name`, if any.
    fn find(&self, name: &[u8]) -> (r: Option<usize>)
        ensures
            match r {
                Some(i) => i < self.0@.len() && field_value(view_headers(*self), name@) == Some(
                    self.0@[i as int].value@,
                ),
                None => field_value(view_headers(*self), name@) is None,
            },
    {
        let ghost hs = view_headers(*self);
        let mut i: usize = 0;
        assert(hs.subrange(0, hs.len() as int) =~= hs);
        while i < self.0.len()
            invariant
                0 <= i <= self.0@.len(),
                hs == view_headers(*self),
                hs.len() == self.0@.len(),
                field_value(hs, name@) == field_value(hs.subrange(i as int, hs.len() as int), name@),
            decreases self.0@.len() - i,
        {
            if bytes_eq(self.0[i].name.as_slice(), name) {
                assert(hs.subrange(i as int, hs.len() as int)[0] == hs[i as int]);
                return Some(i);
            }
            proof {
                lemma_field_value_step(hs, i as int, name@);
            }
            i = i + 1;
        }
        None
    }

    /// The response status, when `:status` is present and three digits.
    pub fn status(&self) -> (r: Option<u32>)
        ensures
            r == status_spec(view_headers(*self)),
    {
        let name: [u8; 7] = [58u8, 115, 116, 97, 116, 117, 115];
        assert(name@ =~= status_name());
        match self.find(name.as_slice()) {
            None => None,
            Some(i) => {
                let v = self.0[i].value.as_slice();
                if v.len() != 3 {
                    return None;
                }
                proof {
                    lemma_three_digits(v@);
                }
                match parse_decimal(v) {
                    Some(n) => {
                        Some(n as u32)
                    },
                    None => None,
                }
            },
        }
    }

    /// The declared body length, when `content-length` is present and a
    /// decimal that fits in `u64`.
    pub fn content_length(&self) -> (r: Option<u64>)
        ensures
            r == content_length_spec(view_headers(*self)),
    {
        let name: [u8; 14] = [99u8, 111, 110, 116, 101, 110, 116, 45, 108, 101, 110, 103, 116, 104];
        assert(name@ =~= content_length_name());
        match self.find(name.as_slice()) {
            None => None,
            Some(i) => parse_decimal(self.0[i].value.as_slice()),
        }
    }

    /// Checks the list against RFC 7540 section 8.1.2 for a block of the
    /// given sort.
    pub fn validate(&self, rr: RequestOrResponse, place: HeadersPlace) -> (r: Result<(), HeaderError>)
        ensures
            r == validate_spec(view_headers(*self), rr, place),
    {
        let ghost hs = view_headers(*self);
        let mut seen_regular = false;
        let mut misordered = false;
        let mut unexpected = false;
        let mut n_method: usize = 0;
        let mut n_scheme: usize = 0;
        let mut n_authority: usize = 0;
        let mut n_path: usize = 0;
        let mut n_status: usize = 0;
        let mut i: usize = 0;
        while i < self.0.len()
            invariant
                0 <= i <= self.0@.len(),
                hs == view_headers(*self),
                hs.len() == self.0@.len(),
                seen_regular == (exists|a: int| 0 <= a < i && !is_pseudo(hs[a].0)),
                misordered == (exists|a: int, b: int|
                    0 <= a < b < i && !is_pseudo(hs[a].0) && is_pseudo(hs[b].0)),
                unexpected == (exists|a: int| 0 <= a < i && is_pseudo(hs[a].0)
                    && !allowed_pseudo(rr, place, pseudo_kind_spec(hs[a].0))),
                n_method == count_kind(hs, i as int, PseudoKind::Method),
                n_scheme == count_kind(hs, i as int, PseudoKind::Scheme),
                n_authority == count_kind(hs, i as int, PseudoKind::Authority),
                n_path == count_kind(hs, i as int, PseudoKind::Path),
                n_status == count_kind(hs, i as int, PseudoKind::Status),
            decreases self.0@.len() - i,
        {
            let name = self.0[i].name.as_slice();
            assert(name@ == hs[i as int].0);
            proof {
                lemma_count_le(hs, i as int, PseudoKind::Method);
                lemma_count_le(hs, i as int, PseudoKind::Scheme);
                lemma_count_le(hs, i as int, PseudoKind::Authority);
                lemma_count_le(hs, i as int, PseudoKind::Path);
                lemma_count_le(hs, i as int, PseudoKind::Status);
            }
            let pseudo = name.len() > 0 && name[0] == 58u8;
            if pseudo {
                let k = pseudo_kind(name);
                if seen_regular {
                    misordered = true;
                }
                let ok = match place {
                    HeadersPlace::Trailing => false,
                    HeadersPlace::Initial => match rr {
                        RequestOrResponse::Request => match k {
                            PseudoKind::Method | PseudoKind::Scheme | PseudoKind::Authority
                            | PseudoKind::Path => true,
                            _ => false,
                        },
                        RequestOrResponse::Response => k == PseudoKind::Status,
                    },
                };
                if !ok {
                    unexpected = true;
                }
                match k {
                    PseudoKind::Method => { n_method = n_method + 1; },
                    PseudoKind::Scheme => { n_scheme = n_scheme + 1; },
                    PseudoKind::Authority => { n_authority = n_authority + 1; },
                    PseudoKind::Path => { n_path = n_path + 1; },
                    PseudoKind::Status => { n_status = n_status + 1; },
                    PseudoKind::Other => {},
                }
            } else {
                seen_regular = true;
            }
            i = i + 1;
        }
        if misordered {
            Err(HeaderError::PseudoAfterRegular)
        } else if unexpected {
            Err(HeaderError::UnexpectedPseudo)
        } else {
            let counts = match rr {
                RequestOrResponse::Request => n_method == 1 && n_scheme == 1 && n_path == 1
                    && n_authority <= 1,
                RequestOrResponse::Response => n_status == 1,
            };
            if place == HeadersPlace::Initial && !counts {
                Err(HeaderError::PseudoCount)
            } else {
                Ok(())
            }
        }
    }
}

} // verus!
