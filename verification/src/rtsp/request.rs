//! RTSP requests and their bytes on the wire.
use crate::protocol::{AIRPLAY_ACTIVE_REMOTE, AIRPLAY_USER_AGENT};
use crate::text::{dec, push_radix, push_str, str_chars, string_from_chars};
use crate::bytes::put_all;
use vstd::prelude::*;
use vstd::utf8::encode_utf8;

verus! {

#[derive(Debug, Clone, Copy, PartialEq, Eq, Structural)]
pub enum RtspMethod {
    Options,
    Setup,
    Record,
    Flush,
    Teardown,
    SetParameter,
    Post,
    Get,
    SetPeers,
}

/// The method's name on the request line.
pub open spec fn method_name(m: RtspMethod) -> Seq<char> {
    match m {
        RtspMethod::Options => "OPTIONS"@,
        RtspMethod::Setup => "SETUP"@,
        RtspMethod::Record => "RECORD"@,
        RtspMethod::Flush => "FLUSH"@,
        RtspMethod::Teardown => "TEARDOWN"@,
        RtspMethod::SetParameter => "SET_PARAMETER"@,
        RtspMethod::Post => "POST"@,
        RtspMethod::Get => "GET"@,
        RtspMethod::SetPeers => "SETPEERS"@,
    }
}

impl RtspMethod {
    pub fn as_str(&self) -> (r: &'static str)
        ensures
            r@ == method_name(*self),
    {
        match self {
            RtspMethod::Options => "OPTIONS",
            RtspMethod::Setup => "SETUP",
            RtspMethod::Record => "RECORD",
            RtspMethod::Flush => "FLUSH",
            RtspMethod::Teardown => "TEARDOWN",
            RtspMethod::SetParameter => "SET_PARAMETER",
            RtspMethod::Post => "POST",
            RtspMethod::Get => "GET",
            RtspMethod::SetPeers => "SETPEERS",
        }
    }
}

/// `a` sorts strictly before `b`, comparing characters (hence UTF-8 bytes) in order.
pub open spec fn key_lt(a: Seq<char>, b: Seq<char>) -> bool
    decreases a.len(),
{
    if a.len() == 0 {
        b.len() > 0
    } else if b.len() == 0 {
        false
    } else if a[0] != b[0] {
        (a[0] as u32) < (b[0] as u32)
    } else {
        key_lt(a.drop_first(), b.drop_first())
    }
}

/// Headers as (name, value) pairs, strictly ascending by name.
pub open spec fn sorted_keys(h: Seq<(Seq<char>, Seq<char>)>) -> bool {
    forall|i: int, j: int| 0 <= i < j < h.len() ==> key_lt(#[trigger] h[i].0, #[trigger] h[j].0)
}

/// The headers with `k` set to `v`: the value replaced where the name is present, else a
/// new pair in order.
pub open spec fn headers_set(h: Seq<(Seq<char>, Seq<char>)>, k: Seq<char>, v: Seq<char>) -> Seq<(Seq<char>, Seq<char>)>
    decreases h.len(),
{
    if h.len() == 0 {
        seq![(k, v)]
    } else if h[0].0 == k {
        h.update(0, (k, v))
    } else if key_lt(k, h[0].0) {
        seq![(k, v)] + h
    } else {
        seq![h[0]] + headers_set(h.drop_first(), k, v)
    }
}

/// The value under name `k`.
pub open spec fn header_lookup(h: Seq<(Seq<char>, Seq<char>)>, k: Seq<char>) -> Option<Seq<char>>
    decreases h.len(),
{
    if h.len() == 0 {
        None
    } else if h[0].0 == k {
        Some(h[0].1)
    } else {
        header_lookup(h.drop_first(), k)
    }
}

pub struct RtspRequest {
    method: RtspMethod,
    uri: String,
    headers: Vec<(String, String)>,
    body: Option<Vec<u8>>,
}

/// The text of one header line.
pub open spec fn header_line(k: Seq<char>, v: Seq<char>) -> Seq<char> {
    k + ": "@ + v + "\r\n"@
}

/// The header lines in order.
pub open spec fn header_lines(h: Seq<(Seq<char>, Seq<char>)>) -> Seq<char>
    decreases h.len(),
{
    if h.len() == 0 {
        Seq::<char>::empty()
    } else {
        header_line(h[0].0, h[0].1) + header_lines(h.drop_first())
    }
}

/// The text of a request before its body: request line, `CSeq`, `Content-Length` when
/// there is a body, the headers by name, and an empty line.
pub open spec fn request_head(
    m: RtspMethod,
    uri: Seq<char>,
    cseq: u32,
    body_len: Option<nat>,
    h: Seq<(Seq<char>, Seq<char>)>,
) -> Seq<char> {
    method_name(m) + " "@ + uri + " RTSP/1.0\r\n"@ + "CSeq: "@ + dec(cseq as nat) + "\r\n"@ + match body_len {
        Some(n) => "Content-Length: "@ + dec(n) + "\r\n"@,
        None => Seq::<char>::empty(),
    } + header_lines(h) + "\r\n"@
}

/// `s` without its `:` characters.
pub open spec fn without_colons(s: Seq<char>) -> Seq<char>
    decreases s.len(),
{
    if s.len() == 0 {
        s
    } else if s.last() == ':' {
        without_colons(s.drop_last())
    } else {
        without_colons(s.drop_last()).push(s.last())
    }
}

/// The value of an `RTP-Info` header.
pub open spec fn rtp_info(seq: u16, rtptime: u32) -> Seq<char> {
    "seq="@ + dec(seq as nat) + ";rtptime="@ + dec(rtptime as nat)
}

/// Compares two names character by character.
fn key_less(a: &[char], b: &[char]) -> (r: bool)
    ensures
        r == key_lt(a@, b@),
{
    let mut i: usize = 0;
    assert(a@.skip(0) =~= a@);
    assert(b@.skip(0) =~= b@);
    while i < a.len() && i < b.len()
        invariant
            i <= a@.len(),
            i <= b@.len(),
            a@.take(i as int) == b@.take(i as int),
            key_lt(a@, b@) == key_lt(a@.skip(i as int), b@.skip(i as int)),
        decreases a@.len() - i,
    {
        if a[i] != b[i] {
            assert(a@.skip(i as int)[0] == a@[i as int]);
            assert(b@.skip(i as int)[0] == b@[i as int]);
            return (a[i] as u32) < (b[i] as u32);
        }
        assert(a@.skip(i as int).drop_first() =~= a@.skip(i + 1));
        assert(b@.skip(i as int).drop_first() =~= b@.skip(i + 1));
        assert(a@.take(i + 1) =~= a@.take(i as int).push(a@[i as int]));
        assert(b@.take(i + 1) =~= b@.take(i as int).push(b@[i as int]));
        i += 1;
    }
    i >= a.len() && i < b.len()
}

/// `key_lt` is a strict order.
proof fn lemma_key_lt_trans(a: Seq<char>, b: Seq<char>, c: Seq<char>)
    requires
        key_lt(a, b),
        key_lt(b, c),
    ensures
        key_lt(a, c),
    decreases a.len(),
{
    if a.len() > 0 && b.len() > 0 && c.len() > 0 && a[0] == b[0] && b[0] == c[0] {
        lemma_key_lt_trans(a.drop_first(), b.drop_first(), c.drop_first());
    }
}

proof fn lemma_key_lt_irrefl(a: Seq<char>)
    ensures
        !key_lt(a, a),
    decreases a.len(),
{
    if a.len() > 0 {
        lemma_key_lt_irrefl(a.drop_first());
    }
}

proof fn lemma_key_lt_total(a: Seq<char>, b: Seq<char>)
    ensures
        a == b || key_lt(a, b) || key_lt(b, a),
    decreases a.len(),
{
    if a.len() == 0 && b.len() == 0 {
        assert(a =~= b);
    } else if a.len() > 0 && b.len() > 0 && a[0] != b[0] {
        vstd::utf8::char_u32_cast(a[0], a[0] as u32);
        vstd::utf8::char_u32_cast(b[0], b[0] as u32);
    } else if a.len() > 0 && b.len() > 0 && a[0] == b[0] {
        lemma_key_lt_total(a.drop_first(), b.drop_first());
        if a.drop_first() == b.drop_first() {
            assert(a.drop_first().len() == b.drop_first().len());
            assert(a.len() == b.len());
            assert forall|i: int| 0 <= i < a.len() implies a[i] == b[i] by {
                if i > 0 {
                    assert(a[i] == a.drop_first()[i - 1]);
                    assert(b[i] == b.drop_first()[i - 1]);
                }
            }
            assert(a =~= b);
        }
    }
}

/// Setting a header keeps the names in order and makes the lookup of `k` give `v`.
proof fn lemma_headers_set(h: Seq<(Seq<char>, Seq<char>)>, k: Seq<char>, v: Seq<char>)
    requires
        sorted_keys(h),
    ensures
        sorted_keys(headers_set(h, k, v)),
        header_lookup(headers_set(h, k, v), k) == Some(v),
        forall|x: Seq<char>| x != k ==> header_lookup(headers_set(h, k, v), x) == header_lookup(h, x),
        forall|i: int| 0 <= i < headers_set(h, k, v).len() ==> (headers_set(h, k, v)[i].0 == k
            || exists|j: int| 0 <= j < h.len() && h[j].0 == #[trigger] headers_set(h, k, v)[i].0),
    decreases h.len(),
{
    let r = headers_set(h, k, v);
    if h.len() == 0 {
        assert(r.drop_first() =~= Seq::<(Seq<char>, Seq<char>)>::empty());
        assert forall|x: Seq<char>| x != k implies header_lookup(r, x) == header_lookup(h, x) by {
            assert(header_lookup(r.drop_first(), x) is None);
        }
    } else if h[0].0 == k {
        assert(r.drop_first() =~= h.drop_first());
        assert(r[0] == (k, v));
        assert forall|x: Seq<char>| x != k implies header_lookup(r, x) == header_lookup(h, x) by {
            assert(r.drop_first() =~= h.drop_first());
        }
        assert forall|i: int, j: int| 0 <= i < j < r.len() implies key_lt(#[trigger] r[i].0, #[trigger] r[j].0) by {
            assert(r[i].0 == h[i].0);
            assert(r[j].0 == h[j].0);
        }
        assert forall|i: int| 0 <= i < r.len() implies (r[i].0 == k || exists|j: int|
            0 <= j < h.len() && h[j].0 == #[trigger] r[i].0) by {
            if i > 0 {
                assert(h[i].0 == r[i].0);
            }
        }
    } else if key_lt(k, h[0].0) {
        assert(r.drop_first() =~= h);
        assert(r[0] == (k, v));
        assert forall|i: int, j: int| 0 <= i < j < r.len() implies key_lt(#[trigger] r[i].0, #[trigger] r[j].0) by {
            if i == 0 {
                if j > 1 {
                    lemma_key_lt_trans(k, h[0].0, h[j - 1].0);
                }
            } else {
                assert(r[i] == h[i - 1] && r[j] == h[j - 1]);
            }
        }
        assert forall|x: Seq<char>| x != k implies header_lookup(r, x) == header_lookup(h, x) by {
            assert(r.drop_first() =~= h);
        }
        assert forall|i: int| 0 <= i < r.len() implies (r[i].0 == k || exists|j: int|
            0 <= j < h.len() && h[j].0 == #[trigger] r[i].0) by {
            if i > 0 {
                assert(h[i - 1].0 == r[i].0);
            }
        }
    } else {
        let t = h.drop_first();
        assert(sorted_keys(t)) by {
            assert forall|i: int, j: int| 0 <= i < j < t.len() implies key_lt(#[trigger] t[i].0, #[trigger] t[j].0) by {
                assert(t[i] == h[i + 1] && t[j] == h[j + 1]);
            }
        }
        lemma_headers_set(t, k, v);
        let rt = headers_set(t, k, v);
        assert(r =~= seq![h[0]] + rt);
        assert(r.drop_first() =~= rt);
        assert(r[0] == h[0]);
        lemma_key_lt_total(k, h[0].0);
        assert forall|i: int, j: int| 0 <= i < j < r.len() implies key_lt(#[trigger] r[i].0, #[trigger] r[j].0) by {
            if i == 0 {
                let e = rt[j - 1].0;
                assert(r[j] == rt[j - 1]);
                if e == k {
                } else {
                    let jj = choose|jj: int| 0 <= jj < t.len() && t[jj].0 == e;
                    assert(h[jj + 1] == t[jj]);
                }
            } else {
                assert(r[i] == rt[i - 1] && r[j] == rt[j - 1]);
            }
        }
        assert forall|x: Seq<char>| x != k implies header_lookup(r, x) == header_lookup(h, x) by {
            if h[0].0 != x {
                assert(header_lookup(r, x) == header_lookup(rt, x));
                assert(header_lookup(h, x) == header_lookup(t, x));
            }
        }
        assert forall|i: int| 0 <= i < r.len() implies (r[i].0 == k || exists|j: int|
            0 <= j < h.len() && h[j].0 == #[trigger] r[i].0) by {
            if i > 0 {
                assert(r[i] == rt[i - 1]);
                if rt[i - 1].0 != k {
                    let jj = choose|jj: int| 0 <= jj < t.len() && t[jj].0 == rt[i - 1].0;
                    assert(h[jj + 1] == t[jj]);
                }
            } else {
                assert(h[0].0 == r[0].0);
            }
        }
    }
}

/// The header pairs as text.
pub open spec fn pairs_view(v: Seq<(String, String)>) -> Seq<(Seq<char>, Seq<char>)> {
    v.map_values(|p: (String, String)| (p.0@, p.1@))
}

impl RtspRequest {
    #[verifier::type_invariant]
    spec fn headers_sorted(&self) -> bool {
        sorted_keys(pairs_view(self.headers@))
    }

    /// The headers, ascending by name.
    pub closed spec fn headers(&self) -> Seq<(Seq<char>, Seq<char>)> {
        pairs_view(self.headers@)
    }

    pub closed spec fn method_v(&self) -> RtspMethod {
        self.method
    }

    pub closed spec fn uri_v(&self) -> Seq<char> {
        self.uri@
    }

    pub closed spec fn body_v(&self) -> Option<Seq<u8>> {
        match &self.body {
            Some(b) => Some(b@),
            None => None,
        }
    }

    pub fn method(&self) -> (r: RtspMethod)
        ensures
            r == self.method_v(),
    {
        self.method
    }

    pub fn uri(&self) -> (r: &str)
        ensures
            r@ == self.uri_v(),
    {
        self.uri.as_str()
    }

    /// The body, if any.
    pub fn body_bytes(&self) -> (r: Option<&[u8]>)
        ensures
            match r {
                Some(b) => self.body_v() == Some(b@),
                None => self.body_v() is None,
            },
    {
        match &self.body {
            Some(b) => Some(b.as_slice()),
            None => None,
        }
    }

    pub fn new(method: RtspMethod, uri: &str) -> (r: Self)
        ensures
            r.method_v() == method,
            r.uri_v() == uri@,
            r.headers().len() == 0,
            r.body_v() is None,
    {
        let r = Self { method, uri: uri.to_owned(), headers: Vec::new(), body: None };
        assert(pairs_view(r.headers@) =~= Seq::<(Seq<char>, Seq<char>)>::empty());
        r
    }

    /// The request with header `key` set to `value`.
    pub fn header(self, key: &str, value: &str) -> (r: Self)
        ensures
            r.method_v() == self.method_v(),
            r.uri_v() == self.uri_v(),
            r.body_v() == self.body_v(),
            r.headers() == headers_set(self.headers(), key@, value@),
    {
        proof {
            use_type_invariant(&self);
        }
        let kc = str_chars(key);
        let key_s = key.to_owned();
        let ghost hv = pairs_view(self.headers@);
        let RtspRequest { method, uri, headers, body } = self;
        let mut out: Vec<(String, String)> = Vec::new();
        let mut i: usize = 0;
        let mut placed = false;
        assert(hv.skip(0) =~= hv);
        assert(pairs_view(out@) =~= Seq::<(Seq<char>, Seq<char>)>::empty());
        while i < headers.len()
            invariant
                i <= headers@.len(),
                hv == pairs_view(headers@),
                sorted_keys(hv),
                kc@ == key@,
                key_s@ == key@,
                !placed ==> pairs_view(out@) + headers_set(hv.skip(i as int), key@, value@) == headers_set(hv, key@, value@),
                placed ==> pairs_view(out@) + hv.skip(i as int) == headers_set(hv, key@, value@),
            decreases headers@.len() - i,
        {
            let ghost rest = hv.skip(i as int);
            assert(rest.drop_first() =~= hv.skip(i + 1));
            assert(rest[0] == hv[i as int]);
            let (hk, hvalue) = (&headers[i].0, &headers[i].1);
            if placed {
                out.push((hk.clone(), hvalue.clone()));
                assert(pairs_view(out@) =~= pairs_view(out@.drop_last()).push(rest[0]));
                assert(seq![rest[0]] + hv.skip(i + 1) =~= rest);
            } else {
                let hkc = str_chars(hk.as_str());
                if *hk == key_s {
                    out.push((key.to_owned(), value.to_owned()));
                    placed = true;
                    assert(pairs_view(out@) =~= pairs_view(out@.drop_last()).push((key@, value@)));
                    assert(rest[0].0 == key@);
                    assert(headers_set(rest, key@, value@) =~= seq![(key@, value@)] + hv.skip(i + 1));
                } else if key_less(kc.as_slice(), hkc.as_slice()) {
                    out.push((key.to_owned(), value.to_owned()));
                    out.push((hk.clone(), hvalue.clone()));
                    placed = true;
                    assert(pairs_view(out@) =~= pairs_view(out@.drop_last().drop_last()).push((key@, value@)).push(rest[0]));
                    assert(rest[0].0 != key@);
                    assert(headers_set(rest, key@, value@) == seq![(key@, value@)] + rest);
                    assert(seq![(key@, value@)] + rest =~= seq![(key@, value@), rest[0]] + hv.skip(i + 1));
                } else {
                    out.push((hk.clone(), hvalue.clone()));
                    assert(pairs_view(out@) =~= pairs_view(out@.drop_last()).push(rest[0]));
                    assert(headers_set(rest, key@, value@) =~= seq![rest[0]] + headers_set(hv.skip(i + 1), key@, value@));
                }
            }
            i += 1;
        }
        if !placed {
            out.push((key.to_owned(), value.to_owned()));
            assert(hv.skip(i as int) =~= Seq::<(Seq<char>, Seq<char>)>::empty());
            assert(pairs_view(out@) =~= pairs_view(out@.drop_last()).push((key@, value@)));
        } else {
            assert(hv.skip(i as int) =~= Seq::<(Seq<char>, Seq<char>)>::empty());
        }
        assert(pairs_view(out@) =~= headers_set(hv, key@, value@));
        proof {
            lemma_headers_set(hv, key@, value@);
        }
        RtspRequest { method, uri, headers: out, body }
    }

    /// The value of header `key`, if set.
    pub fn header_value(&self, key: &str) -> (r: Option<String>)
        ensures
            match r {
                Some(v) => header_lookup(self.headers(), key@) == Some(v@),
                None => header_lookup(self.headers(), key@) is None,
            },
    {
        let ghost hv = pairs_view(self.headers@);
        let key_s = key.to_owned();
        let mut i: usize = 0;
        assert(hv.skip(0) =~= hv);
        while i < self.headers.len()
            invariant
                i <= self.headers@.len(),
                hv == pairs_view(self.headers@),
                key_s@ == key@,
                header_lookup(hv, key@) == header_lookup(hv.skip(i as int), key@),
            decreases self.headers@.len() - i,
        {
            let ghost rest = hv.skip(i as int);
            assert(rest.drop_first() =~= hv.skip(i + 1));
            assert(rest[0] == hv[i as int]);
            if self.headers[i].0 == key_s {
                return Some(self.headers[i].1.clone());
            }
            i += 1;
        }
        None
    }

    pub fn body(self, body: Vec<u8>) -> (r: Self)
        ensures
            r.method_v() == self.method_v(),
            r.uri_v() == self.uri_v(),
            r.headers() == self.headers(),
            r.body_v() == Some(body@),
    {
        proof {
            use_type_invariant(&self);
        }
        let RtspRequest { method, uri, headers, body: _ } = self;
        RtspRequest { method, uri, headers, body: Some(body) }
    }

    pub fn content_type_bplist(self) -> (r: Self)
        ensures
            r.method_v() == self.method_v(),
            r.uri_v() == self.uri_v(),
            r.body_v() == self.body_v(),
            r.headers() == headers_set(self.headers(), "Content-Type"@, "application/x-apple-binary-plist"@),
    {
        self.header("Content-Type", "application/x-apple-binary-plist")
    }

    /// The bytes of the request under sequence number `cseq`: the UTF-8 head, then the
    /// body.
    pub fn serialize(&self, cseq: u32) -> (r: Vec<u8>)
        ensures
            r@ == encode_utf8(
                request_head(
                    self.method_v(),
                    self.uri_v(),
                    cseq,
                    match self.body_v() {
                        Some(b) => Some(b.len()),
                        None => None,
                    },
                    self.headers(),
                ),
            ) + match self.body_v() {
                Some(b) => b,
                None => Seq::<u8>::empty(),
            },
    {
        let ghost hv = pairs_view(self.headers@);
        let mut t: Vec<char> = Vec::new();
        push_str(&mut t, self.method.as_str());
        push_str(&mut t, " ");
        push_str(&mut t, self.uri.as_str());
        push_str(&mut t, " RTSP/1.0\r\n");
        push_str(&mut t, "CSeq: ");
        push_radix(&mut t, cseq as u128, 10);
        push_str(&mut t, "\r\n");
        match &self.body {
            Some(b) => {
                push_str(&mut t, "Content-Length: ");
                push_radix(&mut t, b.len() as u128, 10);
                push_str(&mut t, "\r\n");
            },
            None => {},
        }
        let ghost before = t@;
        let mut i: usize = 0;
        assert(hv.skip(0) =~= hv);
        while i < self.headers.len()
            invariant
                i <= self.headers@.len(),
                hv == pairs_view(self.headers@),
                t@ + header_lines(hv.skip(i as int)) == before + header_lines(hv),
            decreases self.headers@.len() - i,
        {
            let ghost rest = hv.skip(i as int);
            assert(rest.drop_first() =~= hv.skip(i + 1));
            assert(rest[0] == hv[i as int]);
            let ghost t0 = t@;
            push_str(&mut t, self.headers[i].0.as_str());
            push_str(&mut t, ": ");
            push_str(&mut t, self.headers[i].1.as_str());
            push_str(&mut t, "\r\n");
            assert(t@ =~= t0 + header_line(rest[0].0, rest[0].1));
            i += 1;
        }
        assert(hv.skip(i as int) =~= Seq::<(Seq<char>, Seq<char>)>::empty());
        push_str(&mut t, "\r\n");
        let s = string_from_chars(t.as_slice());
        let mut out: Vec<u8> = Vec::new();
        put_all(&mut out, s.as_str().as_bytes());
        match &self.body {
            Some(b) => put_all(&mut out, b.as_slice()),
            None => {},
        }
        proof {
            let bl = match self.body_v() {
                Some(b) => Some(b.len()),
                None => None,
            };
            assert(t@ =~= request_head(self.method, self.uri@, cseq, bl, hv));
        }
        out
    }

    /// `GET /info`, asking for a binary plist.
    pub fn get_info() -> (r: Self)
        ensures
            r.method_v() == RtspMethod::Get,
            r.uri_v() == "/info"@,
            r.body_v() is None,
            r.headers() == seq![("Content-Type"@, "application/x-apple-binary-plist"@)],
    {
        Self::new(RtspMethod::Get, "/info").content_type_bplist()
    }

    pub fn options() -> (r: Self)
        ensures
            r.method_v() == RtspMethod::Options,
            r.uri_v() == "*"@,
            r.body_v() is None,
            r.headers().len() == 0,
    {
        Self::new(RtspMethod::Options, "*")
    }

    pub fn setup(uri: &str, body: Vec<u8>) -> (r: Self)
        ensures
            r.method_v() == RtspMethod::Setup,
            r.uri_v() == uri@,
            r.body_v() == Some(body@),
            r.headers() == seq![("Content-Type"@, "application/x-apple-binary-plist"@)],
    {
        Self::new(RtspMethod::Setup, uri).content_type_bplist().body(body)
    }

    pub fn record(uri: &str) -> (r: Self)
        ensures
            r.method_v() == RtspMethod::Record,
            r.uri_v() == uri@,
            r.body_v() is None,
            r.headers() == seq![("X-Apple-ProtocolVersion"@, "1"@)],
    {
        Self::new(RtspMethod::Record, uri).header("X-Apple-ProtocolVersion", "1")
    }

    pub fn teardown(uri: &str) -> (r: Self)
        ensures
            r.method_v() == RtspMethod::Teardown,
            r.uri_v() == uri@,
            r.body_v() is None,
            r.headers().len() == 0,
    {
        Self::new(RtspMethod::Teardown, uri)
    }

    pub fn flush_with_info(uri: &str, seq: u16, rtptime: u32) -> (r: Self)
        ensures
            r.method_v() == RtspMethod::Flush,
            r.uri_v() == uri@,
            r.body_v() is None,
            r.headers() == seq![("RTP-Info"@, rtp_info(seq, rtptime))],
    {
        let info = rtp_info_string(seq, rtptime);
        Self::new(RtspMethod::Flush, uri).header("RTP-Info", info.as_str())
    }

    pub fn set_parameter_text(uri: &str, body: Vec<u8>) -> (r: Self)
        ensures
            r.method_v() == RtspMethod::SetParameter,
            r.uri_v() == uri@,
            r.body_v() == Some(body@),
            r.headers() == seq![("Content-Type"@, "text/parameters"@)],
    {
        Self::new(RtspMethod::SetParameter, uri).header("Content-Type", "text/parameters").body(body)
    }

    /// A `SETPEERS` with the peer list as its plist body; the session id is not used.
    pub fn setpeers(_session_id: &str, body: Vec<u8>) -> (r: Self)
        ensures
            r.method_v() == RtspMethod::SetPeers,
            r.uri_v() == "/peer-list-changed"@,
            r.body_v() == Some(body@),
            r.headers() == seq![("Content-Type"@, "application/x-apple-binary-plist"@)],
    {
        Self::new(RtspMethod::SetPeers, "/peer-list-changed").content_type_bplist().body(body)
    }

    pub fn record_with_info(uri: &str, seq: u16, rtptime: u32) -> (r: Self)
        ensures
            r.method_v() == RtspMethod::Record,
            r.uri_v() == uri@,
            r.body_v() is None,
            r.headers() == headers_set(
                headers_set(seq![("X-Apple-ProtocolVersion"@, "1"@)], "Range"@, "npt=0-"@),
                "RTP-Info"@,
                rtp_info(seq, rtptime),
            ),
    {
        let info = rtp_info_string(seq, rtptime);
        Self::new(RtspMethod::Record, uri).header("X-Apple-ProtocolVersion", "1").header(
            "Range",
            "npt=0-",
        ).header("RTP-Info", info.as_str())
    }

    /// `POST /pair-setup` with the pairing headers: device id, HKP flag, the device id
    /// without colons as DACP id, the active-remote token and the user agent.
    pub fn pair_setup(body: Vec<u8>, device_id: &str, hkp: u8) -> (r: Self)
        ensures
            r.method_v() == RtspMethod::Post,
            r.uri_v() == "/pair-setup"@,
            r.body_v() == Some(body@),
            r.headers() == headers_set(
                headers_set(
                    headers_set(
                        headers_set(
                            headers_set(
                                seq![("Content-Type"@, "application/octet-stream"@)],
                                "X-Apple-Device-ID"@,
                                device_id@,
                            ),
                            "X-Apple-HKP"@,
                            dec(hkp as nat),
                        ),
                        "DACP-ID"@,
                        without_colons(device_id@),
                    ),
                    "Active-Remote"@,
                    AIRPLAY_ACTIVE_REMOTE@,
                ),
                "User-Agent"@,
                AIRPLAY_USER_AGENT@,
            ),
    {
        let dacp_id = remove_colons(device_id);
        let mut hk: Vec<char> = Vec::new();
        push_radix(&mut hk, hkp as u128, 10);
        let hkp_s = string_from_chars(hk.as_slice());
        Self::new(RtspMethod::Post, "/pair-setup").header("Content-Type", "application/octet-stream").header(
            "X-Apple-Device-ID",
            device_id,
        ).header("X-Apple-HKP", hkp_s.as_str()).header("DACP-ID", dacp_id.as_str()).header(
            "Active-Remote",
            AIRPLAY_ACTIVE_REMOTE,
        ).header("User-Agent", AIRPLAY_USER_AGENT).body(body)
    }

    /// `POST {uri}/feedback`, asking for a binary plist.
    pub fn feedback(uri: &str) -> (r: Self)
        ensures
            r.method_v() == RtspMethod::Post,
            r.uri_v() == uri@ + "/feedback"@,
            r.body_v() is None,
            r.headers() == seq![("Content-Type"@, "application/x-apple-binary-plist"@)],
    {
        let mut u: Vec<char> = str_chars(uri);
        push_str(&mut u, "/feedback");
        let us = string_from_chars(u.as_slice());
        Self::new(RtspMethod::Post, us.as_str()).content_type_bplist()
    }
}

/// The `RTP-Info` value as a string.
fn rtp_info_string(seq: u16, rtptime: u32) -> (r: String)
    ensures
        r@ == rtp_info(seq, rtptime),
{
    let mut t: Vec<char> = Vec::new();
    push_str(&mut t, "seq=");
    push_radix(&mut t, seq as u128, 10);
    push_str(&mut t, ";rtptime=");
    push_radix(&mut t, rtptime as u128, 10);
    string_from_chars(t.as_slice())
}

/// `s.replace(":", "")`.
pub(crate) fn remove_colons(s: &str) -> (r: String)
    ensures
        r@ == without_colons(s@),
{
    let c = str_chars(s);
    let mut out: Vec<char> = Vec::new();
    let mut i: usize = 0;
    while i < c.len()
        invariant
            i <= c@.len(),
            out@ == without_colons(c@.take(i as int)),
        decreases c@.len() - i,
    {
        assert(c@.take(i + 1).drop_last() =~= c@.take(i as int));
        if c[i] != ':' {
            out.push(c[i]);
        }
        i += 1;
    }
    assert(c@.take(i as int) =~= c@);
    string_from_chars(out.as_slice())
}

} // verus!
