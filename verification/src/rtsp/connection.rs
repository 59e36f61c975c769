//! The protocol side of an RTSP connection: sequence numbers, the headers that every
//! request carries, the control-channel cipher, and when a response is complete. The
//! socket stays with the caller.
use crate::base::error::{Error, RtspError};
use crate::base::net::Endpoint;
use crate::crypto::chacha::{block_count, control_frames, ControlCipher};
use crate::rtsp::request::{headers_set, request_head, RtspRequest};
use crate::rtsp::response::{eq_ignore_ascii_case, eq_ignore_case_chars, lines_of, str_lines, terminator_from};
use crate::text::{find_char, find_char_exec, parse_unsigned, parse_unsigned_chars, str_chars, sub_chars, trim_chars, trimmed, views};
use vstd::prelude::*;
use vstd::utf8::{decode_utf8, encode_utf8, valid_utf8};

verus! {

/// What `String::from_utf8_lossy` gives for some bytes: the text, with each invalid
/// sequence replaced by U+FFFD.
pub uninterp spec fn utf8_lossy_of(b: Seq<u8>) -> Seq<char>;

/// `String::from_utf8_lossy(b)`. Claims: the named text, which for valid UTF-8 is the
/// decoded text.
#[verifier::external_body]
fn utf8_lossy(b: &[u8]) -> (r: String)
    ensures
        r@ == utf8_lossy_of(b@),
        valid_utf8(b@) ==> r@ == decode_utf8(b@),
{
    String::from_utf8_lossy(b).into_owned()
}

/// The body length a header line announces: a `Content-Length` name (any ASCII case)
/// before the first `:` and a number after it.
pub open spec fn line_content_length(line: Seq<char>) -> Option<nat> {
    match find_char(line, ':') {
        Some(i) => if eq_ignore_ascii_case(trimmed(line.take(i as int)), "Content-Length"@) {
            parse_unsigned(trimmed(line.skip(i + 1int)), 10, usize::MAX as nat)
        } else {
            None
        },
        None => None,
    }
}

/// The first announced body length among the lines.
pub open spec fn first_content_length(lines: Seq<Seq<char>>) -> Option<nat>
    decreases lines.len(),
{
    if lines.len() == 0 {
        None
    } else {
        match line_content_length(lines[0]) {
            Some(n) => Some(n),
            None => first_content_length(lines.drop_first()),
        }
    }
}

/// The body length announced by a response head (read leniently as UTF-8); 0 if none.
pub open spec fn head_content_length(head: Seq<u8>) -> nat {
    match first_content_length(str_lines(utf8_lossy_of(head))) {
        Some(n) => n,
        None => 0,
    }
}

/// The length of a response whose head ends in `\r\n\r\n` at `e`.
pub open spec fn response_total(d: Seq<u8>, e: nat) -> nat {
    e + 4 + head_content_length(d.take(e as int))
}

/// How much of `d` is one complete response, when it is complete.
pub open spec fn complete_response_len(d: Seq<u8>) -> Option<nat> {
    match terminator_from(d, 0) {
        Some(e) => if d.len() >= response_total(d, e) {
            Some(response_total(d, e))
        } else {
            None
        },
        None => None,
    }
}

/// The inputs on which the end of a response lies past the largest `usize`.
pub open spec fn response_end_overflows(d: Seq<u8>) -> bool {
    match terminator_from(d, 0) {
        Some(e) => response_total(d, e) > usize::MAX,
        None => false,
    }
}

/// The announced body length of a response head.
pub fn content_length_of_head(head: &[u8]) -> (r: usize)
    ensures
        r == head_content_length(head@),
{
    let text = utf8_lossy(head);
    let tc = str_chars(text.as_str());
    let lines = lines_of(tc.as_slice());
    let ghost ls = views(lines@);
    let name = str_chars("Content-Length");
    let mut i: usize = 0;
    assert(ls.skip(0) =~= ls);
    while i < lines.len()
        invariant
            i <= lines@.len(),
            ls == views(lines@),
            ls == str_lines(utf8_lossy_of(head@)),
            name@ == "Content-Length"@,
            first_content_length(ls) == first_content_length(ls.skip(i as int)),
        decreases lines@.len() - i,
    {
        let ghost rest = ls.skip(i as int);
        assert(rest.drop_first() =~= ls.skip(i + 1));
        assert(rest[0] == lines@[i as int]@);
        let line = &lines[i];
        match find_char_exec(line.as_slice(), ':') {
            Some(c) => {
                let len = line.len();
                assert(c < len);
                let k = sub_chars(line.as_slice(), 0, c);
                let v = sub_chars(line.as_slice(), c + 1, len);
                assert(k@ =~= line@.take(c as int));
                assert(v@ =~= line@.skip(c + 1int));
                let kt = trim_chars(k.as_slice());
                if eq_ignore_case_chars(kt.as_slice(), name.as_slice()) {
                    let vt = trim_chars(v.as_slice());
                    match parse_unsigned_chars(vt.as_slice(), 10, usize::MAX as u64) {
                        Some(n) => {
                            return n as usize;
                        },
                        None => {},
                    }
                }
            },
            None => {},
        }
        i += 1;
    }
    0
}

/// Where the first `\r\n\r\n` starts.
fn head_end(d: &[u8]) -> (r: Option<usize>)
    ensures
        match r {
            Some(e) => terminator_from(d@, 0) == Some(e as nat) && e + 4 <= d@.len(),
            None => terminator_from(d@, 0) is None,
        },
{
    let mut i: usize = 0;
    while i < d.len() && d.len() - i >= 4
        invariant
            i <= d@.len(),
            terminator_from(d@, 0) == terminator_from(d@, i as nat),
        decreases d@.len() - i,
    {
        if d[i] == 13 && d[i + 1] == 10 && d[i + 2] == 13 && d[i + 3] == 10 {
            return Some(i);
        }
        i += 1;
    }
    None
}

/// Whether the end of the response that `data` starts lies past the largest `usize`.
pub fn response_length_overflows(data: &[u8]) -> (r: bool)
    ensures
        r == response_end_overflows(data@),
{
    match head_end(data) {
        Some(e) => {
            let head = vstd::slice::slice_subrange(data, 0, e);
            assert(head@ =~= data@.take(e as int));
            let cl = content_length_of_head(head);
            let n = data.len();
            assert(e + 4 <= n);
            cl > usize::MAX - 4 - e
        },
        None => false,
    }
}

/// The length of the complete response at the start of `data`, once it has arrived.
pub fn complete_response_length(data: &[u8]) -> (r: Option<usize>)
    requires
        !response_end_overflows(data@),
    ensures
        match r {
            Some(n) => complete_response_len(data@) == Some(n as nat),
            None => complete_response_len(data@) is None,
        },
{
    match head_end(data) {
        Some(e) => {
            let head = vstd::slice::slice_subrange(data, 0, e);
            assert(head@ =~= data@.take(e as int));
            let cl = content_length_of_head(head);
            let total = e + 4 + cl;
            if data.len() >= total {
                Some(total)
            } else {
                None
            }
        },
        None => None,
    }
}

/// The headers as a request would carry them after adding `extra` in order.
pub open spec fn with_headers(h: Seq<(Seq<char>, Seq<char>)>, extra: Seq<(Seq<char>, Seq<char>)>) -> Seq<(Seq<char>, Seq<char>)>
    decreases extra.len(),
{
    if extra.len() == 0 {
        h
    } else {
        headers_set(with_headers(h, extra.drop_last()), extra.last().0, extra.last().1)
    }
}

/// The plaintext of a request with the session headers, under sequence number `cseq`.
pub open spec fn request_bytes(req: RtspRequest, extra: Seq<(Seq<char>, Seq<char>)>, cseq: u32) -> Seq<u8> {
    encode_utf8(
        request_head(
            req.method_v(),
            req.uri_v(),
            cseq,
            match req.body_v() {
                Some(b) => Some(b.len()),
                None => None,
            },
            with_headers(req.headers(), extra),
        ),
    ) + match req.body_v() {
        Some(b) => b,
        None => Seq::<u8>::empty(),
    }
}

/// One request prepared on a connection: it takes the next sequence number, carries the
/// session headers, and goes out as plain bytes, or as control-channel frames under the
/// cipher's write key and counter when there is a cipher.
pub open spec fn request_prepared(before: RtspConnection, after: RtspConnection, request: RtspRequest, wire: Seq<u8>, n: u32) -> bool {
    &&& after.cseq() == before.cseq() + 1
    &&& n == after.cseq()
    &&& after.addr() == before.addr()
    &&& after.session_headers() == before.session_headers()
    &&& wire == match before.cipher() {
        None => request_bytes(request, before.session_headers(), n),
        Some(c) => control_frames(c.write_key(), c.encrypt_counter() as nat, request_bytes(request, before.session_headers(), n)),
    }
}

/// The requests of a connection, numbered from its creation: the `k`-th request (counted
/// from 0) carries sequence number `k + 1` with the session headers the connection held
/// then, plain or framed under the cipher it held then, whatever else was done to the
/// connection in between, since adding headers or a cipher keeps the count.
pub proof fn law_request_numbering(
    before: Seq<RtspConnection>,
    after: Seq<RtspConnection>,
    requests: Seq<RtspRequest>,
    wires: Seq<Seq<u8>>,
    numbers: Seq<u32>,
)
    requires
        before.len() == after.len() && after.len() == requests.len() && requests.len() == wires.len() && wires.len()
            == numbers.len(),
        before.len() > 0 ==> before[0].cseq() == 0,
        forall|k: int|
            0 <= k < before.len() ==> request_prepared(#[trigger] before[k], after[k], requests[k], wires[k], numbers[k]),
        forall|k: int| 0 <= k < before.len() - 1 ==> #[trigger] before[k + 1].cseq() == after[k].cseq(),
    ensures
        forall|k: int|
            0 <= k < before.len() ==> #[trigger] numbers[k] == k + 1 && wires[k] == match before[k].cipher() {
                None => request_bytes(requests[k], before[k].session_headers(), (k + 1) as u32),
                Some(c) => control_frames(
                    c.write_key(),
                    c.encrypt_counter() as nat,
                    request_bytes(requests[k], before[k].session_headers(), (k + 1) as u32),
                ),
            },
    decreases before.len(),
{
    let n = before.len() as int;
    if n > 0 {
        let b2 = before.take(n - 1);
        let a2 = after.take(n - 1);
        let r2 = requests.take(n - 1);
        let w2 = wires.take(n - 1);
        let n2 = numbers.take(n - 1);
        assert forall|k: int| 0 <= k < b2.len() implies request_prepared(#[trigger] b2[k], a2[k], r2[k], w2[k], n2[k]) by {
            assert(b2[k] == before[k] && a2[k] == after[k] && r2[k] == requests[k] && w2[k] == wires[k] && n2[k] == numbers[k]);
        }
        assert forall|k: int| 0 <= k < b2.len() - 1 implies #[trigger] b2[k + 1].cseq() == a2[k].cseq() by {
            assert(b2[k + 1] == before[k + 1] && a2[k] == after[k]);
        }
        law_request_numbering(b2, a2, r2, w2, n2);
        assert forall|k: int| 0 <= k < n implies #[trigger] numbers[k] == k + 1 && wires[k] == match before[k].cipher() {
            None => request_bytes(requests[k], before[k].session_headers(), (k + 1) as u32),
            Some(c) => control_frames(
                c.write_key(),
                c.encrypt_counter() as nat,
                request_bytes(requests[k], before[k].session_headers(), (k + 1) as u32),
            ),
        } by {
            if k < n - 1 {
                assert(n2[k] == numbers[k] && w2[k] == wires[k] && b2[k] == before[k] && r2[k] == requests[k]);
            } else if k > 0 {
                let j = k - 1;
                assert(before[j + 1].cseq() == after[j].cseq());
                assert(n2[j] == numbers[j]);
                assert(request_prepared(before[j], after[j], requests[j], wires[j], numbers[j]));
            }
            assert(request_prepared(before[k], after[k], requests[k], wires[k], numbers[k]));
        }
    }
}

pub struct RtspConnection {
    addr: Endpoint,
    cseq: u32,
    cipher: Option<ControlCipher>,
    session_headers: Vec<(String, String)>,
}

impl RtspConnection {
    pub closed spec fn addr(&self) -> Endpoint {
        self.addr
    }

    pub closed spec fn cseq(&self) -> u32 {
        self.cseq
    }

    pub closed spec fn cipher(&self) -> Option<ControlCipher> {
        self.cipher
    }

    /// The headers every request carries, in the order they were added.
    pub closed spec fn session_headers(&self) -> Seq<(Seq<char>, Seq<char>)> {
        crate::rtsp::request::pairs_view(self.session_headers@)
    }

    pub fn new(addr: Endpoint) -> (r: Self)
        ensures
            r.addr() == addr,
            r.cseq() == 0,
            r.cipher() is None,
            r.session_headers().len() == 0,
    {
        let r = Self { addr, cseq: 0, cipher: None, session_headers: Vec::new() };
        assert(r.session_headers() =~= Seq::<(Seq<char>, Seq<char>)>::empty());
        r
    }

    pub fn set_cipher(&mut self, cipher: ControlCipher)
        ensures
            final(self).cipher() == Some(cipher),
            final(self).cseq() == old(self).cseq(),
            final(self).addr() == old(self).addr(),
            final(self).session_headers() == old(self).session_headers(),
    {
        self.cipher = Some(cipher);
    }

    /// A header that every later request carries.
    pub fn add_session_header(&mut self, key: &str, value: &str)
        ensures
            final(self).session_headers() == old(self).session_headers().push((key@, value@)),
            final(self).cseq() == old(self).cseq(),
            final(self).cipher() == old(self).cipher(),
            final(self).addr() == old(self).addr(),
    {
        let ghost h = self.session_headers();
        self.session_headers.push((key.to_owned(), value.to_owned()));
        assert(self.session_headers() =~= h.push((key@, value@)));
    }

    fn next_cseq(&mut self) -> (r: u32)
        requires
            old(self).cseq() < u32::MAX,
        ensures
            r == old(self).cseq() + 1,
            final(self).cseq() == r,
            final(self).cipher() == old(self).cipher(),
            final(self).addr() == old(self).addr(),
            final(self).session_headers() == old(self).session_headers(),
    {
        self.cseq = self.cseq + 1;
        self.cseq
    }

    /// The bytes to send for `request`: the session headers added, the next sequence
    /// number, and, with a cipher, the control-channel frames of the plaintext.
    pub fn prepare_request(&mut self, request: RtspRequest) -> (r: Result<(Vec<u8>, u32), Error>)
        requires
            old(self).cseq() < u32::MAX,
            old(self).cipher() matches Some(c) ==> c.encrypt_counter() + block_count(
                request_bytes(request, old(self).session_headers(), (old(self).cseq() + 1) as u32).len(),
            ) <= u64::MAX,
        ensures
            final(self).cseq() == old(self).cseq() + 1,
            final(self).addr() == old(self).addr(),
            final(self).session_headers() == old(self).session_headers(),
            match old(self).cipher() {
                None => r matches Ok((w, n)) && n == final(self).cseq() && w@ == request_bytes(
                    request,
                    old(self).session_headers(),
                    n,
                ) && final(self).cipher() is None,
                Some(c) => r matches Ok((w, n)) && n == final(self).cseq() && w@ == control_frames(
                    c.write_key(),
                    c.encrypt_counter() as nat,
                    request_bytes(request, old(self).session_headers(), n),
                ) && (final(self).cipher() matches Some(c2) && c2.write_key() == c.write_key()
                    && c2.read_key() == c.read_key() && c2.decrypt_counter() == c.decrypt_counter()
                    && c2.encrypt_counter() == c.encrypt_counter() + block_count(
                    request_bytes(request, old(self).session_headers(), n).len(),
                )),
            },
            r matches Ok((w, n)) && request_prepared(*old(self), *final(self), request, w@, n),
    {
        let ghost extra = self.session_headers();
        let mut req = request;
        let mut i: usize = 0;
        while i < self.session_headers.len()
            invariant
                i <= self.session_headers@.len(),
                extra == crate::rtsp::request::pairs_view(self.session_headers@),
                req.method_v() == request.method_v(),
                req.uri_v() == request.uri_v(),
                req.body_v() == request.body_v(),
                req.headers() == with_headers(request.headers(), extra.take(i as int)),
            decreases self.session_headers@.len() - i,
        {
            assert(extra.take(i + 1).drop_last() =~= extra.take(i as int));
            assert(extra.take(i + 1).last() == extra[i as int]);
            req = req.header(self.session_headers[i].0.as_str(), self.session_headers[i].1.as_str());
            i += 1;
        }
        assert(extra.take(i as int) =~= extra);
        let cseq = self.next_cseq();
        let request_data = req.serialize(cseq);
        assert(request_data@ == request_bytes(request, extra, cseq));
        match &mut self.cipher {
            Some(cipher) => {
                proof {
                    vstd::utf8::encode_utf8_first_scalar(
                        request_head(req.method_v(), req.uri_v(), cseq, match req.body_v() {
                            Some(b) => Some(b.len()),
                            None => None,
                        }, req.headers()),
                    );
                }
                let wire = match cipher.encrypt(request_data.as_slice()) {
                    Ok(w) => w,
                    Err(e) => {
                        return Err(Error::Crypto(e));
                    },
                };
                Ok((wire, cseq))
            },
            None => Ok((request_data, cseq)),
        }
    }

    /// Opens one received control-channel block (see `ControlCipher::decrypt_block`).
    pub fn decrypt_block(&mut self, ciphertext_with_tag: &[u8], block_len: u16) -> (r: Result<Vec<u8>, Error>)
        requires
            old(self).cipher() matches Some(c) ==> c.decrypt_counter() < u64::MAX,
        ensures
            final(self).cseq() == old(self).cseq(),
            final(self).session_headers() == old(self).session_headers(),
            old(self).cipher() is None ==> (r matches Err(Error::Rtsp(RtspError::InvalidResponse(m))) && m@
                == "Missing cipher"@),
    {
        match &mut self.cipher {
            Some(c) => match c.decrypt_block(ciphertext_with_tag, block_len) {
                Ok(p) => Ok(p),
                Err(e) => Err(Error::Crypto(e)),
            },
            None => Err(Error::Rtsp(RtspError::InvalidResponse("Missing cipher".to_owned()))),
        }
    }
}

} // verus!
