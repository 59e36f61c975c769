//! Parsing RTSP responses.
use crate::base::error::{Error, RtspError};
use crate::text::{
    dec, find_char, find_char_exec, lemma_find_char, parse_unsigned, parse_unsigned_chars, push_all, push_radix,
    push_str, split_chars, split_on, starts_with, str_chars, string_from_chars, sub_chars, trim_chars,
    trimmed, views,
};
use crate::rtsp::request::pairs_view;
use vstd::prelude::*;
use vstd::utf8::{decode_utf8, encode_utf8, valid_utf8};

verus! {

/// Where the first `\r\n\r\n` at or after `i` starts.
pub open spec fn terminator_from(d: Seq<u8>, i: nat) -> Option<nat>
    decreases d.len() - i,
{
    if i + 4 > d.len() {
        None
    } else if d[i as int] == 13 && d[i + 1int] == 10 && d[i + 2int] == 13 && d[i + 3int] == 10 {
        Some(i)
    } else {
        terminator_from(d, i + 1)
    }
}

/// A line without the `\r` that ended it.
pub open spec fn strip_cr(l: Seq<char>) -> Seq<char> {
    if l.len() > 0 && l.last() == '\r' {
        l.drop_last()
    } else {
        l
    }
}

/// `str::lines`: the pieces between `\n`s, each that a `\n` ended without its `\r`, and
/// no empty piece after a final `\n`.
pub open spec fn str_lines(s: Seq<char>) -> Seq<Seq<char>> {
    let p = split_on(s, '\n');
    let n: int = if p.last().len() == 0 {
        p.len() - 1
    } else {
        p.len() as int
    };
    Seq::new(
        n as nat,
        |i: int|
            if i < p.len() - 1 {
                strip_cr(p[i])
            } else {
                p[i]
            },
    )
}

/// `line.splitn(3, ' ')` when it has at least two parts.
pub open spec fn status_parts(line: Seq<char>) -> Option<(Seq<char>, Seq<char>, Seq<char>)> {
    match find_char(line, ' ') {
        None => None,
        Some(i) => {
            let rest = line.skip(i + 1int);
            match find_char(rest, ' ') {
                None => Some((line.take(i as int), rest, Seq::<char>::empty())),
                Some(j) => Some((line.take(i as int), rest.take(j as int), rest.skip(j + 1int))),
            }
        },
    }
}

/// The code and reason of a status line, or the error message.
pub open spec fn status_line_spec(line: Seq<char>) -> Result<(u16, Seq<char>), Seq<char>> {
    match status_parts(line) {
        None => Err("malformed status line: "@ + line),
        Some((p0, p1, p2)) => if !starts_with(p0, "RTSP/"@) {
            Err("not an RTSP response: "@ + p0)
        } else {
            match parse_unsigned(p1, 10, 0xFFFF) {
                None => Err("invalid status code: "@ + p1),
                Some(c) => Ok((c as u16, p2)),
            }
        },
    }
}

/// The first position of name `k`.
pub open spec fn key_index(h: Seq<(Seq<char>, Seq<char>)>, k: Seq<char>) -> Option<nat>
    decreases h.len(),
{
    if h.len() == 0 {
        None
    } else if h[0].0 == k {
        Some(0)
    } else {
        match key_index(h.drop_first(), k) {
            Some(i) => Some(i + 1),
            None => None,
        }
    }
}

/// The value stored under exactly the name `k` (a map lookup).
pub open spec fn exact_lookup(h: Seq<(Seq<char>, Seq<char>)>, k: Seq<char>) -> Option<Seq<char>> {
    match key_index(h, k) {
        Some(i) => Some(h[i as int].1),
        None => None,
    }
}

/// The headers with `k` set to `v`, as a map insertion: the value replaced where the name
/// is present, else the pair added.
pub open spec fn map_insert(h: Seq<(Seq<char>, Seq<char>)>, k: Seq<char>, v: Seq<char>) -> Seq<(Seq<char>, Seq<char>)> {
    match key_index(h, k) {
        Some(i) => h.update(i as int, (k, v)),
        None => h.push((k, v)),
    }
}

/// The name and value of a header line: trimmed text around its first `:`.
pub open spec fn header_pair(line: Seq<char>) -> Option<(Seq<char>, Seq<char>)> {
    match find_char(line, ':') {
        Some(i) => Some((trimmed(line.take(i as int)), trimmed(line.skip(i + 1int)))),
        None => None,
    }
}

/// The headers of the given lines, later ones overwriting earlier ones of the same name.
pub open spec fn headers_of(lines: Seq<Seq<char>>) -> Seq<(Seq<char>, Seq<char>)>
    decreases lines.len(),
{
    if lines.len() == 0 {
        Seq::empty()
    } else {
        let h = headers_of(lines.drop_last());
        match header_pair(lines.last()) {
            Some((k, v)) => map_insert(h, k, v),
            None => h,
        }
    }
}

/// A character folded to lower case if it is an ASCII capital, as a code point.
pub open spec fn ascii_fold(c: char) -> u32 {
    if 'A' <= c && c <= 'Z' {
        ((c as u32) + 32) as u32
    } else {
        c as u32
    }
}

/// `str::eq_ignore_ascii_case`.
pub open spec fn eq_ignore_ascii_case(a: Seq<char>, b: Seq<char>) -> bool {
    a.len() == b.len() && forall|i: int| 0 <= i < a.len() ==> ascii_fold(a[i]) == ascii_fold(b[i])
}

/// The value of the first header whose name equals `name` ignoring ASCII case.
pub open spec fn ci_lookup(h: Seq<(Seq<char>, Seq<char>)>, name: Seq<char>) -> Option<Seq<char>>
    decreases h.len(),
{
    if h.len() == 0 {
        None
    } else if eq_ignore_ascii_case(h[0].0, name) {
        Some(h[0].1)
    } else {
        ci_lookup(h.drop_first(), name)
    }
}

/// The body length that the headers announce; 0 when absent or not a number.
pub open spec fn content_length_spec(h: Seq<(Seq<char>, Seq<char>)>) -> nat {
    match ci_lookup(h, "Content-Length"@) {
        Some(v) => match parse_unsigned(v, 10, usize::MAX as nat) {
            Some(n) => n,
            None => 0,
        },
        None => 0,
    }
}

/// What a parse gives: status code, reason, headers and body.
pub type ParsedHead = (u16, Seq<char>, Seq<(Seq<char>, Seq<char>)>, Option<Seq<u8>>);

/// A response, or the message of the error that it gives.
pub open spec fn response_spec(d: Seq<u8>) -> Result<ParsedHead, Seq<char>> {
    match terminator_from(d, 0) {
        None => Err("missing header terminator"@),
        Some(e) => if !valid_utf8(d.take(e as int)) {
            Err("invalid UTF-8 in headers"@)
        } else {
            let lines = str_lines(decode_utf8(d.take(e as int)));
            if lines.len() == 0 {
                Err("missing status line"@)
            } else {
                match status_line_spec(lines[0]) {
                    Err(m) => Err(m),
                    Ok((code, text)) => {
                        let h = headers_of(lines.drop_first());
                        let bs = e + 4;
                        let cl = content_length_spec(h);
                        if cl > 0 && d.len() >= bs + cl {
                            Ok((code, text, h, Some(d.subrange(bs as int, (bs + cl) as int))))
                        } else if cl > 0 {
                            Err("body too short: expected "@ + dec(cl) + " bytes, got "@ + dec(
                                (d.len() - bs) as nat,
                            ))
                        } else {
                            Ok((code, text, h, None))
                        }
                    },
                }
            }
        },
    }
}

/// `r` is the error `RtspError::InvalidResponse(msg)`.
pub open spec fn is_invalid_response(r: Result<RtspResponse, Error>, msg: Seq<char>) -> bool {
    r matches Err(Error::Rtsp(RtspError::InvalidResponse(m))) && m@ == msg
}

#[derive(Debug)]
pub struct RtspResponse {
    pub status_code: u16,
    pub status_text: String,
    pub headers: Vec<(String, String)>,
    pub body: Option<Vec<u8>>,
}

/// std `str::from_utf8`, the string copied out. Claims: it succeeds exactly on valid
/// UTF-8, and the string's UTF-8 bytes are the input.
#[verifier::external_body]
fn utf8_string(b: &[u8]) -> (r: Option<String>)
    ensures
        r is Some <==> valid_utf8(b@),
        r matches Some(s) ==> encode_utf8(s@) == b@,
{
    std::str::from_utf8(b).ok().map(|s| s.to_owned())
}

/// The error of an invalid response with the given message.
fn invalid(msg: &[char]) -> (e: Error)
    ensures
        e matches Error::Rtsp(RtspError::InvalidResponse(m)) && m@ == msg@,
{
    Error::Rtsp(RtspError::InvalidResponse(string_from_chars(msg)))
}

/// Finds the first `\r\n\r\n`.
fn find_terminator(d: &[u8]) -> (r: Option<usize>)
    ensures
        match r {
            Some(e) => terminator_from(d@, 0) == Some(e as nat) && e + 4 <= d@.len(),
            None => terminator_from(d@, 0) is None,
        },
{
    let mut i: usize = 0;
    while i < d.len() && d.len() - i >= 4
        invariant
            i <= d@.len(),
            terminator_from(d@, 0) == terminator_from(d@, i as nat),
        decreases d@.len() - i,
    {
        if d[i] == 13 && d[i + 1] == 10 && d[i + 2] == 13 && d[i + 3] == 10 {
            return Some(i);
        }
        i += 1;
    }
    None
}

/// The lines of `s`, as `str::lines` gives them.
pub fn lines_of(s: &[char]) -> (r: Vec<Vec<char>>)
    ensures
        views(r@) == str_lines(s@),
{
    let parts = split_chars(s, '\n');
    let ghost p = split_on(s@, '\n');
    proof {
        crate::text::lemma_split_on_nonempty(s@, '\n');
    }
    let np = parts.len();
    let n: usize = if parts[np - 1].len() == 0 {
        np - 1
    } else {
        np
    };
    assert(views(parts@)[np - 1] == parts@[np - 1]@);
    let mut out: Vec<Vec<char>> = Vec::new();
    let mut i: usize = 0;
    while i < n
        invariant
            i <= n <= np == parts@.len(),
            np >= 1,
            p == split_on(s@, '\n'),
            views(parts@) == p,
            p.len() == np,
            n == (if p.last().len() == 0 {
                p.len() - 1
            } else {
                p.len() as int
            }),
            views(out@) == str_lines(s@).take(i as int),
        decreases n - i,
    {
        assert(views(parts@)[i as int] == parts@[i as int]@);
        let part = &parts[i];
        let m = part.len();
        let line: Vec<char> = if i + 1 < np && m > 0 && part[m - 1] == '\r' {
            sub_chars(part.as_slice(), 0, m - 1)
        } else {
            sub_chars(part.as_slice(), 0, m)
        };
        assert(part@.subrange(0, m as int) =~= part@);
        assert(m > 0 ==> part@.subrange(0, m - 1) =~= part@.drop_last());
        let ghost sl = str_lines(s@);
        assert(sl.len() == n);
        assert(sl[i as int] == if (i as int) < p.len() - 1 {
            strip_cr(p[i as int])
        } else {
            p[i as int]
        });
        assert(line@ == sl[i as int]);
        let ghost o = views(out@);
        out.push(line);
        assert(views(out@) =~= o.push(line@));
        assert(str_lines(s@).take(i + 1) =~= str_lines(s@).take(i as int).push(str_lines(s@)[i as int]));
        i += 1;
    }
    assert(str_lines(s@).take(n as int) =~= str_lines(s@));
    out
}

/// The first `' '`-separated parts of a status line, then its code and reason.
fn parse_status_line(line: &[char]) -> (r: Result<(u16, String), Error>)
    ensures
        match status_line_spec(line@) {
            Ok((c, t)) => r matches Ok((c2, t2)) && c2 == c && t2@ == t,
            Err(m) => r matches Err(Error::Rtsp(RtspError::InvalidResponse(m2))) && m2@ == m,
        },
{
    let i = match find_char_exec(line, ' ') {
        Some(i) => i,
        None => {
            let mut m: Vec<char> = Vec::new();
            push_str(&mut m, "malformed status line: ");
            push_all(&mut m, line);
            return Err(invalid(m.as_slice()));
        },
    };
    let len = line.len();
    assert(i < len);
    let p0 = sub_chars(line, 0, i);
    let rest = sub_chars(line, i + 1, len);
    assert(p0@ =~= line@.take(i as int));
    assert(rest@ =~= line@.skip(i + 1));
    let (p1, p2): (Vec<char>, Vec<char>) = match find_char_exec(rest.as_slice(), ' ') {
        Some(j) => {
            let a = sub_chars(rest.as_slice(), 0, j);
            let b = sub_chars(rest.as_slice(), j + 1, rest.len());
            assert(a@ =~= rest@.take(j as int));
            assert(b@ =~= rest@.skip(j + 1));
            (a, b)
        },
        None => (rest, Vec::new()),
    };
    let starts = p0.len() >= 5 && p0[0] == 'R' && p0[1] == 'T' && p0[2] == 'S' && p0[3] == 'P' && p0[4] == '/';
    proof {
        reveal_strlit("RTSP/");
        if starts {
            assert(p0@.take(5) =~= "RTSP/"@);
        }
        if starts_with(p0@, "RTSP/"@) {
            assert(p0@.take(5)[0] == 'R');
            assert(p0@.take(5)[4] == '/');
            assert(p0@[1] == p0@.take(5)[1] && p0@[2] == p0@.take(5)[2] && p0@[3] == p0@.take(5)[3]);
        }
    }
    if !starts {
        let mut m: Vec<char> = Vec::new();
        push_str(&mut m, "not an RTSP response: ");
        push_all(&mut m, p0.as_slice());
        return Err(invalid(m.as_slice()));
    }
    let code = match parse_unsigned_chars(p1.as_slice(), 10, 0xFFFF) {
        Some(c) => c as u16,
        None => {
            let mut m: Vec<char> = Vec::new();
            push_str(&mut m, "invalid status code: ");
            push_all(&mut m, p1.as_slice());
            return Err(invalid(m.as_slice()));
        },
    };
    Ok((code, string_from_chars(p2.as_slice())))
}

/// Sets `k` to `v` in the header list, as a map insertion.
fn headers_insert(h: &mut Vec<(String, String)>, k: String, v: String)
    ensures
        pairs_view(final(h)@) == map_insert(pairs_view(old(h)@), k@, v@),
{
    let ghost hv = pairs_view(h@);
    let mut i: usize = 0;
    assert(hv.skip(0) =~= hv);
    while i < h.len()
        invariant
            i <= h@.len(),
            hv == pairs_view(h@),
            hv == pairs_view(old(h)@),
            key_index(hv, k@) == match key_index(hv.skip(i as int), k@) {
                Some(j) => Some((j + i) as nat),
                None => None,
            },
        decreases h@.len() - i,
    {
        let ghost rest = hv.skip(i as int);
        assert(rest.drop_first() =~= hv.skip(i + 1));
        assert(rest[0] == hv[i as int]);
        if h[i].0 == k {
            assert(hv[i as int].0 == k@);
            assert(key_index(rest, k@) == Some(0nat));
            assert(key_index(hv, k@) == Some(i as nat));
            let ghost old_h = h@;
            h.set(i, (k, v));
            assert(pairs_view(h@) =~= hv.update(i as int, (k@, v@)));
            assert(map_insert(hv, k@, v@) == hv.update(i as int, (k@, v@)));
            return;
        }
        i += 1;
    }
    assert(hv.skip(i as int) =~= Seq::<(Seq<char>, Seq<char>)>::empty());
    let ghost old_h = h@;
    h.push((k, v));
    assert(pairs_view(h@) =~= hv.push((k@, v@)));
}

/// The ASCII-folded code point of a character.
fn ascii_fold_exec(c: char) -> (r: u32)
    ensures
        r == ascii_fold(c),
{
    if 'A' <= c && c <= 'Z' {
        (c as u32) + 32
    } else {
        c as u32
    }
}

/// `a.eq_ignore_ascii_case(b)` on characters.
pub fn eq_ignore_case_chars(a: &[char], b: &[char]) -> (r: bool)
    ensures
        r == eq_ignore_ascii_case(a@, b@),
{
    if a.len() != b.len() {
        return false;
    }
    let mut i: usize = 0;
    while i < a.len()
        invariant
            i <= a@.len() == b@.len(),
            forall|j: int| 0 <= j < i ==> ascii_fold(a@[j]) == ascii_fold(b@[j]),
        decreases a@.len() - i,
    {
        if ascii_fold_exec(a[i]) != ascii_fold_exec(b[i]) {
            return false;
        }
        i += 1;
    }
    true
}

/// The value of the first header whose name equals `name` ignoring ASCII case.
fn ci_find<'a>(h: &'a Vec<(String, String)>, name: &str) -> (r: Option<&'a str>)
    ensures
        match r {
            Some(v) => ci_lookup(pairs_view(h@), name@) == Some(v@),
            None => ci_lookup(pairs_view(h@), name@) is None,
        },
{
    let nc = str_chars(name);
    let ghost hv = pairs_view(h@);
    let mut i: usize = 0;
    assert(hv.skip(0) =~= hv);
    while i < h.len()
        invariant
            i <= h@.len(),
            hv == pairs_view(h@),
            nc@ == name@,
            ci_lookup(hv, name@) == ci_lookup(hv.skip(i as int), name@),
        decreases h@.len() - i,
    {
        let ghost rest = hv.skip(i as int);
        assert(rest.drop_first() =~= hv.skip(i + 1));
        assert(rest[0] == hv[i as int]);
        let kc = str_chars(h[i].0.as_str());
        if eq_ignore_case_chars(kc.as_slice(), nc.as_slice()) {
            return Some(h[i].1.as_str());
        }
        i += 1;
    }
    None
}

impl RtspResponse {
    /// Parses a response: headers up to the first `\r\n\r\n`, valid UTF-8, a status
    /// line `RTSP/... code [reason]`, `name: value` lines (later names overwrite earlier
    /// ones), and exactly `Content-Length` bytes of body when it is positive.
    pub fn parse(data: &[u8]) -> (r: Result<Self, Error>)
        ensures
            match response_spec(data@) {
                Ok((code, text, h, body)) => r matches Ok(resp) && resp.status_code == code
                    && resp.status_text@ == text && pairs_view(resp.headers@) == h && match body {
                    Some(b) => resp.body matches Some(rb) && rb@ == b,
                    None => resp.body is None,
                },
                Err(m) => is_invalid_response(r, m),
            },
    {
        let e = match find_terminator(data) {
            Some(e) => e,
            None => {
                let m = str_chars("missing header terminator");
                return Err(invalid(m.as_slice()));
            },
        };
        let n = data.len();
        assert(e + 4 <= n);
        let bs = e + 4;
        let head = vstd::slice::slice_subrange(data, 0, e);
        assert(head@ =~= data@.take(e as int));
        let text = match utf8_string(head) {
            Some(s) => s,
            None => {
                let m = str_chars("invalid UTF-8 in headers");
                return Err(invalid(m.as_slice()));
            },
        };
        proof {
            vstd::utf8::encode_utf8_decode_utf8(text@);
        }
        let tc = str_chars(text.as_str());
        let lines = lines_of(tc.as_slice());
        if lines.len() == 0 {
            let m = str_chars("missing status line");
            return Err(invalid(m.as_slice()));
        }
        assert(views(lines@)[0] == lines@[0]@);
        let (status_code, status_text) = match parse_status_line(lines[0].as_slice()) {
            Ok(p) => p,
            Err(e) => {
                return Err(e);
            },
        };
        let ghost all = views(lines@);
        let mut headers: Vec<(String, String)> = Vec::new();
        let mut i: usize = 1;
        assert(all.drop_first().take(0) =~= Seq::<Seq<char>>::empty());
        assert(pairs_view(headers@) =~= Seq::<(Seq<char>, Seq<char>)>::empty());
        while i < lines.len()
            invariant
                1 <= i <= lines@.len(),
                all == views(lines@),
                pairs_view(headers@) == headers_of(all.drop_first().take(i - 1)),
            decreases lines@.len() - i,
        {
            assert(all[i as int] == lines@[i as int]@);
            let line = &lines[i];
            let ghost t = all.drop_first().take(i as int);
            assert(t.drop_last() =~= all.drop_first().take(i - 1));
            assert(t.last() == all[i as int]);
            match find_char_exec(line.as_slice(), ':') {
                Some(c) => {
                    let len = line.len();
                    assert(c < len);
                    let k = sub_chars(line.as_slice(), 0, c);
                    let v = sub_chars(line.as_slice(), c + 1, len);
                    assert(k@ =~= line@.take(c as int));
                    assert(v@ =~= line@.skip(c + 1));
                    let kt = trim_chars(k.as_slice());
                    let vt = trim_chars(v.as_slice());
                    headers_insert(&mut headers, string_from_chars(kt.as_slice()), string_from_chars(vt.as_slice()));
                },
                None => {},
            }
            i += 1;
        }
        assert(all.drop_first().take(i - 1) =~= all.drop_first());
        let cl: usize = match ci_find(&headers, "Content-Length") {
            Some(v) => {
                let vc = str_chars(v);
                match parse_unsigned_chars(vc.as_slice(), 10, usize::MAX as u64) {
                    Some(n) => n as usize,
                    None => 0,
                }
            },
            None => 0,
        };
        let body = if cl > 0 && cl <= data.len() - bs {
            let b = crate::crypto::chacha::slice_sub(data, bs, bs + cl);
            Some(b)
        } else if cl > 0 {
            let mut m: Vec<char> = Vec::new();
            push_str(&mut m, "body too short: expected ");
            push_radix(&mut m, cl as u128, 10);
            push_str(&mut m, " bytes, got ");
            push_radix(&mut m, (data.len() - bs) as u128, 10);
            return Err(invalid(m.as_slice()));
        } else {
            None
        };
        Ok(Self { status_code, status_text, headers, body })
    }

    /// The value of the first header whose name equals `name` ignoring ASCII case.
    pub fn header(&self, name: &str) -> (r: Option<&str>)
        ensures
            match r {
                Some(v) => ci_lookup(pairs_view(self.headers@), name@) == Some(v@),
                None => ci_lookup(pairs_view(self.headers@), name@) is None,
            },
    {
        ci_find(&self.headers, name)
    }

    /// The value of the header named exactly `name`.
    pub fn header_exact(&self, name: &str) -> (r: Option<&str>)
        ensures
            match r {
                Some(v) => exact_lookup(pairs_view(self.headers@), name@) == Some(v@),
                None => exact_lookup(pairs_view(self.headers@), name@) is None,
            },
    {
        let k = name.to_owned();
        let ghost hv = pairs_view(self.headers@);
        let mut i: usize = 0;
        assert(hv.skip(0) =~= hv);
        while i < self.headers.len()
            invariant
                i <= self.headers@.len(),
                hv == pairs_view(self.headers@),
                k@ == name@,
                key_index(hv, k@) == match key_index(hv.skip(i as int), k@) {
                    Some(j) => Some((j + i) as nat),
                    None => None,
                },
            decreases self.headers@.len() - i,
        {
            let ghost rest = hv.skip(i as int);
            assert(rest.drop_first() =~= hv.skip(i + 1));
            assert(rest[0] == hv[i as int]);
            if self.headers[i].0 == k {
                assert(hv[i as int].0 == k@);
                assert(key_index(rest, k@) == Some(0nat));
                return Some(self.headers[i].1.as_str());
            }
            i += 1;
        }
        assert(hv.skip(i as int) =~= Seq::<(Seq<char>, Seq<char>)>::empty());
        None
    }

    /// The `CSeq` header as a number, if present and valid.
    pub fn cseq(&self) -> (r: Option<u32>)
        ensures
            r == match ci_lookup(pairs_view(self.headers@), "CSeq"@) {
                Some(v) => match parse_unsigned(v, 10, u32::MAX as nat) {
                    Some(n) => Some(n as u32),
                    None => None,
                },
                None => None,
            },
    {
        match self.header("CSeq") {
            Some(v) => {
                let vc = str_chars(v);
                match parse_unsigned_chars(vc.as_slice(), 10, u32::MAX as u64) {
                    Some(n) => Some(n as u32),
                    None => None,
                }
            },
            None => None,
        }
    }
}

/// The reason phrase of a status line is the whole rest of the line after the second
/// space, spaces included: a line `version code reason` whose version and code hold no
/// space splits into exactly those three parts, and with an `RTSP/` version and a decimal
/// code below 65536 it gives that code and that reason.
pub proof fn law_status_reason_is_remainder(version: Seq<char>, code: Seq<char>, reason: Seq<char>)
    requires
        forall|i: int| 0 <= i < version.len() ==> version[i] != ' ',
        forall|i: int| 0 <= i < code.len() ==> code[i] != ' ',
    ensures
        status_parts(version + seq![' '] + code + seq![' '] + reason) == Some((version, code, reason)),
        starts_with(version, "RTSP/"@) ==> match parse_unsigned(code, 10, 0xFFFF) {
            Some(n) => status_line_spec(version + seq![' '] + code + seq![' '] + reason) == Ok::<
                (u16, Seq<char>),
                Seq<char>,
            >((n as u16, reason)),
            None => status_line_spec(version + seq![' '] + code + seq![' '] + reason) is Err,
        },
{
    let line = version + seq![' '] + code + seq![' '] + reason;
    assert forall|j: int| 0 <= j < version.len() implies line[j] != ' ' by {
        assert(line[j] == version[j]);
    }
    assert(line[version.len() as int] == ' ');
    lemma_find_char(line, ' ', version.len() as int);
    let rest = line.skip(version.len() + 1int);
    assert(rest =~= code + seq![' '] + reason);
    assert forall|j: int| 0 <= j < code.len() implies rest[j] != ' ' by {
        assert(rest[j] == code[j]);
    }
    assert(rest[code.len() as int] == ' ');
    lemma_find_char(rest, ' ', code.len() as int);
    assert(line.take(version.len() as int) =~= version);
    assert(rest.take(code.len() as int) =~= code);
    assert(rest.skip(code.len() + 1int) =~= reason);
}

} // verus!
