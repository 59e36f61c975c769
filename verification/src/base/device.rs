//! Device identity and version numbers.
use crate::base::error::{ParseError, ParseErrorV};
use crate::text::{dec, find_char, find_char_exec, hex2, lemma_digit_roundtrip, lemma_digits_plain, lemma_parse_radix_digits, lemma_radix_digits_value, lemma_split_append, lemma_split_no_sep, lemma_trim_noop, parse_unsigned, parse_unsigned_chars, push_all, push_hex2, push_radix, push_str, split_chars, split_on, str_chars, string_from_chars, sub_chars, trim_chars, trimmed, utf8_len, utf8_len_exec, utf8_total, utf8_total_exec, views, all_digits, digits_value, is_ws, strip_plus};
use crate::base::features::{auth_method_of, has_bit, AuthMethod, Features};
use crate::base::net::{first_v4, is_v4, lemma_first_v4, Endpoint, IpAddress};
use vstd::prelude::*;

verus! {

#[derive(Debug, Clone, PartialEq, Eq, Hash)]
#[non_exhaustive]
pub struct DeviceId(pub [u8; 6]);

#[derive(Debug, Clone, Copy, PartialEq, Eq, PartialOrd, Ord, Default, Hash)]
#[non_exhaustive]
pub struct Version {
    pub major: u32,
    pub minor: u32,
    pub patch: u32,
}

/// A byte written in hexadecimal: `from_str_radix(p, 16)` into a `u8`.
pub open spec fn spec_parse_byte(p: Seq<char>) -> Result<u8, ParseErrorV> {
    match parse_unsigned(p, 16, 255) {
        Some(v) => Ok(v as u8),
        None => Err(ParseErrorV::InvalidHex(p)),
    }
}

/// Each part parsed as a hexadecimal byte; the first part that fails gives the error.
pub open spec fn spec_parse_parts(parts: Seq<Seq<char>>) -> Result<Seq<u8>, ParseErrorV>
    decreases parts.len(),
{
    if parts.len() == 0 {
        Ok(Seq::<u8>::empty())
    } else {
        match spec_parse_parts(parts.drop_last()) {
            Err(e) => Err(e),
            Ok(bs) => match spec_parse_byte(parts.last()) {
                Err(e) => Err(e),
                Ok(b) => Ok(bs.push(b)),
            },
        }
    }
}

/// The characters that make up the next two bytes of `t`: one character of two bytes,
/// or two one-byte characters.
pub open spec fn pair_len(t: Seq<char>) -> int {
    if utf8_len(t[0]) == 2 {
        1
    } else {
        2
    }
}

/// `n` consecutive two-byte slices of `t`, each parsed as a hexadecimal byte.
pub open spec fn spec_hex_pairs(t: Seq<char>, n: nat) -> Result<Seq<u8>, ParseErrorV>
    decreases n,
{
    if n == 0 {
        Ok(Seq::<u8>::empty())
    } else {
        match spec_parse_byte(t.take(pair_len(t))) {
            Err(e) => Err(e),
            Ok(b) => match spec_hex_pairs(t.skip(pair_len(t)), (n - 1) as nat) {
                Err(e) => Err(e),
                Ok(bs) => Ok(seq![b] + bs),
            },
        }
    }
}

/// Slicing `t` into two-byte pieces, up to the first piece that is not a hexadecimal
/// byte, stays on character boundaries.
pub open spec fn hex_pairs_no_panic(t: Seq<char>, n: nat) -> bool
    decreases n,
{
    n == 0 || (t.len() > 0 && (utf8_len(t[0]) == 2 || (utf8_len(t[0]) == 1 && t.len() >= 2
        && utf8_len(t[1]) == 1 && (spec_parse_byte(t.take(2)) is Err || hex_pairs_no_panic(
        t.skip(2),
        (n - 1) as nat,
    )))))
}

fn parse_byte(p: &[char]) -> (r: Result<u8, ParseError>)
    ensures
        match r {
            Ok(b) => spec_parse_byte(p@) == Ok::<u8, ParseErrorV>(b),
            Err(e) => spec_parse_byte(p@) == Err::<u8, ParseErrorV>(e@),
        },
{
    match parse_unsigned_chars(p, 16, 255) {
        Some(v) => Ok(v as u8),
        None => Err(ParseError::InvalidHex(string_from_chars(p))),
    }
}

/// Parses `n` two-byte hexadecimal slices of `t[k..]`.
pub fn parse_hex_pairs(t: &[char], k: usize, n: usize) -> (r: Result<Vec<u8>, ParseError>)
    requires
        k <= t@.len(),
        hex_pairs_no_panic(t@.skip(k as int), n as nat),
    ensures
        match r {
            Ok(bs) => spec_hex_pairs(t@.skip(k as int), n as nat) == Ok::<Seq<u8>, ParseErrorV>(
                bs@,
            ),
            Err(e) => spec_hex_pairs(t@.skip(k as int), n as nat) == Err::<Seq<u8>, ParseErrorV>(
                e@,
            ),
        },
    decreases n,
{
    let ghost u = t@.skip(k as int);
    if n == 0 {
        return Ok(Vec::new());
    }
    let step: usize = if utf8_len_exec(t[k]) == 2 {
        1
    } else {
        2
    };
    assert(u[0] == t@[k as int]);
    assert(step == pair_len(u));
    let pair = sub_chars(t, k, k + step);
    assert(pair@ =~= u.take(step as int));
    let b = parse_byte(&pair)?;
    assert(t@.skip(k + step) =~= u.skip(step as int));
    let mut rest = parse_hex_pairs(t, k + step, n - 1)?;
    let ghost rv = rest@;
    rest.insert(0, b);
    assert(rest@ =~= seq![b] + rv);
    Ok(rest)
}

fn parse_byte_parts(parts: &Vec<Vec<char>>) -> (r: Result<Vec<u8>, ParseError>)
    ensures
        match r {
            Ok(bs) => spec_parse_parts(views(parts@)) == Ok::<Seq<u8>, ParseErrorV>(bs@),
            Err(e) => spec_parse_parts(views(parts@)) == Err::<Seq<u8>, ParseErrorV>(e@),
        },
{
    let mut bs: Vec<u8> = Vec::new();
    let mut i: usize = 0;
    assert(views(parts@).take(0) =~= Seq::<Seq<char>>::empty());
    while i < parts.len()
        invariant
            i <= parts@.len(),
            spec_parse_parts(views(parts@).take(i as int)) == Ok::<Seq<u8>, ParseErrorV>(bs@),
        decreases parts@.len() - i,
    {
        let ghost vs = views(parts@);
        assert(vs.take(i + 1).drop_last() =~= vs.take(i as int));
        assert(vs.take(i + 1).last() == parts@[i as int]@);
        match parse_byte(&parts[i]) {
            Ok(b) => {
                bs.push(b);
            },
            Err(e) => {
                proof {
                    lemma_parse_parts_err(vs, i as int + 1);
                }
                return Err(e);
            },
        }
        i += 1;
    }
    assert(views(parts@).take(i as int) =~= views(parts@));
    Ok(bs)
}

proof fn lemma_parse_parts_err(parts: Seq<Seq<char>>, k: int)
    requires
        0 <= k <= parts.len(),
        spec_parse_parts(parts.take(k)) is Err,
    ensures
        spec_parse_parts(parts) == spec_parse_parts(parts.take(k)),
    decreases parts.len() - k,
{
    if k < parts.len() {
        assert(parts.take(k + 1).drop_last() =~= parts.take(k));
        lemma_parse_parts_err(parts, k + 1);
    } else {
        assert(parts.take(k) =~= parts);
    }
}

/// What parsing a list of parts as a MAC address gives: six hexadecimal bytes.
pub open spec fn spec_mac_parts(parts: Seq<Seq<char>>) -> Result<Seq<u8>, ParseErrorV> {
    match spec_parse_parts(parts) {
        Err(e) => Err(e),
        Ok(bs) => if bs.len() != 6 {
            Err(ParseErrorV::InvalidFormat("MAC address must have 6 bytes, got "@ + dec(bs.len())))
        } else {
            Ok(bs)
        },
    }
}

/// `DeviceId::from_mac_string`: trimmed, then split at `:` if it holds one, else at `-`
/// if it holds one, else read as twelve bytes of hexadecimal pairs.
pub open spec fn spec_mac(s: Seq<char>) -> Result<Seq<u8>, ParseErrorV> {
    let t = trimmed(s);
    if find_char(t, ':') is Some {
        spec_mac_parts(split_on(t, ':'))
    } else if find_char(t, '-') is Some {
        spec_mac_parts(split_on(t, '-'))
    } else if utf8_total(t) != 12 {
        Err(
            ParseErrorV::InvalidFormat(
                "MAC address must be 12 hex characters, got "@ + dec(utf8_total(t)),
            ),
        )
    } else {
        spec_hex_pairs(t, 6)
    }
}

/// The inputs on which reading a MAC address stays on character boundaries.
pub open spec fn mac_no_panic(s: Seq<char>) -> bool {
    let t = trimmed(s);
    find_char(t, ':') is Some || find_char(t, '-') is Some || utf8_total(t) != 12
        || hex_pairs_no_panic(t, 6)
}

/// `AA:BB:CC:DD:EE:FF` in upper-case hexadecimal.
pub open spec fn spec_mac_string(b: Seq<u8>) -> Seq<char> {
    hex2(b[0]) + seq![':'] + hex2(b[1]) + seq![':'] + hex2(b[2]) + seq![':'] + hex2(b[3])
        + seq![':'] + hex2(b[4]) + seq![':'] + hex2(b[5])
}

fn mac_from_parts(parts: &Vec<Vec<char>>) -> (r: Result<DeviceId, ParseError>)
    ensures
        match r {
            Ok(id) => spec_mac_parts(views(parts@)) == Ok::<Seq<u8>, ParseErrorV>(id.0@),
            Err(e) => spec_mac_parts(views(parts@)) == Err::<Seq<u8>, ParseErrorV>(e@),
        },
{
    let bytes = parse_byte_parts(parts)?;
    if bytes.len() != 6 {
        let mut m: Vec<char> = Vec::new();
        push_str(&mut m, "MAC address must have 6 bytes, got ");
        push_radix(&mut m, bytes.len() as u128, 10);
        return Err(ParseError::InvalidFormat(string_from_chars(&m)));
    }
    let arr: [u8; 6] = [bytes[0], bytes[1], bytes[2], bytes[3], bytes[4], bytes[5]];
    assert(arr@ =~= bytes@);
    Ok(DeviceId(arr))
}

impl DeviceId {
    pub fn from_bytes(bytes: [u8; 6]) -> (r: Self)
        ensures
            r.0 == bytes,
    {
        Self(bytes)
    }

    pub fn as_bytes(&self) -> (r: &[u8; 6])
        ensures
            *r == self.0,
    {
        &self.0
    }

    /// Parses `AA:BB:CC:DD:EE:FF`, `AA-BB-CC-DD-EE-FF` or `AABBCCDDEEFF`.
    pub fn from_mac_string(s: &str) -> (r: Result<Self, ParseError>)
        requires
            mac_no_panic(s@),
        ensures
            match r {
                Ok(id) => spec_mac(s@) == Ok::<Seq<u8>, ParseErrorV>(id.0@),
                Err(e) => spec_mac(s@) == Err::<Seq<u8>, ParseErrorV>(e@),
            },
    {
        let cs = str_chars(s);
        let t = trim_chars(&cs);
        if find_char_exec(&t, ':').is_some() {
            let parts = split_chars(&t, ':');
            return mac_from_parts(&parts);
        }
        if find_char_exec(&t, '-').is_some() {
            let parts = split_chars(&t, '-');
            return mac_from_parts(&parts);
        }
        let n = utf8_total_exec(&t);
        if n != 12 {
            let mut m: Vec<char> = Vec::new();
            push_str(&mut m, "MAC address must be 12 hex characters, got ");
            push_radix(&mut m, n, 10);
            return Err(ParseError::InvalidFormat(string_from_chars(&m)));
        }
        assert(t@.skip(0) =~= t@);
        let bytes = parse_hex_pairs(&t, 0, 6)?;
        proof {
            lemma_hex_pairs_len(t@, 6);
        }
        let arr: [u8; 6] = [bytes[0], bytes[1], bytes[2], bytes[3], bytes[4], bytes[5]];
        assert(arr@ =~= bytes@);
        Ok(DeviceId(arr))
    }

    /// `AA:BB:CC:DD:EE:FF` in upper-case hexadecimal.
    pub fn to_mac_string(&self) -> (r: String)
        ensures
            r@ == spec_mac_string(self.0@),
    {
        let mut m: Vec<char> = Vec::new();
        push_hex2(&mut m, self.0[0]);
        m.push(':');
        push_hex2(&mut m, self.0[1]);
        m.push(':');
        push_hex2(&mut m, self.0[2]);
        m.push(':');
        push_hex2(&mut m, self.0[3]);
        m.push(':');
        push_hex2(&mut m, self.0[4]);
        m.push(':');
        push_hex2(&mut m, self.0[5]);
        assert(m@ =~= spec_mac_string(self.0@));
        string_from_chars(&m)
    }
}

pub proof fn lemma_hex_pairs_len(t: Seq<char>, n: nat)
    ensures
        spec_hex_pairs(t, n) matches Ok(bs) ==> bs.len() == n,
    decreases n,
{
    if n > 0 {
        lemma_hex_pairs_len(t.skip(pair_len(t)), (n - 1) as nat);
    }
}

proof fn lemma_hex2_parse(b: u8)
    ensures
        spec_parse_byte(hex2(b)) == Ok::<u8, ParseErrorV>(b),
        forall|i: int| 0 <= i < 2 ==> !is_ws(#[trigger] hex2(b)[i]) && hex2(b)[i] != ':'
            && hex2(b)[i] != '-',
{
    let h = hex2(b);
    lemma_digit_roundtrip((b / 16) as nat, 16);
    lemma_digit_roundtrip((b % 16) as nat, 16);
    assert(h.drop_last() =~= seq![h[0]]);
    assert(seq![h[0]].drop_last() =~= Seq::<char>::empty());
    assert(digits_value(Seq::<char>::empty(), 16) == 0);
    assert(digits_value(seq![h[0]], 16) == 0 * 16 + (b / 16));
    assert(h.last() == h[1]);
    assert(digits_value(h, 16) == (b / 16) * 16 + b % 16);
    assert(all_digits(h, 16));
    lemma_digits_plain(h, 16);
    assert(strip_plus(h) == h);
}

proof fn lemma_mac_text(b: Seq<u8>)
    requires
        b.len() == 6,
    ensures
        trimmed(spec_mac_string(b)) == spec_mac_string(b),
        find_char(spec_mac_string(b), ':') is Some,
        split_on(spec_mac_string(b), ':') == seq![hex2(b[0]), hex2(b[1]), hex2(b[2]), hex2(b[3]), hex2(b[4]), hex2(b[5])],
{
    let s = spec_mac_string(b);
    lemma_hex2_parse(b[0]);
    lemma_hex2_parse(b[1]);
    lemma_hex2_parse(b[2]);
    lemma_hex2_parse(b[3]);
    lemma_hex2_parse(b[4]);
    lemma_hex2_parse(b[5]);
    assert(s[0] == hex2(b[0])[0]);
    assert(s.last() == hex2(b[5])[1]);
    lemma_trim_noop(s);
    assert(s[2] == ':');
    lemma_find_colon(s);
    let p0 = hex2(b[0]);
    let p1 = p0.push(':') + hex2(b[1]);
    let p2 = p1.push(':') + hex2(b[2]);
    let p3 = p2.push(':') + hex2(b[3]);
    let p4 = p3.push(':') + hex2(b[4]);
    let p5 = p4.push(':') + hex2(b[5]);
    assert(p5 =~= s);
    lemma_split_no_sep(p0, ':');
    lemma_split_append(p0, ':', hex2(b[1]));
    lemma_split_append(p1, ':', hex2(b[2]));
    lemma_split_append(p2, ':', hex2(b[3]));
    lemma_split_append(p3, ':', hex2(b[4]));
    lemma_split_append(p4, ':', hex2(b[5]));
    assert(split_on(s, ':') =~= seq![hex2(b[0]), hex2(b[1]), hex2(b[2]), hex2(b[3]), hex2(b[4]), hex2(b[5])]);
}

proof fn lemma_mac_parts(b: Seq<u8>)
    requires
        b.len() == 6,
    ensures
        spec_parse_parts(seq![hex2(b[0]), hex2(b[1]), hex2(b[2]), hex2(b[3]), hex2(b[4]), hex2(b[5])]) == Ok::<Seq<u8>, ParseErrorV>(b),
{
    lemma_hex2_parse(b[0]);
    lemma_hex2_parse(b[1]);
    lemma_hex2_parse(b[2]);
    lemma_hex2_parse(b[3]);
    lemma_hex2_parse(b[4]);
    lemma_hex2_parse(b[5]);
    let parts = seq![hex2(b[0]), hex2(b[1]), hex2(b[2]), hex2(b[3]), hex2(b[4]), hex2(b[5])];
    let q0 = Seq::<Seq<char>>::empty();
    let q1 = q0.push(hex2(b[0]));
    let q2 = q1.push(hex2(b[1]));
    let q3 = q2.push(hex2(b[2]));
    let q4 = q3.push(hex2(b[3]));
    let q5 = q4.push(hex2(b[4]));
    let q6 = q5.push(hex2(b[5]));
    assert(q1.drop_last() =~= q0);
    assert(q2.drop_last() =~= q1);
    assert(q3.drop_last() =~= q2);
    assert(q4.drop_last() =~= q3);
    assert(q5.drop_last() =~= q4);
    assert(q6.drop_last() =~= q5);
    let r0 = Seq::<u8>::empty();
    assert(spec_parse_parts(q0) == Ok::<Seq<u8>, ParseErrorV>(r0));
    assert(spec_parse_parts(q1) == Ok::<Seq<u8>, ParseErrorV>(r0.push(b[0])));
    assert(spec_parse_parts(q2) == Ok::<Seq<u8>, ParseErrorV>(r0.push(b[0]).push(b[1])));
    assert(spec_parse_parts(q3) == Ok::<Seq<u8>, ParseErrorV>(
        r0.push(b[0]).push(b[1]).push(b[2]),
    ));
    assert(spec_parse_parts(q4) == Ok::<Seq<u8>, ParseErrorV>(
        r0.push(b[0]).push(b[1]).push(b[2]).push(b[3]),
    ));
    assert(spec_parse_parts(q5) == Ok::<Seq<u8>, ParseErrorV>(
        r0.push(b[0]).push(b[1]).push(b[2]).push(b[3]).push(b[4]),
    ));
    assert(spec_parse_parts(q6) == Ok::<Seq<u8>, ParseErrorV>(
        r0.push(b[0]).push(b[1]).push(b[2]).push(b[3]).push(b[4]).push(b[5]),
    ));
    assert(q6 =~= parts);
    assert(r0.push(b[0]).push(b[1]).push(b[2]).push(b[3]).push(b[4]).push(b[5]) =~= b);

}

/// Reading the MAC string of an identifier back gives the identifier.
pub proof fn law_mac_roundtrip(id: DeviceId)
    ensures
        mac_no_panic(spec_mac_string(id.0@)),
        spec_mac(spec_mac_string(id.0@)) == Ok::<Seq<u8>, ParseErrorV>(id.0@),
{
    lemma_mac_text(id.0@);
    lemma_mac_parts(id.0@);
}

proof fn lemma_find_colon(s: Seq<char>)
    requires
        s.len() > 2,
        s[2] == ':',
        s[0] != ':',
        s[1] != ':',
    ensures
        find_char(s, ':') is Some,
{
    lemma_find_char_some(s, ':', 2);
}

/// A `c` at `i` means `find_char` finds one.
pub proof fn lemma_find_char_some(s: Seq<char>, c: char, i: int)
    requires
        0 <= i < s.len(),
        s[i] == c,
    ensures
        find_char(s, c) is Some,
    decreases i,
{
    if s[0] != c {
        lemma_find_char_some(s.drop_first(), c, i - 1);
    }
}

/// One numeric part of a version: `str::parse::<u32>`, or `InvalidValue(prefix + part)`.
pub open spec fn spec_version_part(p: Seq<char>, prefix: Seq<char>) -> Result<u32, ParseErrorV> {
    match parse_unsigned(p, 10, u32::MAX as nat) {
        Some(v) => Ok(v as u32),
        None => Err(ParseErrorV::InvalidValue(prefix + p)),
    }
}

/// `Version::parse`: trimmed, split at `.`; the first three parts are major, minor and
/// patch, missing ones are 0, further ones are ignored.
pub open spec fn spec_version(s: Seq<char>) -> Result<(u32, u32, u32), ParseErrorV> {
    let t = trimmed(s);
    let parts = split_on(t, '.');
    if t.len() == 0 {
        Err(ParseErrorV::InvalidFormat("empty version string"@))
    } else {
        match spec_version_part(parts[0], "invalid major version: "@) {
            Err(e) => Err(e),
            Ok(ma) => match (if parts.len() > 1 {
                spec_version_part(parts[1], "invalid minor version: "@)
            } else {
                Ok(0u32)
            }) {
                Err(e) => Err(e),
                Ok(mi) => match (if parts.len() > 2 {
                    spec_version_part(parts[2], "invalid patch version: "@)
                } else {
                    Ok(0u32)
                }) {
                    Err(e) => Err(e),
                    Ok(pa) => Ok((ma, mi, pa)),
                },
            },
        }
    }
}

/// `major.minor.patch` in decimal.
pub open spec fn spec_version_string(v: Version) -> Seq<char> {
    dec(v.major as nat) + seq!['.'] + dec(v.minor as nat) + seq!['.'] + dec(v.patch as nat)
}

fn parse_version_part(p: &[char], prefix: &str) -> (r: Result<u32, ParseError>)
    ensures
        match r {
            Ok(v) => spec_version_part(p@, prefix@) == Ok::<u32, ParseErrorV>(v),
            Err(e) => spec_version_part(p@, prefix@) == Err::<u32, ParseErrorV>(e@),
        },
{
    match parse_unsigned_chars(p, 10, u32::MAX as u64) {
        Some(v) => Ok(v as u32),
        None => {
            let mut m: Vec<char> = Vec::new();
            push_str(&mut m, prefix);
            push_all(&mut m, p);
            Err(ParseError::InvalidValue(string_from_chars(&m)))
        },
    }
}

impl Version {
    pub fn new(major: u32, minor: u32, patch: u32) -> (r: Self)
        ensures
            r == (Version { major, minor, patch }),
    {
        Self { major, minor, patch }
    }

    /// Parses `major[.minor[.patch]]`.
    pub fn parse(s: &str) -> (r: Result<Self, ParseError>)
        ensures
            match r {
                Ok(v) => spec_version(s@) == Ok::<(u32, u32, u32), ParseErrorV>(
                    (v.major, v.minor, v.patch),
                ),
                Err(e) => spec_version(s@) == Err::<(u32, u32, u32), ParseErrorV>(e@),
            },
    {
        let cs = str_chars(s);
        let t = trim_chars(&cs);
        if t.len() == 0 {
            return Err(ParseError::InvalidFormat("empty version string".to_owned()));
        }
        let parts = split_chars(&t, '.');
        proof {
            crate::text::lemma_split_on_nonempty(t@, '.');
        }
        assert(views(parts@)[0] == parts@[0]@);
        let major = parse_version_part(&parts[0], "invalid major version: ")?;
        let minor = if parts.len() > 1 {
            assert(views(parts@)[1] == parts@[1]@);
            parse_version_part(&parts[1], "invalid minor version: ")?
        } else {
            0
        };
        let patch = if parts.len() > 2 {
            assert(views(parts@)[2] == parts@[2]@);
            parse_version_part(&parts[2], "invalid patch version: ")?
        } else {
            0
        };
        Ok(Self { major, minor, patch })
    }

    /// `major.minor.patch`.
    pub fn to_version_string(&self) -> (r: String)
        ensures
            r@ == spec_version_string(*self),
    {
        let mut m: Vec<char> = Vec::new();
        push_radix(&mut m, self.major as u128, 10);
        m.push('.');
        push_radix(&mut m, self.minor as u128, 10);
        m.push('.');
        push_radix(&mut m, self.patch as u128, 10);
        assert(m@ =~= spec_version_string(*self));
        string_from_chars(&m)
    }

    /// `self >= other` in the order of (major, minor, patch).
    pub fn at_least(&self, other: &Version) -> (r: bool)
        ensures
            r == version_ge(*self, *other),
    {
        self.major > other.major || (self.major == other.major && (self.minor > other.minor || (
        self.minor == other.minor && self.patch >= other.patch)))
    }
}

/// Lexicographic `a >= b` on (major, minor, patch), the order that `derive(Ord)` gives.
pub open spec fn version_ge(a: Version, b: Version) -> bool {
    a.major > b.major || (a.major == b.major && (a.minor > b.minor || (a.minor == b.minor
        && a.patch >= b.patch)))
}

/// Reading the printed form of a version back gives the same version.
#[verifier::rlimit(60)]
pub proof fn law_version_roundtrip(v: Version)
    ensures
        spec_version(spec_version_string(v)) == Ok::<(u32, u32, u32), ParseErrorV>(
            (v.major, v.minor, v.patch),
        ),
{
    let a = dec(v.major as nat);
    let b = dec(v.minor as nat);
    let c = dec(v.patch as nat);
    lemma_radix_digits_value(v.major as nat, 10);
    lemma_radix_digits_value(v.minor as nat, 10);
    lemma_radix_digits_value(v.patch as nat, 10);
    lemma_digits_plain(a, 10);
    lemma_digits_plain(b, 10);
    lemma_digits_plain(c, 10);
    lemma_parse_radix_digits(v.major as nat, 10, u32::MAX as nat);
    lemma_parse_radix_digits(v.minor as nat, 10, u32::MAX as nat);
    lemma_parse_radix_digits(v.patch as nat, 10, u32::MAX as nat);
    let s = spec_version_string(v);
    let p1 = a.push('.') + b;
    let p2 = p1.push('.') + c;
    assert(p2 =~= s);
    assert(s[0] == a[0]);
    assert(s.last() == c[c.len() - 1]);
    lemma_trim_noop(s);
    lemma_split_no_sep(a, '.');
    lemma_split_append(a, '.', b);
    lemma_split_append(p1, '.', c);
    assert(split_on(s, '.') =~= seq![a, b, c]);
}

/// Whether reading `n` hexadecimal pairs of `t[k..]` stays on character boundaries.
pub fn hex_pairs_safe(t: &[char], k: usize, n: usize) -> (r: bool)
    requires
        k <= t@.len(),
    ensures
        r == hex_pairs_no_panic(t@.skip(k as int), n as nat),
    decreases n,
{
    let ghost u = t@.skip(k as int);
    if n == 0 {
        return true;
    }
    if k >= t.len() {
        return false;
    }
    assert(u[0] == t@[k as int]);
    let l0 = utf8_len_exec(t[k]);
    if l0 == 2 {
        return true;
    }
    if l0 != 1 || t.len() - k < 2 {
        return false;
    }
    assert(u[1] == t@[k + 1]);
    if utf8_len_exec(t[k + 1]) != 1 {
        return false;
    }
    let pair = sub_chars(t, k, k + 2);
    assert(pair@ =~= u.take(2));
    if parse_byte(&pair).is_err() {
        return true;
    }
    assert(t@.skip(k + 2) =~= u.skip(2));
    hex_pairs_safe(t, k + 2, n - 1)
}

/// Whether reading `s` as a MAC address stays on character boundaries (see
/// `mac_no_panic`).
pub fn mac_parse_safe(s: &str) -> (r: bool)
    ensures
        r == mac_no_panic(s@),
{
    let cs = str_chars(s);
    let t = trim_chars(&cs);
    if find_char_exec(&t, ':').is_some() || find_char_exec(&t, '-').is_some() {
        return true;
    }
    if utf8_total_exec(&t) != 12 {
        return true;
    }
    assert(t@.skip(0) =~= t@);
    hex_pairs_safe(&t, 0, 6)
}

/// A discovered receiver, as plain values.
#[derive(Debug, Clone)]
#[non_exhaustive]
pub struct Device {
    pub id: DeviceId,
    pub name: String,
    pub model: String,
    pub manufacturer: Option<String>,
    pub serial_number: Option<String>,
    pub addresses: Vec<IpAddress>,
    pub port: u16,
    pub features: Features,
    pub required_sender_features: Option<Features>,
    pub public_key: Option<[u8; 32]>,
    pub source_version: Version,
    pub firmware_version: Option<String>,
    pub os_version: Option<String>,
    pub protocol_version: Option<String>,
    pub requires_password: bool,
    pub status_flags: u64,
    pub access_control: Option<u8>,
    pub pairing_identity: Option<String>,
    pub system_pairing_identity: Option<String>,
    pub bluetooth_address: Option<String>,
    pub homekit_home_id: Option<String>,
    pub group_id: Option<[u8; 16]>,
    pub is_group_leader: bool,
    pub group_public_name: Option<String>,
    pub group_contains_discoverable_leader: bool,
    pub home_group_id: Option<String>,
    pub household_id: Option<String>,
    pub parent_group_id: Option<[u8; 16]>,
    pub parent_group_contains_discoverable_leader: bool,
    pub tight_sync_id: Option<[u8; 16]>,
    pub raop_port: Option<u16>,
    pub raop_encryption_types: Option<Vec<u8>>,
    pub raop_codecs: Option<Vec<u8>>,
    pub raop_transport: Option<String>,
    pub raop_metadata_types: Option<Vec<u8>>,
    pub raop_digest_auth: bool,
    pub vodka_version: Option<String>,
}

/// A device as mathematical values.
pub struct DeviceV {
    pub id: Seq<u8>,
    pub name: Seq<char>,
    pub model: Seq<char>,
    pub manufacturer: Option<Seq<char>>,
    pub serial_number: Option<Seq<char>>,
    pub addresses: Seq<IpAddress>,
    pub port: u16,
    pub features: u64,
    pub required_sender_features: Option<u64>,
    pub public_key: Option<Seq<u8>>,
    pub source_version: Version,
    pub firmware_version: Option<Seq<char>>,
    pub os_version: Option<Seq<char>>,
    pub protocol_version: Option<Seq<char>>,
    pub requires_password: bool,
    pub status_flags: u64,
    pub access_control: Option<u8>,
    pub pairing_identity: Option<Seq<char>>,
    pub system_pairing_identity: Option<Seq<char>>,
    pub bluetooth_address: Option<Seq<char>>,
    pub homekit_home_id: Option<Seq<char>>,
    pub group_id: Option<Seq<u8>>,
    pub is_group_leader: bool,
    pub group_public_name: Option<Seq<char>>,
    pub group_contains_discoverable_leader: bool,
    pub home_group_id: Option<Seq<char>>,
    pub household_id: Option<Seq<char>>,
    pub parent_group_id: Option<Seq<u8>>,
    pub parent_group_contains_discoverable_leader: bool,
    pub tight_sync_id: Option<Seq<u8>>,
    pub raop_port: Option<u16>,
    pub raop_encryption_types: Option<Seq<u8>>,
    pub raop_codecs: Option<Seq<u8>>,
    pub raop_transport: Option<Seq<char>>,
    pub raop_metadata_types: Option<Seq<u8>>,
    pub raop_digest_auth: bool,
    pub vodka_version: Option<Seq<char>>,
}

pub open spec fn opt_str(o: Option<String>) -> Option<Seq<char>> {
    match o {
        Some(s) => Some(s@),
        None => None,
    }
}

pub open spec fn opt_bytes(o: Option<Vec<u8>>) -> Option<Seq<u8>> {
    match o {
        Some(s) => Some(s@),
        None => None,
    }
}

pub open spec fn opt_arr16(o: Option<[u8; 16]>) -> Option<Seq<u8>> {
    match o {
        Some(s) => Some(s@),
        None => None,
    }
}

pub open spec fn opt_arr32(o: Option<[u8; 32]>) -> Option<Seq<u8>> {
    match o {
        Some(s) => Some(s@),
        None => None,
    }
}

pub open spec fn opt_features(o: Option<Features>) -> Option<u64> {
    match o {
        Some(f) => Some(f.0),
        None => None,
    }
}

impl View for Device {
    type V = DeviceV;

    open spec fn view(&self) -> DeviceV {
        DeviceV {
            id: self.id.0@,
            name: self.name@,
            model: self.model@,
            manufacturer: opt_str(self.manufacturer),
            serial_number: opt_str(self.serial_number),
            addresses: self.addresses@,
            port: self.port,
            features: self.features.0,
            required_sender_features: opt_features(self.required_sender_features),
            public_key: opt_arr32(self.public_key),
            source_version: self.source_version,
            firmware_version: opt_str(self.firmware_version),
            os_version: opt_str(self.os_version),
            protocol_version: opt_str(self.protocol_version),
            requires_password: self.requires_password,
            status_flags: self.status_flags,
            access_control: self.access_control,
            pairing_identity: opt_str(self.pairing_identity),
            system_pairing_identity: opt_str(self.system_pairing_identity),
            bluetooth_address: opt_str(self.bluetooth_address),
            homekit_home_id: opt_str(self.homekit_home_id),
            group_id: opt_arr16(self.group_id),
            is_group_leader: self.is_group_leader,
            group_public_name: opt_str(self.group_public_name),
            group_contains_discoverable_leader: self.group_contains_discoverable_leader,
            home_group_id: opt_str(self.home_group_id),
            household_id: opt_str(self.household_id),
            parent_group_id: opt_arr16(self.parent_group_id),
            parent_group_contains_discoverable_leader: self.parent_group_contains_discoverable_leader,
            tight_sync_id: opt_arr16(self.tight_sync_id),
            raop_port: self.raop_port,
            raop_encryption_types: opt_bytes(self.raop_encryption_types),
            raop_codecs: opt_bytes(self.raop_codecs),
            raop_transport: opt_str(self.raop_transport),
            raop_metadata_types: opt_bytes(self.raop_metadata_types),
            raop_digest_auth: self.raop_digest_auth,
            vodka_version: opt_str(self.vodka_version),
        }
    }
}

/// The lowest receiver version that speaks AirPlay 2.
pub open spec fn min_airplay2_version() -> Version {
    Version { major: 354, minor: 54, patch: 6 }
}

/// The lowest receiver version that speaks PTP.
pub open spec fn min_ptp_version() -> Version {
    Version { major: 366, minor: 0, patch: 0 }
}

/// The address to connect to: the first IPv4 address, else the first address.
pub open spec fn connect_address(a: Seq<IpAddress>) -> Option<IpAddress> {
    match first_v4(a) {
        Some(i) => Some(a[i]),
        None => if a.len() > 0 {
            Some(a[0])
        } else {
            None
        },
    }
}

impl Device {
    /// Buffered audio and a source version of at least 354.54.6.
    pub fn supports_airplay2(&self) -> (r: bool)
        ensures
            r == (has_bit(self.features.0, 40) && version_ge(self.source_version, min_airplay2_version())),
    {
        let min = Version { major: 354, minor: 54, patch: 6 };
        self.features.supports_buffered_audio() && self.source_version.at_least(&min)
    }

    /// The PTP feature and a source version of at least 366.
    pub fn supports_ptp(&self) -> (r: bool)
        ensures
            r == (has_bit(self.features.0, 41) && version_ge(self.source_version, min_ptp_version())),
    {
        let min = Version { major: 366, minor: 0, patch: 0 };
        self.features.supports_ptp() && self.source_version.at_least(&min)
    }

    /// The first IPv4 address with the device's port, else the first address.
    pub fn socket_addr(&self) -> (r: Option<Endpoint>)
        ensures
            match connect_address(self.addresses@) {
                Some(a) => r == Some(Endpoint { addr: a, port: self.port }),
                None => r is None,
            },
    {
        let mut i: usize = 0;
        while i < self.addresses.len()
            invariant
                i <= self.addresses@.len(),
                forall|j: int| 0 <= j < i ==> !is_v4(#[trigger] self.addresses@[j]),
            decreases self.addresses@.len() - i,
        {
            if let IpAddress::V4(_) = self.addresses[i] {
                proof {
                    lemma_first_v4(self.addresses@, i as int);
                }
                return Some(Endpoint { addr: self.addresses[i], port: self.port });
            }
            i += 1;
        }
        proof {
            lemma_first_v4(self.addresses@, i as int);
        }
        if self.addresses.len() > 0 {
            Some(Endpoint { addr: self.addresses[0], port: self.port })
        } else {
            None
        }
    }

    pub fn auth_method(&self) -> (r: AuthMethod)
        ensures
            r == auth_method_of(self.features.0),
    {
        self.features.auth_method()
    }

    /// RAOP was advertised, or AirPlay 2 is not supported.
    pub fn supports_raop(&self) -> (r: bool)
        ensures
            r == (self.raop_port is Some || !(has_bit(self.features.0, 40) && version_ge(
                self.source_version,
                min_airplay2_version(),
            ))),
    {
        self.raop_port.is_some() || !self.supports_airplay2()
    }

    /// The RAOP port, else the AirPlay port.
    pub fn raop_connection_port(&self) -> (r: u16)
        ensures
            r == match self.raop_port {
                Some(p) => p,
                None => self.port,
            },
    {
        match self.raop_port {
            Some(p) => p,
            None => self.port,
        }
    }

    /// Encryption type 1 (RSA) is among the advertised ones.
    pub fn supports_rsa_encryption(&self) -> (r: bool)
        ensures
            r == match opt_bytes(self.raop_encryption_types) {
                Some(et) => et.contains(1u8),
                None => false,
            },
    {
        match &self.raop_encryption_types {
            Some(et) => {
                let mut i: usize = 0;
                while i < et.len()
                    invariant
                        i <= et@.len(),
                        opt_bytes(self.raop_encryption_types) == Some(et@),
                        forall|j: int| 0 <= j < i ==> et@[j] != 1u8,
                    decreases et@.len() - i,
                {
                    if et[i] == 1 {
                        assert(et@.contains(1u8));
                        return true;
                    }
                    i += 1;
                }
                false
            },
            None => false,
        }
    }
}

} // verus!
