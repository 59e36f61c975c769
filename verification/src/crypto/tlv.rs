//! TLV8, the type-length-value encoding of HomeKit pairing messages.
use crate::base::error::{ParseError, ParseErrorV};
use crate::text::{dec, push_radix, push_str, string_from_chars};
use std::collections::HashMap;
use vstd::prelude::*;

verus! {

broadcast use vstd::std_specs::hash::group_hash_axioms;

#[derive(Debug, Clone, Copy, PartialEq, Eq, Hash, Structural)]
pub enum TlvType {
    Method,
    Salt,
    PublicKey,
    Proof,
    State,
    Error,
    Flags,
}

/// The type byte of a TLV type.
pub open spec fn tlv_code(t: TlvType) -> u8 {
    match t {
        TlvType::Method => 0x00,
        TlvType::Salt => 0x02,
        TlvType::PublicKey => 0x03,
        TlvType::Proof => 0x04,
        TlvType::State => 0x06,
        TlvType::Error => 0x07,
        TlvType::Flags => 0x13,
    }
}

impl TlvType {
    /// The type byte.
    pub fn code(&self) -> (r: u8)
        ensures
            r == tlv_code(*self),
    {
        match self {
            TlvType::Method => 0x00,
            TlvType::Salt => 0x02,
            TlvType::PublicKey => 0x03,
            TlvType::Proof => 0x04,
            TlvType::State => 0x06,
            TlvType::Error => 0x07,
            TlvType::Flags => 0x13,
        }
    }
}

/// A TLV8 message: one value per type byte.
#[derive(Debug, Clone)]
pub struct Tlv8 {
    items: HashMap<u8, Vec<u8>>,
}

impl View for Tlv8 {
    type V = Map<u8, Seq<u8>>;

    closed spec fn view(&self) -> Map<u8, Seq<u8>> {
        Map::new(|k: u8| self.items@.contains_key(k), |k: u8| self.items@[k]@)
    }
}

/// The value stored so far for `t`, or nothing.
pub open spec fn value_or_empty(acc: Map<u8, Seq<u8>>, t: u8) -> Seq<u8> {
    if acc.contains_key(t) {
        acc[t]
    } else {
        Seq::<u8>::empty()
    }
}

/// One record added: its value is appended to what the type already holds.
pub open spec fn tlv_add(acc: Map<u8, Seq<u8>>, t: u8, v: Seq<u8>) -> Map<u8, Seq<u8>> {
    acc.insert(t, value_or_empty(acc, t) + v)
}

/// Reading records from `data` on top of `acc`: a record is a type byte, a length byte
/// and that many value bytes; values of the same type are joined in order.
pub open spec fn tlv_parse_from(data: Seq<u8>, acc: Map<u8, Seq<u8>>) -> Result<
    Map<u8, Seq<u8>>,
    ParseErrorV,
>
    decreases data.len(),
{
    if data.len() == 0 {
        Ok(acc)
    } else if data.len() < 2 {
        Err(ParseErrorV::InvalidFormat("TLV8: truncated header"@))
    } else if 2 + data[1] > data.len() {
        Err(
            ParseErrorV::InvalidFormat(
                "TLV8: truncated value (expected "@ + dec(data[1] as nat) + " bytes, got "@ + dec(
                    (data.len() - 2) as nat,
                ) + ")"@,
            ),
        )
    } else {
        tlv_parse_from(
            data.skip(2 + data[1]),
            tlv_add(acc, data[0], data.subrange(2, 2 + data[1])),
        )
    }
}

/// `Tlv8::parse` of `data`.
pub open spec fn tlv_parse_spec(data: Seq<u8>) -> Result<Map<u8, Seq<u8>>, ParseErrorV> {
    tlv_parse_from(data, Map::empty())
}

/// The records of one value: `[t, 0]` when it is empty, else chunks of at most 255 bytes.
pub open spec fn encode_value(t: u8, v: Seq<u8>) -> Seq<u8>
    decreases v.len(),
{
    if v.len() == 0 {
        seq![t, 0u8]
    } else if v.len() <= 255 {
        seq![t, v.len() as u8] + v
    } else {
        seq![t, 255u8] + v.take(255) + encode_value(t, v.skip(255))
    }
}

/// The records of all types below `k`, in ascending order of type.
pub open spec fn encode_upto(m: Map<u8, Seq<u8>>, k: nat) -> Seq<u8>
    decreases k,
{
    if k == 0 {
        Seq::<u8>::empty()
    } else {
        encode_upto(m, (k - 1) as nat) + (if m.contains_key((k - 1) as u8) {
            encode_value((k - 1) as u8, m[(k - 1) as u8])
        } else {
            Seq::<u8>::empty()
        })
    }
}

/// `Tlv8::encode`: every type in ascending order.
pub open spec fn tlv_encode_spec(m: Map<u8, Seq<u8>>) -> Seq<u8> {
    encode_upto(m, 256)
}

/// The part of `m` with types below `k`.
pub open spec fn restrict_below(m: Map<u8, Seq<u8>>, k: nat) -> Map<u8, Seq<u8>> {
    Map::new(|j: u8| m.contains_key(j) && j < k, |j: u8| m[j])
}

proof fn lemma_parse_value(t: u8, v: Seq<u8>, rest: Seq<u8>, acc: Map<u8, Seq<u8>>)
    ensures
        tlv_parse_from(encode_value(t, v) + rest, acc) == tlv_parse_from(rest, tlv_add(acc, t, v)),
    decreases v.len(),
{
    let d = encode_value(t, v) + rest;
    if v.len() == 0 {
        assert(d[0] == t && d[1] == 0);
        assert(d.skip(2) =~= rest);
        assert(d.subrange(2, 2) =~= v);
    } else if v.len() <= 255 {
        assert(d[0] == t && d[1] == v.len() as u8);
        assert(d.skip(2 + v.len() as int) =~= rest);
        assert(d.subrange(2, 2 + v.len() as int) =~= v);
    } else {
        let a = v.take(255);
        let b = v.skip(255);
        assert(d[0] == t && d[1] == 255);
        assert(d.skip(257) =~= encode_value(t, b) + rest);
        assert(d.subrange(2, 257) =~= a);
        lemma_parse_value(t, b, rest, tlv_add(acc, t, a));
        assert(value_or_empty(tlv_add(acc, t, a), t) == value_or_empty(acc, t) + a);
        assert(value_or_empty(acc, t) + a + b =~= value_or_empty(acc, t) + v);
        assert(tlv_add(tlv_add(acc, t, a), t, b) =~= tlv_add(acc, t, v));
    }
}

proof fn lemma_parse_upto(m: Map<u8, Seq<u8>>, k: nat, rest: Seq<u8>)
    requires
        k <= 256,
    ensures
        tlv_parse_from(encode_upto(m, k) + rest, Map::empty()) == tlv_parse_from(
            rest,
            restrict_below(m, k),
        ),
    decreases k,
{
    if k == 0 {
        assert(encode_upto(m, 0) + rest =~= rest);
        assert(restrict_below(m, 0) =~= Map::<u8, Seq<u8>>::empty());
    } else {
        let j = (k - 1) as u8;
        let piece = if m.contains_key(j) {
            encode_value(j, m[j])
        } else {
            Seq::<u8>::empty()
        };
        assert(encode_upto(m, k) + rest =~= encode_upto(m, (k - 1) as nat) + (piece + rest));
        lemma_parse_upto(m, (k - 1) as nat, piece + rest);
        if m.contains_key(j) {
            lemma_parse_value(j, m[j], rest, restrict_below(m, (k - 1) as nat));
            assert(!restrict_below(m, (k - 1) as nat).contains_key(j));
            assert(tlv_add(restrict_below(m, (k - 1) as nat), j, m[j]) =~= restrict_below(m, k));
        } else {
            assert(piece + rest =~= rest);
            assert(restrict_below(m, (k - 1) as nat) =~= restrict_below(m, k));
        }
    }
}

/// Parsing the encoding of a TLV8 message gives the same message back.
pub proof fn law_tlv_roundtrip(m: Map<u8, Seq<u8>>)
    ensures
        tlv_parse_spec(tlv_encode_spec(m)) == Ok::<Map<u8, Seq<u8>>, ParseErrorV>(m),
{
    lemma_parse_upto(m, 256, Seq::<u8>::empty());
    assert(encode_upto(m, 256) + Seq::<u8>::empty() =~= encode_upto(m, 256));
    assert(restrict_below(m, 256) =~= m);
}

proof fn lemma_parse_step(data: Seq<u8>, i: int, acc: Map<u8, Seq<u8>>)
    requires
        0 <= i,
        i + 2 <= data.len(),
        i + 2 + data[i + 1] <= data.len(),
    ensures
        tlv_parse_from(data.skip(i), acc) == tlv_parse_from(
            data.skip(i + 2 + data[i + 1]),
            tlv_add(acc, data[i], data.subrange(i + 2, i + 2 + data[i + 1])),
        ),
{
    let s = data.skip(i);
    assert(s[0] == data[i] && s[1] == data[i + 1]);
    assert(s.skip(2 + s[1]) =~= data.skip(i + 2 + data[i + 1]));
    assert(s.subrange(2, 2 + s[1]) =~= data.subrange(i + 2, i + 2 + data[i + 1]));
}

impl Tlv8 {
    pub fn new() -> (r: Self)
        ensures
            r@ == Map::<u8, Seq<u8>>::empty(),
    {
        let r = Tlv8 { items: HashMap::new() };
        assert(r@ =~= Map::<u8, Seq<u8>>::empty());
        r
    }

    /// Parses TLV8 records; values of records of the same type are joined.
    pub fn parse(data: &[u8]) -> (r: Result<Self, ParseError>)
        ensures
            match r {
                Ok(t) => tlv_parse_spec(data@) == Ok::<Map<u8, Seq<u8>>, ParseErrorV>(t@),
                Err(e) => tlv_parse_spec(data@) == Err::<Map<u8, Seq<u8>>, ParseErrorV>(e@),
            },
    {
        let mut out = Tlv8 { items: HashMap::new() };
        let mut i: usize = 0;
        assert(data@.skip(0) =~= data@);
        assert(out@ =~= Map::<u8, Seq<u8>>::empty());
        while i < data.len()
            invariant
                i <= data@.len(),
                tlv_parse_spec(data@) == tlv_parse_from(data@.skip(i as int), out@),
            decreases data@.len() - i,
        {
            if data.len() - i < 2 {
                let ghost s = data@.skip(i as int);
                assert(s.len() < 2 && s.len() > 0);
                return Err(ParseError::InvalidFormat("TLV8: truncated header".to_owned()));
            }
            let typ = data[i];
            let len = data[i + 1] as usize;
            proof {
                let s = data@.skip(i as int);
                assert(s[0] == typ && s[1] == len);
            }
            if len > data.len() - i - 2 {
                let mut m: Vec<char> = Vec::new();
                push_str(&mut m, "TLV8: truncated value (expected ");
                push_radix(&mut m, len as u128, 10);
                push_str(&mut m, " bytes, got ");
                push_radix(&mut m, (data.len() - i - 2) as u128, 10);
                push_str(&mut m, ")");
                return Err(ParseError::InvalidFormat(string_from_chars(&m)));
            }
            proof {
                lemma_parse_step(data@, i as int, out@);
            }
            let ghost old_view = out@;
            let mut cur: Vec<u8> = match out.items.remove(&typ) {
                Some(v) => v,
                None => Vec::new(),
            };
            let ghost before = cur@;
            assert(before == value_or_empty(old_view, typ));
            let end: usize = i + 2 + len;
            let mut k: usize = i + 2;
            while k < end
                invariant
                    end == i + 2 + len,
                    i + 2 <= k <= end <= data@.len(),
                    cur@ == before + data@.subrange(i + 2, k as int),
                decreases i + 2 + len - k,
            {
                cur.push(data[k]);
                k += 1;
                assert(data@.subrange(i + 2, k as int) =~= data@.subrange(i + 2, k - 1).push(
                    data@[k - 1],
                ));
            }
            out.items.insert(typ, cur);
            assert(out@ =~= tlv_add(old_view, typ, data@.subrange(i + 2, (i + 2 + len) as int)));
            i = i + 2 + len;
        }
        assert(data@.skip(i as int) =~= Seq::<u8>::empty());
        Ok(out)
    }

    /// Encodes every type in ascending order; values longer than 255 bytes are split.
    pub fn encode(&self) -> (r: Vec<u8>)
        ensures
            r@ == tlv_encode_spec(self@),
    {
        let mut result: Vec<u8> = Vec::new();
        let mut k: u16 = 0;
        while k < 256
            invariant
                k <= 256,
                result@ == encode_upto(self@, k as nat),
            decreases 256 - k,
        {
            let t = k as u8;
            let ghost prev = result@;
            match self.items.get(&t) {
                Some(v) => {
                    append_value(&mut result, t, v);
                    assert(self@.contains_key(t) && self@[t] == v@);
                },
                None => {
                    assert(!self@.contains_key(t));
                    assert(result@ =~= prev + Seq::<u8>::empty());
                },
            }
            k += 1;
        }
        result
    }

    /// The value stored for `typ`.
    pub fn get(&self, typ: TlvType) -> (r: Option<&[u8]>)
        ensures
            match r {
                Some(v) => self@.contains_key(tlv_code(typ)) && v@ == self@[tlv_code(typ)],
                None => !self@.contains_key(tlv_code(typ)),
            },
    {
        match self.items.get(&typ.code()) {
            Some(v) => Some(v.as_slice()),
            None => None,
        }
    }

    /// Stores `value` for `typ`, replacing what was there.
    pub fn set(&mut self, typ: TlvType, value: Vec<u8>)
        ensures
            final(self)@ == old(self)@.insert(tlv_code(typ), value@),
    {
        let ghost o = self@;
        self.items.insert(typ.code(), value);
        assert(self@ =~= o.insert(tlv_code(typ), value@));
    }

    /// The first byte of the `State` value.
    pub fn state(&self) -> (r: Option<u8>)
        ensures
            r == first_byte(self@, 0x06),
    {
        match self.get(TlvType::State) {
            Some(v) => if v.len() > 0 {
                Some(v[0])
            } else {
                None
            },
            None => None,
        }
    }

    /// The first byte of the `Error` value.
    pub fn error(&self) -> (r: Option<u8>)
        ensures
            r == first_byte(self@, 0x07),
    {
        match self.get(TlvType::Error) {
            Some(v) => if v.len() > 0 {
                Some(v[0])
            } else {
                None
            },
            None => None,
        }
    }

    /// Pair-setup M1: state 1, method 0 (pair setup), flags `10 00 00 00` (transient).
    pub fn pair_setup_m1_with_flags() -> (r: Self)
        ensures
            r@ == Map::<u8, Seq<u8>>::empty().insert(0x06, seq![0x01u8]).insert(
                0x00,
                seq![0x00u8],
            ).insert(0x13, seq![0x10u8, 0x00, 0x00, 0x00]),
    {
        let mut tlv = Self::new();
        let st: Vec<u8> = vec![0x01];
        let me: Vec<u8> = vec![0x00];
        let fl: Vec<u8> = vec![0x10, 0x00, 0x00, 0x00];
        assert(st@ =~= seq![0x01u8]);
        assert(me@ =~= seq![0x00u8]);
        assert(fl@ =~= seq![0x10u8, 0x00, 0x00, 0x00]);
        tlv.set(TlvType::State, st);
        tlv.set(TlvType::Method, me);
        tlv.set(TlvType::Flags, fl);
        tlv
    }
}

/// The first byte of the value of type `t`, if there is a non-empty one.
pub open spec fn first_byte(m: Map<u8, Seq<u8>>, t: u8) -> Option<u8> {
    if m.contains_key(t) && m[t].len() > 0 {
        Some(m[t][0])
    } else {
        None
    }
}

/// Appends the records of one value.
fn append_value(out: &mut Vec<u8>, t: u8, v: &Vec<u8>)
    ensures
        final(out)@ == old(out)@ + encode_value(t, v@),
{
    if v.len() == 0 {
        out.push(t);
        out.push(0);
        assert(out@ =~= old(out)@ + encode_value(t, v@));
        return;
    }
    let ghost o = old(out)@;
    let mut off: usize = 0;
    assert(v@.skip(0) =~= v@);
    while off < v.len()
        invariant
            off <= v@.len(),
            v@.len() > 0,
            off < v@.len() ==> o + encode_value(t, v@) == out@ + encode_value(
                t,
                v@.skip(off as int),
            ),
            off == v@.len() ==> o + encode_value(t, v@) == out@,
        decreases v@.len() - off,
    {
        let ghost w = v@.skip(off as int);
        let remaining = v.len() - off;
        let n: usize = if remaining > 255 {
            255
        } else {
            remaining
        };
        let ghost before = out@;
        out.push(t);
        out.push(n as u8);
        let mut k: usize = 0;
        while k < n
            invariant
                k <= n <= 255,
                off + n <= v@.len(),
                v@.len() <= usize::MAX,
                out@ == before + seq![t, n as u8] + v@.subrange(off as int, off + k),
            decreases n - k,
        {
            out.push(v[off + k]);
            k += 1;
            assert(v@.subrange(off as int, off + k) =~= v@.subrange(off as int, off + k - 1).push(
                v@[off + k - 1],
            ));
        }
        proof {
            if remaining > 255 {
                assert(w.take(255) =~= v@.subrange(off as int, off + 255));
                assert(w.skip(255) =~= v@.skip(off + 255));
                assert(encode_value(t, w) == seq![t, 255u8] + w.take(255) + encode_value(t, w.skip(255)));
                assert(before + encode_value(t, w) =~= out@ + encode_value(t, v@.skip(off + 255)));
            } else {
                assert(w =~= v@.subrange(off as int, off + n));
                assert(before + encode_value(t, w) =~= out@);
            }
        }
        off += n;
    }
}

} // verus!
