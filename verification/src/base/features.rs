//! The AirPlay feature bitmask advertised in TXT records.
#[allow(unused_imports)]
use crate::base::error::{ParseError, ParseErrorV};
use crate::text::{find_char, find_char_exec, hex, lemma_digits_plain, lemma_find_char, lemma_parse_radix_digits, lemma_radix_digits_value, lemma_trim_noop, parse_unsigned, parse_unsigned_chars, push_radix, push_str, starts_with, starts_with2, str_chars, string_from_chars, sub_chars, trim_chars, trimmed};
use vstd::prelude::*;

verus! {

#[derive(Debug, Clone, Copy, PartialEq, Eq, Default, Structural)]
#[non_exhaustive]
pub struct Features(pub u64);

#[derive(Debug, Clone, Copy, PartialEq, Eq, Structural)]
#[non_exhaustive]
pub enum AuthMethod {
    NotRequired,
    HomeKitTransient,
    FairPlay,
    MfiRequired,
}

/// Bit `k` of `v` is set.
pub open spec fn has_bit(v: u64, k: u64) -> bool {
    (v >> k) & 1u64 == 1u64
}

proof fn lemma_mask_bit(v: u64, k: u64)
    requires
        k < 64,
    ensures
        (v & (1u64 << k) != 0u64) == has_bit(v, k),
{
    assert((v & (1u64 << k) != 0u64) == ((v >> k) & 1u64 == 1u64)) by (bit_vector)
        requires
            k < 64,
    ;
}

impl Features {
    pub const SUPPORTS_VIDEO_V1: u64 = 1u64 << 0;

    pub const SUPPORTS_PHOTO: u64 = 1u64 << 1;

    pub const SUPPORTS_SLIDESHOW: u64 = 1u64 << 5;

    pub const SUPPORTS_SCREEN: u64 = 1u64 << 7;

    pub const SUPPORTS_AUDIO: u64 = 1u64 << 9;

    pub const AUDIO_REDUNDANT: u64 = 1u64 << 11;

    pub const AUTHENTICATION_FAIRPLAY: u64 = 1u64 << 14;

    pub const METADATA_FEATURES_0: u64 = 1u64 << 15;

    pub const METADATA_FEATURES_1: u64 = 1u64 << 16;

    pub const METADATA_FEATURES_2: u64 = 1u64 << 17;

    pub const AUDIO_FORMATS_0: u64 = 1u64 << 18;

    pub const AUDIO_FORMATS_1: u64 = 1u64 << 19;

    pub const AUDIO_FORMATS_2: u64 = 1u64 << 20;

    pub const AUDIO_FORMATS_3: u64 = 1u64 << 21;

    pub const AUTHENTICATION_1: u64 = 1u64 << 23;

    pub const AUTHENTICATION_MFI: u64 = 1u64 << 26;

    pub const SUPPORTS_LEGACY_PAIRING: u64 = 1u64 << 27;

    pub const HAS_UNIFIED_ADVERTISER_INFO: u64 = 1u64 << 30;

    pub const IS_CARPLAY: u64 = 1u64 << 32;

    pub const SUPPORTS_VIDEO_PLAY_QUEUE: u64 = 1u64 << 33;

    pub const SUPPORTS_AIRPLAY_FROM_CLOUD: u64 = 1u64 << 34;

    pub const SUPPORTS_TLS_PSK: u64 = 1u64 << 35;

    pub const SUPPORTS_UNIFIED_MEDIA_CONTROL: u64 = 1u64 << 38;

    pub const SUPPORTS_BUFFERED_AUDIO: u64 = 1u64 << 40;

    pub const SUPPORTS_PTP: u64 = 1u64 << 41;

    pub const SUPPORTS_SCREEN_MULTI_CODEC: u64 = 1u64 << 42;

    pub const SUPPORTS_SYSTEM_PAIRING: u64 = 1u64 << 43;

    pub const IS_AP_VALERIA_SCREEN_SENDER: u64 = 1u64 << 44;

    pub const SUPPORTS_HOMEKIT_PAIRING: u64 = 1u64 << 46;

    pub const SUPPORTS_TRANSIENT_PAIRING: u64 = 1u64 << 48;

    pub const SUPPORTS_VIDEO_V2: u64 = 1u64 << 49;

    pub const METADATA_FEATURES_3: u64 = 1u64 << 50;

    pub const SUPPORTS_UNIFIED_PAIR_MFI: u64 = 1u64 << 51;

    pub const SUPPORTS_SET_PEERS_EXTENDED_MESSAGE: u64 = 1u64 << 52;

    pub const SUPPORTS_AP_SYNC: u64 = 1u64 << 54;

    pub const SUPPORTS_WOL_55: u64 = 1u64 << 55;

    pub const SUPPORTS_WOL_56: u64 = 1u64 << 56;

    pub const SUPPORTS_HANGDOG_REMOTE_CONTROL: u64 = 1u64 << 58;

    pub const SUPPORTS_AUDIO_STREAM_CONNECTION_SETUP: u64 = 1u64 << 59;

    pub const SUPPORTS_AUDIO_MEDIA_DATA_CONTROL: u64 = 1u64 << 60;

    pub const SUPPORTS_RFC2198_REDUNDANCY: u64 = 1u64 << 61;

}

impl Features {
    pub fn supports_video_v1(&self) -> (r: bool)
        ensures
            r == has_bit(self.0, 0),
    {
        proof {
            lemma_mask_bit(self.0, 0);
        }
        self.0 & Self::SUPPORTS_VIDEO_V1 != 0
    }

    pub fn supports_photo(&self) -> (r: bool)
        ensures
            r == has_bit(self.0, 1),
    {
        proof {
            lemma_mask_bit(self.0, 1);
        }
        self.0 & Self::SUPPORTS_PHOTO != 0
    }

    pub fn supports_slideshow(&self) -> (r: bool)
        ensures
            r == has_bit(self.0, 5),
    {
        proof {
            lemma_mask_bit(self.0, 5);
        }
        self.0 & Self::SUPPORTS_SLIDESHOW != 0
    }

    pub fn supports_screen(&self) -> (r: bool)
        ensures
            r == has_bit(self.0, 7),
    {
        proof {
            lemma_mask_bit(self.0, 7);
        }
        self.0 & Self::SUPPORTS_SCREEN != 0
    }

    pub fn supports_audio(&self) -> (r: bool)
        ensures
            r == has_bit(self.0, 9),
    {
        proof {
            lemma_mask_bit(self.0, 9);
        }
        self.0 & Self::SUPPORTS_AUDIO != 0
    }

    pub fn supports_redundant_audio(&self) -> (r: bool)
        ensures
            r == has_bit(self.0, 11),
    {
        proof {
            lemma_mask_bit(self.0, 11);
        }
        self.0 & Self::AUDIO_REDUNDANT != 0
    }

    pub fn requires_fairplay(&self) -> (r: bool)
        ensures
            r == has_bit(self.0, 14),
    {
        proof {
            lemma_mask_bit(self.0, 14);
        }
        self.0 & Self::AUTHENTICATION_FAIRPLAY != 0
    }

    pub fn has_authentication_1(&self) -> (r: bool)
        ensures
            r == has_bit(self.0, 23),
    {
        proof {
            lemma_mask_bit(self.0, 23);
        }
        self.0 & Self::AUTHENTICATION_1 != 0
    }

    pub fn requires_mfi(&self) -> (r: bool)
        ensures
            r == has_bit(self.0, 26),
    {
        proof {
            lemma_mask_bit(self.0, 26);
        }
        self.0 & Self::AUTHENTICATION_MFI != 0
    }

    pub fn supports_legacy_pairing(&self) -> (r: bool)
        ensures
            r == has_bit(self.0, 27),
    {
        proof {
            lemma_mask_bit(self.0, 27);
        }
        self.0 & Self::SUPPORTS_LEGACY_PAIRING != 0
    }

    pub fn has_unified_advertiser_info(&self) -> (r: bool)
        ensures
            r == has_bit(self.0, 30),
    {
        proof {
            lemma_mask_bit(self.0, 30);
        }
        self.0 & Self::HAS_UNIFIED_ADVERTISER_INFO != 0
    }

    pub fn is_carplay(&self) -> (r: bool)
        ensures
            r == has_bit(self.0, 32),
    {
        proof {
            lemma_mask_bit(self.0, 32);
        }
        self.0 & Self::IS_CARPLAY != 0
    }

    pub fn supports_video_play_queue(&self) -> (r: bool)
        ensures
            r == has_bit(self.0, 33),
    {
        proof {
            lemma_mask_bit(self.0, 33);
        }
        self.0 & Self::SUPPORTS_VIDEO_PLAY_QUEUE != 0
    }

    pub fn supports_airplay_from_cloud(&self) -> (r: bool)
        ensures
            r == has_bit(self.0, 34),
    {
        proof {
            lemma_mask_bit(self.0, 34);
        }
        self.0 & Self::SUPPORTS_AIRPLAY_FROM_CLOUD != 0
    }

    pub fn supports_tls_psk(&self) -> (r: bool)
        ensures
            r == has_bit(self.0, 35),
    {
        proof {
            lemma_mask_bit(self.0, 35);
        }
        self.0 & Self::SUPPORTS_TLS_PSK != 0
    }

    pub fn supports_unified_media_control(&self) -> (r: bool)
        ensures
            r == has_bit(self.0, 38),
    {
        proof {
            lemma_mask_bit(self.0, 38);
        }
        self.0 & Self::SUPPORTS_UNIFIED_MEDIA_CONTROL != 0
    }

    pub fn supports_buffered_audio(&self) -> (r: bool)
        ensures
            r == has_bit(self.0, 40),
    {
        proof {
            lemma_mask_bit(self.0, 40);
        }
        self.0 & Self::SUPPORTS_BUFFERED_AUDIO != 0
    }

    pub fn supports_ptp(&self) -> (r: bool)
        ensures
            r == has_bit(self.0, 41),
    {
        proof {
            lemma_mask_bit(self.0, 41);
        }
        self.0 & Self::SUPPORTS_PTP != 0
    }

    pub fn supports_screen_multi_codec(&self) -> (r: bool)
        ensures
            r == has_bit(self.0, 42),
    {
        proof {
            lemma_mask_bit(self.0, 42);
        }
        self.0 & Self::SUPPORTS_SCREEN_MULTI_CODEC != 0
    }

    pub fn supports_system_pairing(&self) -> (r: bool)
        ensures
            r == has_bit(self.0, 43),
    {
        proof {
            lemma_mask_bit(self.0, 43);
        }
        self.0 & Self::SUPPORTS_SYSTEM_PAIRING != 0
    }

    pub fn is_ap_valeria_screen_sender(&self) -> (r: bool)
        ensures
            r == has_bit(self.0, 44),
    {
        proof {
            lemma_mask_bit(self.0, 44);
        }
        self.0 & Self::IS_AP_VALERIA_SCREEN_SENDER != 0
    }

    pub fn supports_homekit_pairing(&self) -> (r: bool)
        ensures
            r == has_bit(self.0, 46),
    {
        proof {
            lemma_mask_bit(self.0, 46);
        }
        self.0 & Self::SUPPORTS_HOMEKIT_PAIRING != 0
    }

    pub fn supports_transient_pairing(&self) -> (r: bool)
        ensures
            r == has_bit(self.0, 48),
    {
        proof {
            lemma_mask_bit(self.0, 48);
        }
        self.0 & Self::SUPPORTS_TRANSIENT_PAIRING != 0
    }

    pub fn supports_video_v2(&self) -> (r: bool)
        ensures
            r == has_bit(self.0, 49),
    {
        proof {
            lemma_mask_bit(self.0, 49);
        }
        self.0 & Self::SUPPORTS_VIDEO_V2 != 0
    }

    pub fn supports_unified_pair_mfi(&self) -> (r: bool)
        ensures
            r == has_bit(self.0, 51),
    {
        proof {
            lemma_mask_bit(self.0, 51);
        }
        self.0 & Self::SUPPORTS_UNIFIED_PAIR_MFI != 0
    }

    pub fn supports_set_peers_extended_message(&self) -> (r: bool)
        ensures
            r == has_bit(self.0, 52),
    {
        proof {
            lemma_mask_bit(self.0, 52);
        }
        self.0 & Self::SUPPORTS_SET_PEERS_EXTENDED_MESSAGE != 0
    }

    pub fn supports_ap_sync(&self) -> (r: bool)
        ensures
            r == has_bit(self.0, 54),
    {
        proof {
            lemma_mask_bit(self.0, 54);
        }
        self.0 & Self::SUPPORTS_AP_SYNC != 0
    }

    pub fn supports_hangdog_remote_control(&self) -> (r: bool)
        ensures
            r == has_bit(self.0, 58),
    {
        proof {
            lemma_mask_bit(self.0, 58);
        }
        self.0 & Self::SUPPORTS_HANGDOG_REMOTE_CONTROL != 0
    }

    pub fn supports_audio_stream_connection_setup(&self) -> (r: bool)
        ensures
            r == has_bit(self.0, 59),
    {
        proof {
            lemma_mask_bit(self.0, 59);
        }
        self.0 & Self::SUPPORTS_AUDIO_STREAM_CONNECTION_SETUP != 0
    }

    pub fn supports_audio_media_data_control(&self) -> (r: bool)
        ensures
            r == has_bit(self.0, 60),
    {
        proof {
            lemma_mask_bit(self.0, 60);
        }
        self.0 & Self::SUPPORTS_AUDIO_MEDIA_DATA_CONTROL != 0
    }

    pub fn supports_rfc2198_redundancy(&self) -> (r: bool)
        ensures
            r == has_bit(self.0, 61),
    {
        proof {
            lemma_mask_bit(self.0, 61);
        }
        self.0 & Self::SUPPORTS_RFC2198_REDUNDANCY != 0
    }

    /// Wake-on-LAN: bit 55 or bit 56.
    pub fn supports_wol(&self) -> (r: bool)
        ensures
            r == (has_bit(self.0, 55) || has_bit(self.0, 56)),
    {
        let v = self.0;
        assert((v & ((1u64 << 55u64) | (1u64 << 56u64)) != 0u64) == ((v >> 55u64) & 1u64 == 1u64
            || (v >> 56u64) & 1u64 == 1u64)) by (bit_vector);
        v & (Self::SUPPORTS_WOL_55 | Self::SUPPORTS_WOL_56) != 0
    }

    /// Bits 15, 16, 17 and 50, as a 4-bit number in that order.
    pub fn metadata_features(&self) -> (r: u8)
        ensures
            r == ((self.0 >> 15) & 1) + 2 * ((self.0 >> 16) & 1) + 4 * ((self.0 >> 17) & 1) + 8 * ((
                self.0 >> 50) & 1),
    {
        let v = self.0;
        let b0 = (v >> 15) & 1;
        let b1 = (v >> 16) & 1;
        let b2 = (v >> 17) & 1;
        let b3 = (v >> 50) & 1;
        assert(b0 <= 1 && b1 <= 1 && b2 <= 1 && b3 <= 1) by (bit_vector)
            requires
                b0 == (v >> 15) & 1,
                b1 == (v >> 16) & 1,
                b2 == (v >> 17) & 1,
                b3 == (v >> 50) & 1,
        ;
        assert((b0 | (b1 << 1u64) | (b2 << 2u64) | (b3 << 3u64)) == b0 + 2 * b1 + 4 * b2 + 8 * b3)
            by (bit_vector)
            requires
                b0 <= 1,
                b1 <= 1,
                b2 <= 1,
                b3 <= 1,
        ;
        (b0 | (b1 << 1) | (b2 << 2) | (b3 << 3)) as u8
    }

    /// Bits 18 to 21, as a 4-bit number.
    pub fn audio_formats(&self) -> (r: u8)
        ensures
            r == (self.0 >> 18) & 0xF,
    {
        let x = self.0;
        let v = (x >> 18) & 0xF;
        assert(v <= 15) by (bit_vector)
            requires
                v == (x >> 18) & 0xF,
        ;
        v as u8
    }

    pub fn from_raw(value: u64) -> (r: Self)
        ensures
            r.0 == value,
    {
        Self(value)
    }

    pub fn raw(&self) -> (r: u64)
        ensures
            r == self.0,
    {
        self.0
    }

    /// The pairing a device asks for: MFi first, then HomeKit transient (unified MFi
    /// pairing or transient pairing), then FairPlay, else none.
    pub fn auth_method(&self) -> (r: AuthMethod)
        ensures
            r == auth_method_of(self.0),
    {
        if self.requires_mfi() {
            return AuthMethod::MfiRequired;
        }
        if self.supports_unified_pair_mfi() || self.supports_transient_pairing() {
            return AuthMethod::HomeKitTransient;
        }
        if self.requires_fairplay() {
            return AuthMethod::FairPlay;
        }
        AuthMethod::NotRequired
    }
}

/// `t` without a leading `0x` or `0X`.
pub open spec fn strip_hex_prefix(t: Seq<char>) -> Seq<char> {
    if starts_with(t, seq!['0', 'x']) || starts_with(t, seq!['0', 'X']) {
        t.skip(2)
    } else {
        t
    }
}

/// One hexadecimal half of a features value: trimmed, with an optional `0x`/`0X`.
pub open spec fn spec_parse_hex(part: Seq<char>) -> Result<u64, ParseErrorV> {
    let t = trimmed(part);
    let h = strip_hex_prefix(t);
    if h.len() == 0 {
        Err(ParseErrorV::InvalidHex("empty hex value"@))
    } else {
        match parse_unsigned(h, 16, u64::MAX as nat) {
            Some(v) => Ok(v as u64),
            None => Err(ParseErrorV::InvalidHex(t)),
        }
    }
}

/// A TXT `features` value: `lower` or `lower,upper`, each hexadecimal; the upper half
/// is shifted into bits 32..63 and or-ed with the lower one.
pub open spec fn spec_features_from_txt(s: Seq<char>) -> Result<u64, ParseErrorV> {
    let t = trimmed(s);
    if t.len() == 0 {
        Err(ParseErrorV::InvalidFormat("empty features string"@))
    } else {
        match find_char(t, ',') {
            Some(i) => match spec_parse_hex(t.take(i as int)) {
                Err(e) => Err(e),
                Ok(lo) => match spec_parse_hex(t.skip(i + 1 as int)) {
                    Err(e) => Err(e),
                    Ok(hi) => Ok(lo | (hi << 32u64)),
                },
            },
            None => spec_parse_hex(t),
        }
    }
}

/// The TXT form of feature bits `v`: `0x<lower>` or `0x<lower>,0x<upper>` in upper-case hex.
pub open spec fn spec_features_txt(v: u64) -> Seq<char> {
    let lo = v & 0xFFFF_FFFFu64;
    let hi = v >> 32u64;
    if hi == 0 {
        "0x"@ + hex(lo as nat)
    } else {
        "0x"@ + hex(lo as nat) + ",0x"@ + hex(hi as nat)
    }
}

fn parse_hex_part(part: &[char]) -> (r: Result<u64, ParseError>)
    ensures
        match r {
            Ok(v) => spec_parse_hex(part@) == Ok::<u64, ParseErrorV>(v),
            Err(e) => spec_parse_hex(part@) == Err::<u64, ParseErrorV>(e@),
        },
{
    let t = trim_chars(part);
    let h = if starts_with2(&t, '0', 'x') || starts_with2(&t, '0', 'X') {
        sub_chars(&t, 2, t.len())
    } else {
        sub_chars(&t, 0, t.len())
    };
    assert(h@ == strip_hex_prefix(t@));
    if h.len() == 0 {
        return Err(ParseError::InvalidHex("empty hex value".to_owned()));
    }
    match parse_unsigned_chars(&h, 16, u64::MAX) {
        Some(v) => Ok(v),
        None => Err(ParseError::InvalidHex(string_from_chars(&t))),
    }
}

impl Features {
    /// Parses a TXT `features` value.
    pub fn from_txt_value(s: &str) -> (r: Result<Self, ParseError>)
        ensures
            match r {
                Ok(f) => spec_features_from_txt(s@) == Ok::<u64, ParseErrorV>(f.0),
                Err(e) => spec_features_from_txt(s@) == Err::<u64, ParseErrorV>(e@),
            },
    {
        let cs = str_chars(s);
        let t = trim_chars(&cs);
        if t.len() == 0 {
            return Err(ParseError::InvalidFormat("empty features string".to_owned()));
        }
        match find_char_exec(&t, ',') {
            Some(i) => {
                let lo_part = sub_chars(&t, 0, i);
                let hi_part = sub_chars(&t, i + 1, t.len());
                assert(lo_part@ == t@.take(i as int));
                assert(hi_part@ == t@.skip(i + 1));
                let lo = parse_hex_part(&lo_part)?;
                let hi = parse_hex_part(&hi_part)?;
                Ok(Self(lo | (hi << 32)))
            },
            None => {
                let lo = parse_hex_part(&t)?;
                Ok(Self(lo))
            },
        }
    }

    /// The TXT form of the bits: `0xLOWER` or `0xLOWER,0xUPPER`.
    pub fn to_txt_value(&self) -> (r: String)
        ensures
            r@ == spec_features_txt(self.0),
    {
        let lo = self.0 & 0xFFFF_FFFF;
        let hi = self.0 >> 32;
        let mut out: Vec<char> = Vec::new();
        push_str(&mut out, "0x");
        push_radix(&mut out, lo as u128, 16);
        if hi != 0 {
            push_str(&mut out, ",0x");
            push_radix(&mut out, hi as u128, 16);
        }
        string_from_chars(&out)
    }
}

proof fn lemma_hex_part_roundtrip(n: u64)
    ensures
        spec_parse_hex(seq!['0', 'x'] + hex(n as nat)) == Ok::<u64, ParseErrorV>(n),
{
    let h = hex(n as nat);
    let p = seq!['0', 'x'] + h;
    lemma_radix_digits_value(n as nat, 16);
    lemma_digits_plain(h, 16);
    assert(p.last() == h[h.len() - 1]);
    lemma_trim_noop(p);
    assert(p.take(2) =~= seq!['0', 'x']);
    assert(p.skip(2) =~= h);
    lemma_parse_radix_digits(n as nat, 16, u64::MAX as nat);
}

/// Reading the TXT form of feature bits back gives the same bits.
#[verifier::rlimit(100)]
#[verifier::spinoff_prover]
pub proof fn law_features_txt_roundtrip(v: u64)
    ensures
        spec_features_from_txt(spec_features_txt(v)) == Ok::<u64, ParseErrorV>(v),
{
    reveal_strlit("0x");
    reveal_strlit(",0x");
    let lo = v & 0xFFFF_FFFFu64;
    let hi = v >> 32u64;
    assert(lo <= 0xFFFF_FFFFu64) by (bit_vector)
        requires
            lo == v & 0xFFFF_FFFFu64,
    ;
    let hl = hex(lo as nat);
    lemma_radix_digits_value(lo as nat, 16);
    lemma_digits_plain(hl, 16);
    lemma_hex_part_roundtrip(lo);
    let a = seq!['0', 'x'] + hl;
    if hi == 0 {
        assert(v == lo) by (bit_vector)
            requires
                lo == v & 0xFFFF_FFFFu64,
                (v >> 32u64) == 0,
        ;
        let t = spec_features_txt(v);
        assert(t =~= a);
        assert(t.last() == hl[hl.len() - 1]);
        lemma_trim_noop(t);
        assert forall|j: int| 0 <= j < t.len() implies t[j] != ',' by {
            if j >= 2 {
                assert(t[j] == hl[j - 2]);
            }
        }
        lemma_find_char(t, ',', t.len() as int);
    } else {
        let hh = hex(hi as nat);
        lemma_radix_digits_value(hi as nat, 16);
        lemma_digits_plain(hh, 16);
        lemma_hex_part_roundtrip(hi);
        let t = spec_features_txt(v);
        let b = seq!['0', 'x'] + hh;
        assert(t =~= a + seq![','] + b);
        assert(t.last() == hh[hh.len() - 1]);
        lemma_trim_noop(t);
        let i = a.len() as int;
        assert forall|j: int| 0 <= j < i implies t[j] != ',' by {
            if j >= 2 {
                assert(t[j] == hl[j - 2]);
            }
        }
        assert(t[i] == ',');
        lemma_find_char(t, ',', i);
        assert(t.take(i) =~= a);
        assert(t.skip(i + 1) =~= b);
        assert(lo | (hi << 32u64) == v) by (bit_vector)
            requires
                lo == v & 0xFFFF_FFFFu64,
                hi == v >> 32u64,
        ;
    }
}

/// The authentication method that the feature bits `v` ask for.
pub open spec fn auth_method_of(v: u64) -> AuthMethod {
    if has_bit(v, 26) {
        AuthMethod::MfiRequired
    } else if has_bit(v, 51) || has_bit(v, 48) {
        AuthMethod::HomeKitTransient
    } else if has_bit(v, 14) {
        AuthMethod::FairPlay
    } else {
        AuthMethod::NotRequired
    }
}

/// How a receiver authenticates, read from its features: MFi when bit 26 is set;
/// otherwise any receiver offering transient or unified pairing (bit 48 or 51) pairs
/// transiently, whether or not it also flags FairPlay (bit 14); FairPlay only when bit 14
/// is set and bits 26, 48 and 51 are clear; and no authentication when none of the four
/// is set.
pub proof fn law_auth_method_priority(v: u64)
    ensures
        (auth_method_of(v) == AuthMethod::MfiRequired) <==> has_bit(v, 26),
        !has_bit(v, 26) && (has_bit(v, 48) || has_bit(v, 51)) ==> auth_method_of(v) == AuthMethod::HomeKitTransient,
        (auth_method_of(v) == AuthMethod::FairPlay) <==> (has_bit(v, 14) && !has_bit(v, 26) && !has_bit(v, 48)
            && !has_bit(v, 51)),
        (auth_method_of(v) == AuthMethod::NotRequired) <==> (!has_bit(v, 14) && !has_bit(v, 26) && !has_bit(v, 48)
            && !has_bit(v, 51)),
{
}

} // verus!
