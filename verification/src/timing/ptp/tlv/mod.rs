//! Organisation extension TLVs of PTP messages.
use crate::bytes::{be16, be32, put_all, put_be16, put_be32};
use vstd::prelude::*;

pub mod apple_subtype;
pub mod gptp_subtype;
pub mod org_id;

verus! {

#[derive(Debug, Clone, Copy, PartialEq, Eq, Structural)]
pub enum TlvType {
    OrganizationExtension,
}

impl TlvType {
    /// The type's 16-bit code.
    pub fn code(&self) -> (r: u16)
        ensures
            r == 3,
    {
        match self {
            TlvType::OrganizationExtension => 0x0003,
        }
    }
}

#[derive(Debug, Clone)]
pub struct TlvHeader {
    pub tlv_type: u16,
    pub length: u16,
}

impl TlvHeader {
    pub fn serialize(&self) -> (r: [u8; 4])
        ensures
            r@ == be16(self.tlv_type) + be16(self.length),
    {
        let mut v: Vec<u8> = Vec::new();
        put_be16(&mut v, self.tlv_type);
        put_be16(&mut v, self.length);
        let r = [v[0], v[1], v[2], v[3]];
        assert(r@ =~= be16(self.tlv_type) + be16(self.length));
        r
    }
}

#[derive(Debug, Clone)]
pub struct FollowUpInformationTlv {
    pub organization_id: [u8; 3],
    pub organization_subtype: [u8; 3],
    pub cumulative_scaled_rate_offset: i32,
    pub gm_time_base_indicator: u16,
    pub last_gm_phase_change: [u8; 12],
    pub scaled_last_gm_freq_change: i32,
}

/// A Follow_Up information TLV on the wire: type 3, length 28, then the fields.
pub open spec fn follow_up_tlv_bytes(t: FollowUpInformationTlv) -> Seq<u8> {
    be16(3) + be16(28) + t.organization_id@ + t.organization_subtype@ + be32(
        t.cumulative_scaled_rate_offset as u32,
    ) + be16(t.gm_time_base_indicator) + t.last_gm_phase_change@ + be32(
        t.scaled_last_gm_freq_change as u32,
    )
}

impl FollowUpInformationTlv {
    /// The gPTP Follow_Up information TLV with every value zero.
    pub fn new() -> (r: Self)
        ensures
            r.organization_id@ == seq![0x00u8, 0x80u8, 0xC2u8],
            r.organization_subtype@ == seq![0x00u8, 0x00u8, 0x01u8],
            r.cumulative_scaled_rate_offset == 0,
            r.gm_time_base_indicator == 0,
            r.last_gm_phase_change@ == seq![0u8; 12],
            r.scaled_last_gm_freq_change == 0,
    {
        let r = Self {
            organization_id: org_id::GPTP,
            organization_subtype: gptp_subtype::FOLLOW_UP_INFO,
            cumulative_scaled_rate_offset: 0,
            gm_time_base_indicator: 0,
            last_gm_phase_change: [0u8; 12],
            scaled_last_gm_freq_change: 0,
        };
        assert(r.organization_id@ =~= seq![0x00u8, 0x80u8, 0xC2u8]);
        assert(r.organization_subtype@ =~= seq![0x00u8, 0x00u8, 0x01u8]);
        assert(r.last_gm_phase_change@ =~= seq![0u8; 12]);
        r
    }

    pub fn serialize(&self) -> (r: Vec<u8>)
        ensures
            r@ == follow_up_tlv_bytes(*self),
    {
        let header = TlvHeader { tlv_type: TlvType::OrganizationExtension.code(), length: 28 };
        let mut buf: Vec<u8> = Vec::new();
        put_all(&mut buf, &header.serialize());
        put_all(&mut buf, &self.organization_id);
        put_all(&mut buf, &self.organization_subtype);
        put_be32(&mut buf, self.cumulative_scaled_rate_offset as u32);
        put_be16(&mut buf, self.gm_time_base_indicator);
        put_all(&mut buf, &self.last_gm_phase_change);
        put_be32(&mut buf, self.scaled_last_gm_freq_change as u32);
        buf
    }
}

#[derive(Debug, Clone)]
pub struct MessageIntervalRequestTlv {
    pub organization_id: [u8; 3],
    pub organization_subtype: [u8; 3],
    pub link_delay_interval: i8,
    pub time_sync_interval: i8,
    pub announce_interval: i8,
    pub flags: u8,
}

/// A message interval request TLV on the wire: type 3, length 10, then the fields.
pub open spec fn interval_tlv_bytes(t: MessageIntervalRequestTlv) -> Seq<u8> {
    be16(3) + be16(10) + t.organization_id@ + t.organization_subtype@ + seq![
        t.link_delay_interval as u8,
        t.time_sync_interval as u8,
        t.announce_interval as u8,
        t.flags,
    ]
}

impl MessageIntervalRequestTlv {
    /// A gPTP interval request: link-delay and sync intervals both `sync_interval`,
    /// flags `0x02`.
    pub fn new(sync_interval: i8, announce_interval: i8) -> (r: Self)
        ensures
            r.organization_id@ == seq![0x00u8, 0x80u8, 0xC2u8],
            r.organization_subtype@ == seq![0x00u8, 0x00u8, 0x02u8],
            r.link_delay_interval == sync_interval,
            r.time_sync_interval == sync_interval,
            r.announce_interval == announce_interval,
            r.flags == 0x02,
    {
        let r = Self {
            organization_id: org_id::GPTP,
            organization_subtype: gptp_subtype::MESSAGE_INTERVAL_REQUEST,
            link_delay_interval: sync_interval,
            time_sync_interval: sync_interval,
            announce_interval,
            flags: 0x02,
        };
        assert(r.organization_id@ =~= seq![0x00u8, 0x80u8, 0xC2u8]);
        assert(r.organization_subtype@ =~= seq![0x00u8, 0x00u8, 0x02u8]);
        r
    }

    pub fn serialize(&self) -> (r: Vec<u8>)
        ensures
            r@ == interval_tlv_bytes(*self),
    {
        let header = TlvHeader { tlv_type: TlvType::OrganizationExtension.code(), length: 10 };
        let mut buf: Vec<u8> = Vec::new();
        put_all(&mut buf, &header.serialize());
        put_all(&mut buf, &self.organization_id);
        put_all(&mut buf, &self.organization_subtype);
        buf.push(self.link_delay_interval as u8);
        buf.push(self.time_sync_interval as u8);
        buf.push(self.announce_interval as u8);
        buf.push(self.flags);
        assert(buf@ =~= interval_tlv_bytes(*self));
        buf
    }
}

#[derive(Debug, Clone)]
pub struct AppleTlv {
    pub organization_id: [u8; 3],
    pub organization_subtype: [u8; 3],
    pub payload: Vec<u8>,
}

/// An Apple TLV on the wire: type 3, the length of what follows (16 bits, wrapping),
/// then the identifiers and the payload.
pub open spec fn apple_tlv_bytes(oid: Seq<u8>, sub: Seq<u8>, payload: Seq<u8>) -> Seq<u8> {
    be16(3) + be16(((6 + payload.len()) % 0x1_0000) as u16) + oid + sub + payload
}

impl AppleTlv {
    pub fn new(subtype: [u8; 3], payload: Vec<u8>) -> (r: Self)
        ensures
            r.organization_id@ == seq![0x00u8, 0x0Du8, 0x93u8],
            r.organization_subtype@ == subtype@,
            r.payload@ == payload@,
    {
        let r = Self { organization_id: org_id::APPLE, organization_subtype: subtype, payload };
        assert(r.organization_id@ =~= seq![0x00u8, 0x0Du8, 0x93u8]);
        r
    }

    pub fn serialize(&self) -> (r: Vec<u8>)
        ensures
            r@ == apple_tlv_bytes(self.organization_id@, self.organization_subtype@, self.payload@),
    {
        let len: usize = self.payload.len();
        let low: u16 = (len % 0x1_0000) as u16;
        let length: u16 = low.wrapping_add(6);
        assert(length == (6 + len) % 0x1_0000);
        let header = TlvHeader { tlv_type: TlvType::OrganizationExtension.code(), length };
        let mut buf: Vec<u8> = Vec::new();
        put_all(&mut buf, &header.serialize());
        put_all(&mut buf, &self.organization_id);
        put_all(&mut buf, &self.organization_subtype);
        put_all(&mut buf, self.payload.as_slice());
        buf
    }
}

} // verus!
