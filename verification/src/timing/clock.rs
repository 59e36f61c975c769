//! Wall-clock time and its NTP form.
use vstd::prelude::*;

verus! {

/// Seconds from the NTP epoch (1900) to the Unix epoch (1970).
pub const NTP_EPOCH_OFFSET: u64 = 2_208_988_800;

#[derive(Debug, Clone, Copy)]
#[non_exhaustive]
pub struct ClockOffset {
    pub offset_ns: i64,
    pub error_ns: u64,
    pub rtt_ns: u64,
}

impl Default for ClockOffset {
    fn default() -> (r: Self)
        ensures
            r.offset_ns == 0 && r.error_ns == 0 && r.rtt_ns == 0,
    {
        ClockOffset { offset_ns: 0, error_ns: 0, rtt_ns: 0 }
    }
}

impl ClockOffset {
    pub fn new(offset_ns: i64, error_ns: u64, rtt_ns: u64) -> (r: Self)
        ensures
            r.offset_ns == offset_ns && r.error_ns == error_ns && r.rtt_ns == rtt_ns,
    {
        ClockOffset { offset_ns, error_ns, rtt_ns }
    }
}

#[derive(Debug, Clone, Copy, Default)]
pub struct Clock;

/// std `SystemTime::now().duration_since(UNIX_EPOCH)` in nanoseconds, zero for a clock
/// set before 1970, truncated to 64 bits. Nothing is claimed of the value: it is the time.
#[verifier::external_body]
fn system_time_ns() -> u64 {
    std::time::SystemTime::now().duration_since(std::time::UNIX_EPOCH).unwrap_or(
        std::time::Duration::ZERO,
    ).as_nanos() as u64
}

/// A Unix time in nanoseconds as a 64-bit NTP timestamp: seconds since 1900 in the high
/// 32 bits (wrapping), the fraction of a second in units of 2^-32 s (rounded down) in
/// the low 32 bits.
pub open spec fn unix_to_ntp_spec(unix_ns: u64) -> u64 {
    ((((unix_ns / 1_000_000_000) + NTP_EPOCH_OFFSET) % 0x1_0000_0000) * 0x1_0000_0000 + (unix_ns
        % 1_000_000_000) * 0x1_0000_0000 / 1_000_000_000) as u64
}

pub fn unix_to_ntp(unix_ns: u64) -> (r: u64)
    ensures
        r == unix_to_ntp_spec(unix_ns),
{
    let unix_secs: u64 = unix_ns / 1_000_000_000;
    let frac_ns: u64 = unix_ns % 1_000_000_000;
    let ntp_secs: u64 = unix_secs + NTP_EPOCH_OFFSET;
    let hi: u64 = ntp_secs % 0x1_0000_0000;
    assert(frac_ns * 0x1_0000_0000 < 1_000_000_000 * 0x1_0000_0000) by (nonlinear_arith)
        requires
            frac_ns < 1_000_000_000,
    ;
    let ntp_frac: u64 = frac_ns * 0x1_0000_0000 / 1_000_000_000;
    assert(ntp_frac < 0x1_0000_0000) by (nonlinear_arith)
        requires
            ntp_frac == frac_ns * 0x1_0000_0000 / 1_000_000_000,
            frac_ns < 1_000_000_000,
    ;
    assert(hi * 0x1_0000_0000 + ntp_frac <= u64::MAX) by (nonlinear_arith)
        requires
            hi < 0x1_0000_0000,
            ntp_frac < 0x1_0000_0000,
    ;
    hi * 0x1_0000_0000 + ntp_frac
}

/// `local_ns` read as a signed number (two's complement).
pub open spec fn as_signed(v: u64) -> int {
    if v < 0x8000_0000_0000_0000 {
        v as int
    } else {
        v - 0x1_0000_0000_0000_0000
    }
}

/// `local_ns` moved by `offset_ns` in signed 64-bit arithmetic, read back unsigned.
pub open spec fn apply_offset_spec(local_ns: u64, offset_ns: i64) -> u64 {
    let s = as_signed(local_ns) + offset_ns;
    (if s >= 0 {
        s
    } else {
        s + 0x1_0000_0000_0000_0000
    }) as u64
}

impl Clock {
    pub fn new() -> (r: Self) {
        Clock
    }

    /// The current time since the Unix epoch in nanoseconds.
    pub fn now_wall_ns(&self) -> u64 {
        system_time_ns()
    }

    /// The current time as an NTP timestamp.
    pub fn now_ntp(&self) -> (r: u64)
        ensures
            exists|t: u64| r == unix_to_ntp_spec(t),
    {
        let t = self.now_wall_ns();
        unix_to_ntp(t)
    }

    /// A local time corrected by an offset; the signed sum must fit in 64 bits.
    pub fn apply_offset(&self, local_ns: u64, offset: &ClockOffset) -> (r: u64)
        requires
            i64::MIN <= as_signed(local_ns) + offset.offset_ns <= i64::MAX,
        ensures
            r == apply_offset_spec(local_ns, offset.offset_ns),
    {
        let l: i64 = if local_ns < 0x8000_0000_0000_0000 {
            local_ns as i64
        } else {
            let d: u64 = local_ns - 0x8000_0000_0000_0000;
            (d as i64) - 0x7FFF_FFFF_FFFF_FFFF - 1
        };
        let s: i64 = l + offset.offset_ns;
        if s >= 0 {
            s as u64
        } else {
            let m: u64 = ((s + 1) + 0x7FFF_FFFF_FFFF_FFFF) as u64;
            m + 0x8000_0000_0000_0000
        }
    }
}

} // verus!
