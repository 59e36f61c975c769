//! Stream statistics: packets sent and retransmissions asked for and made, overall and per
//! receiver. Counters wrap around at 2^64.
use crate::audio::streamer::AudioStreamer;
use vstd::prelude::*;

verus! {

#[derive(Debug)]
pub struct DeviceStreamStats {
    pub rtx_requested: u64,
    pub rtx_fulfilled: u64,
}

#[derive(Debug, Clone, Copy, Default)]
#[non_exhaustive]
pub struct DeviceStatsSnapshot {
    pub rtx_requested: u64,
    pub rtx_fulfilled: u64,
}

#[derive(Debug, Clone, Default)]
#[non_exhaustive]
pub struct StatsSnapshot {
    pub packets_sent: u64,
    pub rtx_requested: u64,
    pub rtx_fulfilled: u64,
    pub underruns: u64,
    pub devices: Vec<DeviceStatsSnapshot>,
}

#[derive(Debug)]
#[non_exhaustive]
pub struct StreamStats {
    pub packets_sent: u64,
    pub rtx_requested: u64,
    pub rtx_fulfilled: u64,
    device_stats: Vec<DeviceStreamStats>,
}

/// A per-receiver counter pair as plain numbers.
pub open spec fn device_view(d: DeviceStreamStats) -> (u64, u64) {
    (d.rtx_requested, d.rtx_fulfilled)
}

/// `a + b` modulo 2^64.
pub open spec fn wrap_add(a: u64, b: int) -> u64 {
    ((a + b) % 0x1_0000_0000_0000_0000) as u64
}

impl DeviceStreamStats {
    fn new() -> (r: Self)
        ensures
            r.rtx_requested == 0 && r.rtx_fulfilled == 0,
    {
        Self { rtx_requested: 0, rtx_fulfilled: 0 }
    }

    fn snapshot(&self) -> (r: DeviceStatsSnapshot)
        ensures
            r.rtx_requested == self.rtx_requested && r.rtx_fulfilled == self.rtx_fulfilled,
    {
        DeviceStatsSnapshot { rtx_requested: self.rtx_requested, rtx_fulfilled: self.rtx_fulfilled }
    }
}

impl StreamStats {
    /// The per-receiver counters, in receiver order.
    pub closed spec fn devices(&self) -> Seq<(u64, u64)> {
        self.device_stats@.map_values(|d: DeviceStreamStats| device_view(d))
    }

    /// The overall counters: packets sent, retransmissions asked for, retransmissions made.
    pub closed spec fn totals(&self) -> (u64, u64, u64) {
        (self.packets_sent, self.rtx_requested, self.rtx_fulfilled)
    }

    /// All counters zero, no per-receiver counters.
    pub fn new() -> (r: Self)
        ensures
            r.totals() == (0u64, 0u64, 0u64),
            r.devices().len() == 0,
    {
        let r = Self { packets_sent: 0, rtx_requested: 0, rtx_fulfilled: 0, device_stats: Vec::new() };
        assert(r.devices() =~= Seq::<(u64, u64)>::empty());
        r
    }

    /// All counters zero, with counters for `count` receivers.
    pub fn with_device_count(count: usize) -> (r: Self)
        ensures
            r.totals() == (0u64, 0u64, 0u64),
            r.devices() == Seq::new(count as nat, |i: int| (0u64, 0u64)),
    {
        let mut device_stats: Vec<DeviceStreamStats> = Vec::new();
        let mut i: usize = 0;
        while i < count
            invariant
                i <= count,
                device_stats@.map_values(|d: DeviceStreamStats| device_view(d)) == Seq::new(
                    i as nat,
                    |k: int| (0u64, 0u64),
                ),
            decreases count - i,
        {
            let ghost before = device_stats@;
            let d = DeviceStreamStats::new();
            assert(device_view(d) == (0u64, 0u64));
            device_stats.push(d);
            assert(device_stats@.map_values(|d: DeviceStreamStats| device_view(d)) =~= before.map_values(
                |d: DeviceStreamStats| device_view(d),
            ).push((0u64, 0u64)));
            i = i + 1;
            assert(device_stats@.map_values(|d: DeviceStreamStats| device_view(d)) =~= Seq::new(
                i as nat,
                |k: int| (0u64, 0u64),
            ));
        }
        Self { packets_sent: 0, rtx_requested: 0, rtx_fulfilled: 0, device_stats }
    }

    /// The counters of receiver `index`, if there is one.
    pub fn device(&self, index: usize) -> (r: Option<&DeviceStreamStats>)
        ensures
            index < self.devices().len() ==> (r matches Some(d) && device_view(*d) == self.devices()[index as int]),
            index >= self.devices().len() ==> r is None,
    {
        if index < self.device_stats.len() {
            Some(&self.device_stats[index])
        } else {
            None
        }
    }

    /// The counters as they stand; underruns are filled in by the caller.
    pub fn snapshot(&self) -> (r: StatsSnapshot)
        ensures
            (r.packets_sent, r.rtx_requested, r.rtx_fulfilled) == self.totals(),
            r.underruns == 0,
            r.devices@.map_values(|d: DeviceStatsSnapshot| (d.rtx_requested, d.rtx_fulfilled)) == self.devices(),
    {
        let mut devices: Vec<DeviceStatsSnapshot> = Vec::new();
        let mut i: usize = 0;
        while i < self.device_stats.len()
            invariant
                i <= self.device_stats@.len(),
                devices@.map_values(|d: DeviceStatsSnapshot| (d.rtx_requested, d.rtx_fulfilled)) == self.devices().take(
                    i as int,
                ),
            decreases self.device_stats@.len() - i,
        {
            let ghost before = devices@;
            let d = self.device_stats[i].snapshot();
            assert((d.rtx_requested, d.rtx_fulfilled) == self.devices()[i as int]);
            devices.push(d);
            assert(devices@.map_values(|d: DeviceStatsSnapshot| (d.rtx_requested, d.rtx_fulfilled)) =~= before.map_values(
                |d: DeviceStatsSnapshot| (d.rtx_requested, d.rtx_fulfilled),
            ).push(self.devices()[i as int]));
            i = i + 1;
            assert(devices@.map_values(|d: DeviceStatsSnapshot| (d.rtx_requested, d.rtx_fulfilled)) =~= self.devices().take(
                i as int,
            ));
        }
        assert(self.devices().take(i as int) =~= self.devices());
        StatsSnapshot {
            packets_sent: self.packets_sent,
            rtx_requested: self.rtx_requested,
            rtx_fulfilled: self.rtx_fulfilled,
            underruns: 0,
            devices,
        }
    }

    /// The snapshot of a group: the streamer's packet and underrun counts where the group
    /// has a streamer.
    pub fn group_snapshot(&self, streamer: Option<&AudioStreamer>) -> (r: StatsSnapshot)
        ensures
            r.rtx_requested == self.totals().1,
            r.rtx_fulfilled == self.totals().2,
            r.devices@.map_values(|d: DeviceStatsSnapshot| (d.rtx_requested, d.rtx_fulfilled)) == self.devices(),
            match streamer {
                Some(s) => r.packets_sent == s.control().packets_sent && r.underruns == s.control().underruns,
                None => r.packets_sent == self.totals().0 && r.underruns == 0,
            },
    {
        let mut snap = self.snapshot();
        if let Some(s) = streamer {
            snap.packets_sent = s.packets_sent();
            snap.underruns = s.underruns();
        }
        snap
    }

    /// The snapshot of a single connection: the streamer's packet and underrun counts, zero
    /// without a streamer.
    pub fn connection_snapshot(&self, streamer: Option<&AudioStreamer>) -> (r: StatsSnapshot)
        ensures
            r.rtx_requested == self.totals().1,
            r.rtx_fulfilled == self.totals().2,
            r.devices@.map_values(|d: DeviceStatsSnapshot| (d.rtx_requested, d.rtx_fulfilled)) == self.devices(),
            match streamer {
                Some(s) => r.packets_sent == s.control().packets_sent && r.underruns == s.control().underruns,
                None => r.packets_sent == 0 && r.underruns == 0,
            },
    {
        let mut snap = self.snapshot();
        match streamer {
            Some(s) => {
                snap.packets_sent = s.packets_sent();
                snap.underruns = s.underruns();
            },
            None => {
                snap.packets_sent = 0;
                snap.underruns = 0;
            },
        }
        snap
    }

    /// Counts a request for `count` packets, overall and for receiver `index` if given
    /// and known.
    pub fn record_request(&mut self, index: Option<usize>, count: u16)
        ensures
            final(self).totals() == (
                old(self).totals().0,
                wrap_add(old(self).totals().1, count as int),
                old(self).totals().2,
            ),
            final(self).devices() == (match index {
                Some(i) if i < old(self).devices().len() => old(self).devices().update(
                    i as int,
                    (wrap_add(old(self).devices()[i as int].0, count as int), old(self).devices()[i as int].1),
                ),
                _ => old(self).devices(),
            }),
    {
        self.rtx_requested = self.rtx_requested.wrapping_add(count as u64);
        if let Some(i) = index {
            if i < self.device_stats.len() {
                let ghost before = self.devices();
                let v = self.device_stats[i].rtx_requested.wrapping_add(count as u64);
                let f = self.device_stats[i].rtx_fulfilled;
                self.device_stats.set(i, DeviceStreamStats { rtx_requested: v, rtx_fulfilled: f });
                assert(self.devices() =~= before.update(i as int, (v, f)));
            }
        }
    }

    /// Counts `n` packets resent, overall and for receiver `index` if given and known;
    /// nothing when `n` is zero.
    pub fn record_fulfilled(&mut self, index: Option<usize>, n: u64)
        ensures
            n == 0 ==> final(self).totals() == old(self).totals() && final(self).devices() == old(self).devices(),
            n > 0 ==> final(self).totals() == (
                old(self).totals().0,
                old(self).totals().1,
                wrap_add(old(self).totals().2, n as int),
            ),
            n > 0 ==> final(self).devices() == (match index {
                Some(i) if i < old(self).devices().len() => old(self).devices().update(
                    i as int,
                    (old(self).devices()[i as int].0, wrap_add(old(self).devices()[i as int].1, n as int)),
                ),
                _ => old(self).devices(),
            }),
    {
        if n == 0 {
            return;
        }
        self.rtx_fulfilled = self.rtx_fulfilled.wrapping_add(n);
        if let Some(i) = index {
            if i < self.device_stats.len() {
                let ghost before = self.devices();
                let q = self.device_stats[i].rtx_requested;
                let v = self.device_stats[i].rtx_fulfilled.wrapping_add(n);
                self.device_stats.set(i, DeviceStreamStats { rtx_requested: q, rtx_fulfilled: v });
                assert(self.devices() =~= before.update(i as int, (q, v)));
            }
        }
    }
}

} // verus!
