//! The decisions of the real-time sender: bursts, pacing deadlines, pause and stop, and
//! which datagram goes to which receiver. The thread that owns the sockets, receives the
//! messages and sleeps runs this state machine.
use crate::bytes::put_all;
use vstd::prelude::*;

verus! {

/// What the streaming loop sends to the sender thread.
pub enum SenderMessage {
    /// The packets of one frame: one audio packet per receiver and an optional sync packet.
    Packet { wire_packets: Vec<Vec<u8>>, sync_data: Option<Vec<u8>> },
    Pause,
    Resume,
    Stop,
}

/// What waiting on the channel gave.
pub enum SenderEvent {
    Message(SenderMessage),
    /// Nothing arrived in time.
    Timeout,
    /// The streaming side has gone.
    Disconnected,
}

/// One datagram: for receiver `target`, over its control route (its control socket and
/// destination where it has them, else its data ones) or its data route.
pub struct Datagram {
    pub target: usize,
    pub control: bool,
    pub bytes: Vec<u8>,
}

/// What the sender thread does next.
pub enum SenderAction {
    /// Wait for the next message.
    Receive,
    /// Sleep until `wake_at_ns` (if any), send the datagrams in order, then report the
    /// time with `burst_sent`.
    SendBurst { wake_at_ns: Option<u64>, datagrams: Vec<Datagram> },
    /// Leave the loop.
    Exit,
}

/// A queued frame: its audio packets and its sync packet.
pub type BurstEntry = (Vec<Vec<u8>>, Option<Vec<u8>>);

pub struct SenderLoop {
    target_count: usize,
    burst_size: usize,
    burst_duration_ns: u64,
    started: bool,
    paused: bool,
    next_deadline_ns: u64,
    burst_buffer: Vec<BurstEntry>,
}

/// The view of a queued frame.
pub open spec fn entry_view(e: BurstEntry) -> (Seq<Seq<u8>>, Option<Seq<u8>>) {
    (
        e.0@.map_values(|v: Vec<u8>| v@),
        match e.1 {
            Some(v) => Some(v@),
            None => None,
        },
    )
}

/// The view of a datagram.
pub open spec fn datagram_view(d: Datagram) -> (nat, bool, Seq<u8>) {
    (d.target as nat, d.control, d.bytes@)
}

/// The datagrams of one frame for `n` receivers: the sync packet to every receiver over
/// its control route, then audio packet `i` to receiver `i` for each receiver that has one.
pub open spec fn entry_datagrams(wire: Seq<Seq<u8>>, sync: Option<Seq<u8>>, n: nat) -> Seq<(nat, bool, Seq<u8>)> {
    let syncs = match sync {
        Some(s) => Seq::new(n, |i: int| (i as nat, true, s)),
        None => Seq::empty(),
    };
    let k = if wire.len() < n {
        wire.len()
    } else {
        n
    };
    syncs + Seq::new(k, |i: int| (i as nat, false, wire[i]))
}

/// The datagrams of a burst: those of each frame, oldest frame first.
pub open spec fn burst_datagrams(b: Seq<(Seq<Seq<u8>>, Option<Seq<u8>>)>, n: nat) -> Seq<(nat, bool, Seq<u8>)>
    decreases b.len(),
{
    if b.len() == 0 {
        Seq::empty()
    } else {
        burst_datagrams(b.drop_last(), n) + entry_datagrams(b.last().0, b.last().1, n)
    }
}

/// A copy of `s`.
fn copy_of(s: &[u8]) -> (r: Vec<u8>)
    ensures
        r@ == s@,
{
    let mut r: Vec<u8> = Vec::new();
    put_all(&mut r, s);
    r
}

/// Appends the datagrams of one frame.
fn push_entry_datagrams(out: &mut Vec<Datagram>, entry: &BurstEntry, n: usize)
    ensures
        final(out)@.map_values(|d: Datagram| datagram_view(d)) == old(out)@.map_values(
            |d: Datagram| datagram_view(d),
        ) + entry_datagrams(entry_view(*entry).0, entry_view(*entry).1, n as nat),
{
    let ghost start = old(out)@.map_values(|d: Datagram| datagram_view(d));
    let ghost ev = entry_view(*entry);
    let ghost syncs: Seq<(nat, bool, Seq<u8>)> = match ev.1 {
        Some(s) => Seq::new(n as nat, |i: int| (i as nat, true, s)),
        None => Seq::empty(),
    };
    match &entry.1 {
        Some(sync) => {
            let mut t: usize = 0;
            while t < n
                invariant
                    t <= n,
                    ev == entry_view(*entry),
                    ev.1 == Some(sync@),
                    out@.map_values(|d: Datagram| datagram_view(d)) == start + Seq::new(
                        t as nat,
                        |i: int| (i as nat, true, sync@),
                    ),
                decreases n - t,
            {
                let ghost before = out@.map_values(|d: Datagram| datagram_view(d));
                out.push(Datagram { target: t, control: true, bytes: copy_of(sync.as_slice()) });
                assert(out@.map_values(|d: Datagram| datagram_view(d)) =~= before.push((t as nat, true, sync@)));
                assert(start + Seq::new((t + 1) as nat, |i: int| (i as nat, true, sync@)) =~= (start
                    + Seq::new(t as nat, |i: int| (i as nat, true, sync@))).push((t as nat, true, sync@)));
                t = t + 1;
            }
        },
        None => {
            assert(start + syncs =~= start);
        },
    }
    let wire = &entry.0;
    let k: usize = if wire.len() < n {
        wire.len()
    } else {
        n
    };
    let ghost mid = out@.map_values(|d: Datagram| datagram_view(d));
    assert(mid == start + syncs);
    let mut t: usize = 0;
    while t < k
        invariant
            t <= k,
            k <= wire@.len(),
            ev == entry_view(*entry),
            wire == &entry.0,
            out@.map_values(|d: Datagram| datagram_view(d)) == mid + Seq::new(
                t as nat,
                |i: int| (i as nat, false, ev.0[i]),
            ),
        decreases k - t,
    {
        let ghost before = out@.map_values(|d: Datagram| datagram_view(d));
        out.push(Datagram { target: t, control: false, bytes: copy_of(wire[t].as_slice()) });
        assert(ev.0[t as int] == wire@[t as int]@);
        assert(out@.map_values(|d: Datagram| datagram_view(d)) =~= before.push((t as nat, false, ev.0[t as int])));
        assert(mid + Seq::new((t + 1) as nat, |i: int| (i as nat, false, ev.0[i])) =~= (mid + Seq::new(
            t as nat,
            |i: int| (i as nat, false, ev.0[i]),
        )).push((t as nat, false, ev.0[t as int])));
        t = t + 1;
    }
    assert(ev.0.len() == wire@.len());
    assert(out@.map_values(|d: Datagram| datagram_view(d)) =~= start + entry_datagrams(ev.0, ev.1, n as nat));
}

impl SenderLoop {
    /// The burst size is at least one.
    pub closed spec fn wf(&self) -> bool {
        self.burst_size >= 1
    }

    pub closed spec fn target_count(&self) -> nat {
        self.target_count as nat
    }

    pub closed spec fn burst_size(&self) -> nat {
        self.burst_size as nat
    }

    pub closed spec fn burst_duration(&self) -> u64 {
        self.burst_duration_ns
    }

    pub closed spec fn started(&self) -> bool {
        self.started
    }

    pub closed spec fn paused(&self) -> bool {
        self.paused
    }

    pub closed spec fn next_deadline(&self) -> u64 {
        self.next_deadline_ns
    }

    /// The frames queued for the next burst, oldest first.
    pub closed spec fn queued(&self) -> Seq<(Seq<Seq<u8>>, Option<Seq<u8>>)> {
        self.burst_buffer@.map_values(|e: BurstEntry| entry_view(e))
    }

    /// A sender for `target_count` receivers that sends `burst_size` frames at a time (at
    /// least one), a frame every `frame_duration_ns`.
    pub fn new(target_count: usize, frame_duration_ns: u64, burst_size: usize) -> (r: Self)
        requires
            frame_duration_ns * (if burst_size == 0 {
                1
            } else {
                burst_size as int
            }) <= u64::MAX,
        ensures
            r.wf(),
            r.target_count() == target_count,
            r.burst_size() == (if burst_size == 0 {
                1
            } else {
                burst_size as nat
            }),
            r.burst_duration() == frame_duration_ns * r.burst_size(),
            !r.started(),
            !r.paused(),
            r.next_deadline() == 0,
            r.queued().len() == 0,
    {
        let burst: usize = if burst_size == 0 {
            1
        } else {
            burst_size
        };
        let r = SenderLoop {
            target_count,
            burst_size: burst,
            burst_duration_ns: frame_duration_ns * burst as u64,
            started: false,
            paused: false,
            next_deadline_ns: 0,
            burst_buffer: Vec::new(),
        };
        assert(r.queued() =~= Seq::empty());
        r
    }

    /// The next deadline can advance by two bursts without leaving 64 bits, as
    /// `burst_sent` needs.
    pub fn deadline_fits(&self) -> (r: bool)
        ensures
            r == (self.next_deadline() + 2 * self.burst_duration() <= u64::MAX),
    {
        self.next_deadline_ns as u128 + 2 * self.burst_duration_ns as u128 <= u64::MAX as u128
    }

    /// The decision for one event at time `now_ns`.
    ///
    /// While paused only `Resume` (which restarts the deadline at now) and `Stop` count;
    /// everything else, frames included, is dropped. Otherwise a timeout waits again, a
    /// closed channel or `Stop` ends the loop, `Pause` pauses, `Resume` restarts the
    /// deadline, and a frame is queued. A full burst (or the very first frame) is sent: the
    /// first at once, starting the deadline at now, the others at the deadline.
    pub fn on_event(&mut self, event: SenderEvent, now_ns: u64) -> (r: SenderAction)
        requires
            old(self).wf(),
        ensures
            final(self).wf(),
            final(self).target_count() == old(self).target_count(),
            final(self).burst_size() == old(self).burst_size(),
            final(self).burst_duration() == old(self).burst_duration(),
            old(self).paused() ==> match event {
                SenderEvent::Message(SenderMessage::Resume) => r is Receive && !final(self).paused()
                    && final(self).next_deadline() == now_ns && final(self).started() == old(self).started()
                    && final(self).queued() == old(self).queued(),
                SenderEvent::Message(SenderMessage::Stop) => r is Exit,
                _ => r is Receive && final(self).paused() && final(self).next_deadline() == old(self).next_deadline()
                    && final(self).started() == old(self).started() && final(self).queued() == old(self).queued(),
            },
            !old(self).paused() ==> match event {
                SenderEvent::Timeout => r is Receive && final(self).paused() == old(self).paused()
                    && final(self).next_deadline() == old(self).next_deadline() && final(self).started() == old(
                    self).started() && final(self).queued() == old(self).queued(),
                SenderEvent::Disconnected => r is Exit,
                SenderEvent::Message(SenderMessage::Stop) => r is Exit,
                SenderEvent::Message(SenderMessage::Pause) => r is Receive && final(self).paused()
                    && final(self).next_deadline() == old(self).next_deadline() && final(self).started() == old(
                    self).started() && final(self).queued() == old(self).queued(),
                SenderEvent::Message(SenderMessage::Resume) => r is Receive && !final(self).paused()
                    && final(self).next_deadline() == now_ns && final(self).started() == old(self).started()
                    && final(self).queued() == old(self).queued(),
                SenderEvent::Message(SenderMessage::Packet { wire_packets, sync_data }) => {
                    let q = old(self).queued().push(
                        entry_view((wire_packets, sync_data)),
                    );
                    &&& !final(self).paused()
                    &&& if q.len() < old(self).burst_size() && old(self).started() {
                        &&& r is Receive
                        &&& final(self).queued() == q
                        &&& final(self).started()
                        &&& final(self).next_deadline() == old(self).next_deadline()
                    } else {
                        &&& final(self).queued().len() == 0
                        &&& final(self).started()
                        &&& final(self).next_deadline() == (if old(self).started() {
                            old(self).next_deadline()
                        } else {
                            now_ns
                        })
                        &&& r matches SenderAction::SendBurst { wake_at_ns, datagrams }
                        &&& wake_at_ns == (if old(self).started() {
                            Some(old(self).next_deadline())
                        } else {
                            None
                        })
                        &&& datagrams@.map_values(|d: Datagram| datagram_view(d)) == burst_datagrams(
                            q,
                            old(self).target_count(),
                        )
                    }
                },
            },
    {
        if self.paused {
            return match event {
                SenderEvent::Message(SenderMessage::Resume) => {
                    self.paused = false;
                    self.next_deadline_ns = now_ns;
                    SenderAction::Receive
                },
                SenderEvent::Message(SenderMessage::Stop) => SenderAction::Exit,
                _ => SenderAction::Receive,
            };
        }
        match event {
            SenderEvent::Timeout => SenderAction::Receive,
            SenderEvent::Disconnected => SenderAction::Exit,
            SenderEvent::Message(SenderMessage::Stop) => SenderAction::Exit,
            SenderEvent::Message(SenderMessage::Pause) => {
                self.paused = true;
                SenderAction::Receive
            },
            SenderEvent::Message(SenderMessage::Resume) => {
                self.next_deadline_ns = now_ns;
                SenderAction::Receive
            },
            SenderEvent::Message(SenderMessage::Packet { wire_packets, sync_data }) => {
                let ghost q = self.queued().push(entry_view((wire_packets, sync_data)));
                self.burst_buffer.push((wire_packets, sync_data));
                assert(self.queued() =~= q);
                if self.burst_buffer.len() < self.burst_size && self.started {
                    return SenderAction::Receive;
                }
                let wake_at_ns: Option<u64> = if !self.started {
                    self.next_deadline_ns = now_ns;
                    self.started = true;
                    None
                } else {
                    Some(self.next_deadline_ns)
                };
                let datagrams = self.take_burst();
                SenderAction::SendBurst { wake_at_ns, datagrams }
            },
        }
    }

    /// Empties the queue into datagrams.
    fn take_burst(&mut self) -> (r: Vec<Datagram>)
        requires
            old(self).wf(),
        ensures
            final(self).wf(),
            final(self).queued().len() == 0,
            final(self).target_count() == old(self).target_count(),
            final(self).burst_size() == old(self).burst_size(),
            final(self).burst_duration() == old(self).burst_duration(),
            final(self).started() == old(self).started(),
            final(self).paused() == old(self).paused(),
            final(self).next_deadline() == old(self).next_deadline(),
            r@.map_values(|d: Datagram| datagram_view(d)) == burst_datagrams(old(self).queued(), old(self).target_count()),
    {
        let mut burst: Vec<BurstEntry> = Vec::new();
        std::mem::swap(&mut burst, &mut self.burst_buffer);
        let ghost q = burst@.map_values(|e: BurstEntry| entry_view(e));
        let mut out: Vec<Datagram> = Vec::new();
        let n = self.target_count;
        let mut i: usize = 0;
        while i < burst.len()
            invariant
                i <= burst@.len(),
                q == burst@.map_values(|e: BurstEntry| entry_view(e)),
                out@.map_values(|d: Datagram| datagram_view(d)) == burst_datagrams(q.take(i as int), n as nat),
            decreases burst@.len() - i,
        {
            push_entry_datagrams(&mut out, &burst[i], n);
            assert(q.take(i + 1).drop_last() =~= q.take(i as int));
            i = i + 1;
        }
        assert(q.take(i as int) =~= q);
        assert(self.queued() =~= Seq::empty());
        out
    }

    /// After a burst has gone out at `now_ns`: the deadline advances by a burst, and moves
    /// to now when the thread has fallen more than a burst behind.
    pub fn burst_sent(&mut self, now_ns: u64)
        requires
            old(self).wf(),
            old(self).next_deadline() + 2 * old(self).burst_duration() <= u64::MAX,
        ensures
            final(self).wf(),
            final(self).target_count() == old(self).target_count(),
            final(self).burst_size() == old(self).burst_size(),
            final(self).burst_duration() == old(self).burst_duration(),
            final(self).started() == old(self).started(),
            final(self).paused() == old(self).paused(),
            final(self).queued() == old(self).queued(),
            ({
                let next = old(self).next_deadline() + old(self).burst_duration();
                final(self).next_deadline() == (if now_ns > next + old(self).burst_duration() {
                    now_ns as int
                } else {
                    next
                })
            }),
    {
        self.next_deadline_ns = self.next_deadline_ns + self.burst_duration_ns;
        if now_ns > self.next_deadline_ns + self.burst_duration_ns {
            self.next_deadline_ns = now_ns;
        }
    }
}

} // verus!
