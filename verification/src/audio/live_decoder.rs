//! Live PCM frames handed in by the application, and cutting them into packets.
use vstd::prelude::*;

verus! {

#[derive(Debug, Clone)]
pub struct DecodedFrame {
    pub samples: Vec<i16>,
}

#[derive(Debug, Clone)]
#[non_exhaustive]
pub struct LivePcmFrame {
    pub samples: Vec<i16>,
    pub channels: u8,
    pub sample_rate: u32,
}

impl LivePcmFrame {
    pub fn new(samples: Vec<i16>, channels: u8, sample_rate: u32) -> (r: Self)
        ensures
            r.samples@ == samples@,
            r.channels == channels,
            r.sample_rate == sample_rate,
    {
        Self { samples, channels, sample_rate }
    }
}

#[derive(Debug, Clone, Copy, PartialEq, Eq, Structural)]
#[non_exhaustive]
pub enum LiveAudioSendError {
    Full,
    Disconnected,
}

impl LiveAudioSendError {
    /// The error's text (what `Display` shows).
    pub fn message(&self) -> (r: &'static str)
        ensures
            r@ == match self {
                LiveAudioSendError::Full => "live audio queue is full"@,
                LiveAudioSendError::Disconnected => "live audio queue is disconnected"@,
            },
    {
        match self {
            LiveAudioSendError::Full => "live audio queue is full",
            LiveAudioSendError::Disconnected => "live audio queue is disconnected",
        }
    }
}

/// Cuts collected samples into one packet of `target` samples and the rest, once enough
/// are collected: a packet and what is left over, or no packet and everything kept.
pub fn cut_packet(collected: Vec<i16>, target: usize) -> (r: (Option<DecodedFrame>, Vec<i16>))
    ensures
        collected@.len() == 0 ==> r.0 is None && r.1@.len() == 0,
        0 < collected@.len() && collected@.len() < target ==> r.0 is None && r.1@ == collected@,
        collected@.len() > 0 && collected@.len() >= target ==> (r.0 matches Some(f) && f.samples@
            == collected@.take(target as int)) && r.1@ == collected@.skip(target as int),
{
    if collected.len() == 0 {
        return (None, Vec::new());
    }
    if collected.len() < target {
        return (None, collected);
    }
    let mut head: Vec<i16> = Vec::new();
    let mut tail: Vec<i16> = Vec::new();
    let mut k: usize = 0;
    while k < collected.len()
        invariant
            k <= collected@.len(),
            collected@.len() >= target,
            k <= target ==> head@ == collected@.take(k as int) && tail@.len() == 0,
            k > target ==> head@ == collected@.take(target as int) && tail@ == collected@.subrange(
                target as int,
                k as int,
            ),
        decreases collected@.len() - k,
    {
        if k < target {
            head.push(collected[k]);
            assert(collected@.take(k + 1) =~= collected@.take(k as int).push(collected@[k as int]));
        } else {
            tail.push(collected[k]);
            assert(collected@.subrange(target as int, k + 1) =~= collected@.subrange(target as int, k as int).push(
                collected@[k as int],
            ));
        }
        k += 1;
    }
    assert(collected@.subrange(target as int, collected@.len() as int) =~= collected@.skip(target as int));
    if collected.len() == target {
        assert(collected@.skip(target as int) =~= Seq::<i16>::empty());
    }
    (Some(DecodedFrame { samples: head }), tail)
}

} // verus!
