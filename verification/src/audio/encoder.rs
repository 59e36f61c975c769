//! Cutting PCM into codec frames and stamping them; the codec call itself is the
//! encoder's.
use crate::base::codec::{AudioCodec, AudioFormat};
use crate::base::error::{Error, StreamingError};
use vstd::prelude::*;

verus! {

#[derive(Debug, Clone)]
pub struct EncodedPacket {
    pub data: Vec<u8>,
    pub samples: u32,
    pub timestamp: u64,
}

/// What turns PCM samples into one encoded packet.
pub trait AudioEncoder {
    fn encode(&mut self, samples: &[i16]) -> Result<EncodedPacket, Error>;
}

/// The PCM not yet encoded and the timestamp of the next packet.
pub struct PcmFramer {
    samples_per_frame: usize,
    channels: usize,
    timestamp: u64,
    buffer: Vec<i16>,
}

/// What the framer hands to the codec: the first frame's worth of the pending samples,
/// or all of them when there is less.
pub open spec fn take_frame(pending: Seq<i16>, spf: nat) -> (Seq<i16>, Seq<i16>) {
    if pending.len() >= spf {
        (pending.take(spf as int), pending.skip(spf as int))
    } else {
        (pending, Seq::empty())
    }
}

impl PcmFramer {
    pub closed spec fn pending(&self) -> Seq<i16> {
        self.buffer@
    }

    pub closed spec fn spf(&self) -> nat {
        self.samples_per_frame as nat
    }

    pub closed spec fn channel_count(&self) -> nat {
        self.channels as nat
    }

    pub closed spec fn next_timestamp(&self) -> u64 {
        self.timestamp
    }

    /// A framer for packets of `frames_per_packet` frames of `channels` samples.
    pub fn new(format: AudioFormat) -> (r: Self)
        requires
            format.frames_per_packet * format.channels <= usize::MAX,
        ensures
            r.spf() == format.frames_per_packet * format.channels,
            r.channel_count() == format.channels,
            r.next_timestamp() == 0,
            r.pending().len() == 0,
    {
        assert(format.frames_per_packet as nat * format.channels as nat <= u32::MAX * 255) by (nonlinear_arith)
            requires
                format.frames_per_packet <= u32::MAX,
                format.channels <= 255,
        ;
        Self {
            samples_per_frame: format.frames_per_packet as usize * format.channels as usize,
            channels: format.channels as usize,
            timestamp: 0,
            buffer: Vec::new(),
        }
    }

    /// Adds `samples` to what is pending and takes out the next frame.
    pub fn push_and_take(&mut self, samples: &[i16]) -> (r: Vec<i16>)
        ensures
            (r@, final(self).pending()) == take_frame(old(self).pending() + samples@, old(self).spf()),
            final(self).spf() == old(self).spf(),
            final(self).channel_count() == old(self).channel_count(),
            final(self).next_timestamp() == old(self).next_timestamp(),
    {
        let mut i: usize = 0;
        let ghost p0 = self.buffer@;
        while i < samples.len()
            invariant
                i <= samples@.len(),
                self.buffer@ == p0 + samples@.take(i as int),
                self.samples_per_frame == old(self).samples_per_frame,
                self.channels == old(self).channels,
                self.timestamp == old(self).timestamp,
            decreases samples@.len() - i,
        {
            self.buffer.push(samples[i]);
            i += 1;
            assert(samples@.take(i as int) =~= samples@.take(i - 1).push(samples@[i - 1]));
        }
        assert(samples@.take(i as int) =~= samples@);
        let mut all: Vec<i16> = Vec::new();
        std::mem::swap(&mut all, &mut self.buffer);
        let ghost a = all@;
        if all.len() >= self.samples_per_frame {
            let mut out: Vec<i16> = Vec::new();
            let mut rest: Vec<i16> = Vec::new();
            let mut k: usize = 0;
            while k < all.len()
                invariant
                    k <= all@.len(),
                    all@ == a,
                    a.len() >= self.samples_per_frame,
                    k <= self.samples_per_frame ==> out@ == a.take(k as int) && rest@.len() == 0,
                    k > self.samples_per_frame ==> out@ == a.take(self.samples_per_frame as int)
                        && rest@ == a.subrange(self.samples_per_frame as int, k as int),
                decreases all@.len() - k,
            {
                if k < self.samples_per_frame {
                    out.push(all[k]);
                    assert(a.take(k + 1) =~= a.take(k as int).push(a[k as int]));
                } else {
                    rest.push(all[k]);
                    assert(a.subrange(self.samples_per_frame as int, k + 1) =~= a.subrange(
                        self.samples_per_frame as int,
                        k as int,
                    ).push(a[k as int]));
                }
                k += 1;
            }
            assert(a.subrange(self.samples_per_frame as int, a.len() as int) =~= a.skip(
                self.samples_per_frame as int,
            ));
            proof {
                if a.len() == self.samples_per_frame as nat {
                    assert(a.skip(self.samples_per_frame as int) =~= Seq::<i16>::empty());
                    assert(a.take(a.len() as int) =~= a);
                }
            }
            self.buffer = rest;
            out
        } else {
            all
        }
    }

    /// The sample count (per channel) and timestamp of a frame; the next timestamp moves
    /// on by that count.
    pub fn stamp(&mut self, frame_len: usize) -> (r: (u32, u64))
        requires
            old(self).channel_count() > 0,
            old(self).next_timestamp() + (frame_len as nat) / old(self).channel_count() <= u64::MAX,
        ensures
            r.0 == ((frame_len as nat) / old(self).channel_count()) as u32,
            r.1 == old(self).next_timestamp(),
            final(self).next_timestamp() == old(self).next_timestamp() + (frame_len as nat) / old(self).channel_count(),
            final(self).pending() == old(self).pending(),
            final(self).spf() == old(self).spf(),
            final(self).channel_count() == old(self).channel_count(),
    {
        let num_samples = frame_len / self.channels;
        let ts = self.timestamp;
        self.timestamp = self.timestamp + num_samples as u64;
        (num_samples as u32, ts)
    }
}

/// The codec's name, as `{:?}` prints it.
pub open spec fn codec_name(c: AudioCodec) -> Seq<char> {
    match c {
        AudioCodec::Pcm => "Pcm"@,
        AudioCodec::Alac => "Alac"@,
        AudioCodec::Aac => "Aac"@,
        AudioCodec::AacEld => "AacEld"@,
        AudioCodec::Opus => "Opus"@,
    }
}

/// Only ALAC has an encoder; any other codec is refused with its name.
pub fn check_encoder_codec(format: AudioFormat) -> (r: Result<(), Error>)
    ensures
        format.codec == AudioCodec::Alac ==> r is Ok,
        format.codec != AudioCodec::Alac ==> (r matches Err(Error::Streaming(StreamingError::InvalidFormat(m)))
            && m@ == "Unsupported codec: "@ + codec_name(format.codec)),
{
    let name = match format.codec {
        AudioCodec::Alac => {
            return Ok(());
        },
        AudioCodec::Pcm => "Pcm",
        AudioCodec::Aac => "Aac",
        AudioCodec::AacEld => "AacEld",
        AudioCodec::Opus => "Opus",
    };
    let mut m: Vec<char> = Vec::new();
    crate::text::push_str(&mut m, "Unsupported codec: ");
    crate::text::push_str(&mut m, name);
    Err(Error::Streaming(StreamingError::InvalidFormat(crate::text::string_from_chars(m.as_slice()))))
}

} // verus!
