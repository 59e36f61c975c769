//! A bounded queue of PCM frames between the decoder and the sender.
use crate::base::codec::{hz_of, AudioFormat};
use std::collections::VecDeque;
use std::sync::Arc;
use vstd::prelude::*;

verus! {

#[derive(Debug, Clone)]
pub struct AudioFrame {
    pub samples: Arc<Vec<i16>>,
}

impl AudioFrame {
    pub fn new(samples: Vec<i16>) -> (r: Self)
        ensures
            r.samples@ == samples@,
    {
        Self { samples: Arc::new(samples) }
    }
}

#[derive(Debug, Clone, Copy, PartialEq, Eq, Structural)]
pub enum BufferError {
    Overflow,
}

pub struct AudioBuffer {
    frames: VecDeque<AudioFrame>,
    format: AudioFormat,
    capacity_frames: usize,
    total_samples_written: u64,
    total_samples_read: u64,
}

/// How many frames fit: `capacity_ms` milliseconds of samples (whole samples per
/// millisecond) in packets of `frames_per_packet`, at least one.
pub open spec fn capacity_for(format: AudioFormat, capacity_ms: u32) -> nat {
    let samples: nat = ((hz_of(format.sample_rate) / 1000) * capacity_ms) as nat;
    let frames: nat = if format.frames_per_packet == 0 {
        1
    } else {
        samples / (format.frames_per_packet as nat)
    };
    if frames == 0 {
        1
    } else {
        frames
    }
}

/// The samples per channel in a frame.
pub open spec fn frame_samples(f: AudioFrame, channels: u8) -> nat {
    f.samples@.len() / (channels as nat)
}

impl AudioBuffer {
    /// The frames in the queue, oldest first.
    pub closed spec fn frames(&self) -> Seq<AudioFrame> {
        self.frames@
    }

    pub closed spec fn format(&self) -> AudioFormat {
        self.format
    }

    pub closed spec fn capacity(&self) -> nat {
        self.capacity_frames as nat
    }

    /// Samples per channel pushed so far, modulo 2^64.
    pub closed spec fn written(&self) -> u64 {
        self.total_samples_written
    }

    /// Samples per channel popped so far, modulo 2^64.
    pub closed spec fn read(&self) -> u64 {
        self.total_samples_read
    }

    /// A buffer for `capacity_ms` milliseconds of audio.
    pub fn new(format: AudioFormat, capacity_ms: u32) -> (r: Self)
        requires
            (hz_of(format.sample_rate) / 1000) * capacity_ms <= u32::MAX,
        ensures
            r.frames().len() == 0,
            r.format() == format,
            r.capacity() == capacity_for(format, capacity_ms),
            r.written() == 0 && r.read() == 0,
    {
        let sample_rate = format.sample_rate.as_hz();
        let samples_per_ms: u32 = sample_rate / 1000;
        let capacity_samples: u32 = samples_per_ms * capacity_ms;
        let capacity_frames: usize = if format.frames_per_packet == 0 {
            1
        } else {
            (capacity_samples / format.frames_per_packet) as usize
        };
        let cap: usize = if capacity_frames == 0 {
            1
        } else {
            capacity_frames
        };
        Self {
            frames: VecDeque::new(),
            format,
            capacity_frames: cap,
            total_samples_written: 0,
            total_samples_read: 0,
        }
    }

    /// Appends a frame, unless the buffer is full.
    pub fn push(&mut self, frame: AudioFrame) -> (r: Result<(), BufferError>)
        requires
            old(self).frames().len() < old(self).capacity() ==> old(self).format().channels > 0,
        ensures
            final(self).format() == old(self).format(),
            final(self).capacity() == old(self).capacity(),
            final(self).read() == old(self).read(),
            old(self).frames().len() >= old(self).capacity() ==> r == Err::<(), BufferError>(BufferError::Overflow)
                && final(self).frames() == old(self).frames() && final(self).written() == old(self).written(),
            old(self).frames().len() < old(self).capacity() ==> r is Ok && final(self).frames() == old(
                self,
            ).frames().push(frame) && final(self).written() as int == (old(self).written() + frame_samples(
                frame,
                old(self).format().channels,
            )) % 0x1_0000_0000_0000_0000,
    {
        if self.frames.len() >= self.capacity_frames {
            return Err(BufferError::Overflow);
        }
        let sample_count = frame.samples.len() as u64 / self.format.channels as u64;
        self.total_samples_written = self.total_samples_written.wrapping_add(sample_count);
        self.frames.push_back(frame);
        Ok(())
    }

    /// Takes the oldest frame.
    pub fn pop(&mut self) -> (r: Option<AudioFrame>)
        requires
            old(self).frames().len() > 0 ==> old(self).format().channels > 0,
        ensures
            final(self).format() == old(self).format(),
            final(self).capacity() == old(self).capacity(),
            final(self).written() == old(self).written(),
            old(self).frames().len() == 0 ==> r is None && final(self).frames() == old(self).frames()
                && final(self).read() == old(self).read(),
            old(self).frames().len() > 0 ==> r == Some(old(self).frames()[0]) && final(self).frames()
                == old(self).frames().drop_first() && final(self).read() as int == (old(self).read()
                + frame_samples(old(self).frames()[0], old(self).format().channels)) % 0x1_0000_0000_0000_0000,
    {
        let frame = match self.frames.pop_front() {
            Some(f) => f,
            None => {
                return None;
            },
        };
        let sample_count = frame.samples.len() as u64 / self.format.channels as u64;
        self.total_samples_read = self.total_samples_read.wrapping_add(sample_count);
        assert(self.frames@ =~= old(self).frames@.drop_first());
        Some(frame)
    }

    pub fn is_empty(&self) -> (r: bool)
        ensures
            r == (self.frames().len() == 0),
    {
        self.frames.len() == 0
    }

    /// The number of frames queued.
    pub fn len(&self) -> (r: usize)
        ensures
            r == self.frames().len(),
    {
        self.frames.len()
    }

    /// The number of frames that fit.
    pub fn capacity_frames(&self) -> (r: usize)
        ensures
            r == self.capacity(),
    {
        self.capacity_frames
    }

    /// Empties the buffer and hands back its frames, oldest first.
    pub fn flush(&mut self) -> (r: Vec<AudioFrame>)
        ensures
            r@ == old(self).frames(),
            final(self).frames().len() == 0,
            final(self).format() == old(self).format(),
            final(self).capacity() == old(self).capacity(),
            final(self).written() == old(self).written(),
            final(self).read() == old(self).read(),
    {
        let mut out: Vec<AudioFrame> = Vec::new();
        let ghost all = self.frames@;
        while self.frames.len() > 0
            invariant
                all == out@ + self.frames@,
                self.format == old(self).format,
                self.capacity_frames == old(self).capacity_frames,
                self.total_samples_written == old(self).total_samples_written,
                self.total_samples_read == old(self).total_samples_read,
            decreases self.frames@.len(),
        {
            let ghost before = self.frames@;
            match self.frames.pop_front() {
                Some(f) => {
                    out.push(f);
                    assert(all =~= out@ + self.frames@);
                },
                None => {},
            }
        }
        assert(out@ =~= all);
        out
    }
}

} // verus!
