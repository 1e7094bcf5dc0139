//! What a render is asked for: the size of the image, the number of worker
//! threads and the number of shadow samples.

use vstd::prelude::*;
use crate::text::{find_byte, index_of, number, parse_number};

verus! {

/// Why a setting was refused.
#[derive(Clone, Copy, Debug, PartialEq, Eq, Structural)]
pub enum SettingsError {
    /// The resolution is not two numbers with an `x` between them.
    InvalidResolution,
    ZeroWidth,
    ZeroHeight,
    /// The thread count is not a number.
    InvalidThreads,
    ZeroThreads,
    /// The sample count is not a number.
    InvalidSamples,
}

/// The parameters of a render.
#[derive(Clone, Copy, Debug, PartialEq, Eq, Structural)]
pub struct Settings {
    pub width: usize,
    pub height: usize,
    pub threads: usize,
    /// The number of rays per light for soft shadows; zero asks for hard
    /// shadows.
    pub samples: usize,
}

/// The two numbers of a resolution text: the width is what stands before
/// the first `x`, the height what stands between it and the next `x` or the
/// end. Whatever follows a second `x` is not read.
pub open spec fn resolution(s: Seq<u8>) -> Option<(usize, usize)> {
    let a = index_of(s, 120, 0, s.len() as int);
    if a >= s.len() {
        None
    } else {
        let b = index_of(s, 120, a + 1, s.len() as int);
        match (number(s.subrange(0, a)), number(s.subrange(a + 1, b))) {
            (Some(width), Some(height)) => Some((width, height)),
            _ => None,
        }
    }
}

/// What a resolution text asks for, or why it is refused: a text that does
/// not hold two numbers is invalid; of two numbers neither may be zero, and
/// the width is looked at first.
pub open spec fn resolution_of(s: Seq<u8>) -> Result<(usize, usize), SettingsError> {
    match resolution(s) {
        None => Err(SettingsError::InvalidResolution),
        Some((width, height)) => if width == 0 {
            Err(SettingsError::ZeroWidth)
        } else if height == 0 {
            Err(SettingsError::ZeroHeight)
        } else {
            Ok((width, height))
        },
    }
}

/// What a thread count text asks for, or why it is refused.
pub open spec fn threads_of(s: Seq<u8>) -> Result<usize, SettingsError> {
    match number(s) {
        None => Err(SettingsError::InvalidThreads),
        Some(threads) => if threads == 0 {
            Err(SettingsError::ZeroThreads)
        } else {
            Ok(threads)
        },
    }
}

/// What a sample count text asks for, or why it is refused. Zero is in
/// order.
pub open spec fn samples_of(s: Seq<u8>) -> Result<usize, SettingsError> {
    match number(s) {
        None => Err(SettingsError::InvalidSamples),
        Some(samples) => Ok(samples),
    }
}

/// Reads a resolution such as `640x480`.
pub fn parse_resolution(text: &[u8]) -> (size: Result<(usize, usize), SettingsError>)
    ensures
        size == resolution_of(text@),
{
    let len: usize = text.len();
    let a: usize = find_byte(text, 120, 0, len);
    if a >= len {
        return Err(SettingsError::InvalidResolution);
    }
    let b: usize = find_byte(text, 120, a + 1, len);
    let width = match parse_number(text, 0, a) {
        Some(width) => width,
        None => {
            return Err(SettingsError::InvalidResolution);
        },
    };
    let height = match parse_number(text, a + 1, b) {
        Some(height) => height,
        None => {
            return Err(SettingsError::InvalidResolution);
        },
    };
    if width == 0 {
        return Err(SettingsError::ZeroWidth);
    }
    if height == 0 {
        return Err(SettingsError::ZeroHeight);
    }
    Ok((width, height))
}

/// Reads a thread count.
pub fn parse_threads(text: &[u8]) -> (threads: Result<usize, SettingsError>)
    ensures
        threads == threads_of(text@),
{
    assert(text@.subrange(0, text@.len() as int) =~= text@);
    match parse_number(text, 0, text.len()) {
        None => Err(SettingsError::InvalidThreads),
        Some(threads) => {
            if threads == 0 {
                Err(SettingsError::ZeroThreads)
            } else {
                Ok(threads)
            }
        },
    }
}

/// Reads a sample count.
pub fn parse_samples(text: &[u8]) -> (samples: Result<usize, SettingsError>)
    ensures
        samples == samples_of(text@),
{
    assert(text@.subrange(0, text@.len() as int) =~= text@);
    match parse_number(text, 0, text.len()) {
        None => Err(SettingsError::InvalidSamples),
        Some(samples) => Ok(samples),
    }
}

impl Settings {
    /// Whether a render can be started with these settings: the image has
    /// pixels, and there is a worker.
    pub open spec fn valid(&self) -> bool {
        self.width > 0 && self.height > 0 && self.threads > 0
    }

    /// The settings of a render for which nothing was asked: 256 by 256
    /// pixels on 32 threads, with hard shadows.
    pub fn new() -> (settings: Settings)
        ensures
            settings == (Settings { width: 256, height: 256, threads: 32, samples: 0 }),
            settings.valid(),
    {
        Settings { width: 256, height: 256, threads: 32, samples: 0 }
    }

    /// Takes the size of the image from a resolution text. A text that is
    /// refused changes nothing.
    pub fn set_resolution(&mut self, text: &[u8]) -> (outcome: Result<(), SettingsError>)
        ensures
            match resolution_of(text@) {
                Ok((width, height)) => outcome is Ok && *final(self) == (Settings { width, height, ..*old(self) }),
                Err(error) => outcome == Err::<(), SettingsError>(error) && *final(self) == *old(self),
            },
            old(self).valid() ==> final(self).valid(),
    {
        match parse_resolution(text) {
            Ok((width, height)) => {
                self.width = width;
                self.height = height;
                Ok(())
            },
            Err(error) => Err(error),
        }
    }

    /// Takes the number of worker threads from a text. A text that is
    /// refused changes nothing.
    pub fn set_threads(&mut self, text: &[u8]) -> (outcome: Result<(), SettingsError>)
        ensures
            match threads_of(text@) {
                Ok(threads) => outcome is Ok && *final(self) == (Settings { threads, ..*old(self) }),
                Err(error) => outcome == Err::<(), SettingsError>(error) && *final(self) == *old(self),
            },
            old(self).valid() ==> final(self).valid(),
    {
        match parse_threads(text) {
            Ok(threads) => {
                self.threads = threads;
                Ok(())
            },
            Err(error) => Err(error),
        }
    }

    /// Takes the number of shadow samples from a text. A text that is
    /// refused changes nothing.
    pub fn set_samples(&mut self, text: &[u8]) -> (outcome: Result<(), SettingsError>)
        ensures
            match samples_of(text@) {
                Ok(samples) => outcome is Ok && *final(self) == (Settings { samples, ..*old(self) }),
                Err(error) => outcome == Err::<(), SettingsError>(error) && *final(self) == *old(self),
            },
            old(self).valid() ==> final(self).valid(),
    {
        match parse_samples(text) {
            Ok(samples) => {
                self.samples = samples;
                Ok(())
            },
            Err(error) => Err(error),
        }
    }

    /// The number of pixels of the image, or `None` where the machine
    /// cannot count that far.
    pub fn pixel_count(&self) -> (count: Option<usize>)
        ensures
            count == if self.width * self.height <= usize::MAX {
                Some((self.width * self.height) as usize)
            } else {
                None::<usize>
            },
    {
        self.width.checked_mul(self.height)
    }
}

} // verus!
