//! The unit of rendering work: a block of pixels with its depth buffer.

use vstd::prelude::*;
use crate::color::Color;
use crate::depth::{settle_one, Offer, HORIZON};

verus! {

/// The number of pixels that one worker renders in one go.
pub const CHUNK_SIZE: usize = 256;

/// The pixel of the image that place `j` of chunk `chunk` stands for, or
/// `None` where the place is padding: the chunks follow one another through
/// the image, and only the last may reach beyond its `num_pixels` pixels.
pub open spec fn pixel_of(chunk: int, j: int, num_pixels: int) -> Option<int> {
    if 0 <= chunk && 0 <= j < CHUNK_SIZE && chunk * CHUNK_SIZE + j < num_pixels {
        Some(chunk * CHUNK_SIZE + j)
    } else {
        None
    }
}

/// Finds the pixel of the image that place `j` of chunk `chunk` stands for.
pub fn pixel_index(chunk: usize, j: usize, num_pixels: usize) -> (pixel: Option<usize>)
    ensures
        match pixel_of(chunk as int, j as int, num_pixels as int) {
            Some(p) => pixel == Some(p as usize) && p <= usize::MAX,
            None => pixel is None,
        },
{
    if j >= CHUNK_SIZE {
        return None;
    }
    match chunk.checked_mul(CHUNK_SIZE) {
        Some(first) => {
            match first.checked_add(j) {
                Some(p) => {
                    if p < num_pixels {
                        Some(p)
                    } else {
                        None
                    }
                },
                None => None,
            }
        },
        None => None,
    }
}

/// Every pixel of the image has one place in one chunk: pixel `p` is place
/// `p % CHUNK_SIZE` of chunk `p / CHUNK_SIZE` and of no other.
pub proof fn lemma_pixel_has_one_place(p: int, num_pixels: int)
    requires
        0 <= p < num_pixels,
    ensures
        pixel_of(p / 256, p % 256, num_pixels) == Some(p),
        forall|chunk: int, j: int|
            #[trigger] pixel_of(chunk, j, num_pixels) == Some(p) ==> chunk == p / 256 && j == p % 256,
{
    assert forall|chunk: int, j: int| #[trigger] pixel_of(chunk, j, num_pixels) == Some(p) implies chunk == p / 256
        && j == p % 256 by {
        assert(p == chunk * 256 + j);
    }
}

/// The pixels of one chunk, each with the depth of the surface it shows.
pub struct ChunkBuffer {
    pixels: Vec<Color>,
    depths: Vec<u64>,
}

impl ChunkBuffer {
    /// The colours of the chunk's pixels.
    pub closed spec fn pixels(&self) -> Seq<Color> {
        self.pixels@
    }

    /// The depth keys of the surfaces that the pixels show.
    pub closed spec fn depths(&self) -> Seq<u64> {
        self.depths@
    }

    /// A buffer holds one colour and one depth for each pixel of a chunk.
    pub open spec fn wf(&self) -> bool {
        self.pixels().len() == CHUNK_SIZE && self.depths().len() == CHUNK_SIZE
    }

    /// What pixel `j` holds: its colour and the depth it was seen at.
    pub open spec fn held(&self, j: int) -> Offer {
        Offer { depth: self.depths()[j], color: self.pixels()[j] }
    }

    /// A chunk on which nothing was drawn yet: every pixel shows the
    /// background, at the horizon.
    pub fn new(background: Color) -> (buffer: ChunkBuffer)
        ensures
            buffer.wf(),
            forall|j: int| 0 <= j < CHUNK_SIZE ==> #[trigger] buffer.held(j) == crate::depth::unseen(background),
    {
        let mut pixels: Vec<Color> = Vec::new();
        let mut depths: Vec<u64> = Vec::new();
        let mut j: usize = 0;
        while j < CHUNK_SIZE
            invariant
                j <= CHUNK_SIZE,
                pixels@.len() == j,
                depths@.len() == j,
                forall|k: int| 0 <= k < j ==> #[trigger] pixels@[k] == background,
                forall|k: int| 0 <= k < j ==> #[trigger] depths@[k] == HORIZON,
            decreases CHUNK_SIZE - j,
        {
            pixels.push(background);
            depths.push(HORIZON);
            j += 1;
        }
        ChunkBuffer { pixels, depths }
    }

    /// Whether a hit at `depth` would replace what pixel `j` shows. A caller
    /// asks before it shades, and shades only the hits that will be kept.
    pub fn is_closer(&self, j: usize, depth: u64) -> (closer: bool)
        requires
            self.wf(),
            j < CHUNK_SIZE,
        ensures
            closer == (depth < self.held(j as int).depth),
    {
        depth < self.depths[j]
    }

    /// Offers pixel `j` a hit at `depth` that would colour it `color`. The
    /// pixel takes it where it lies strictly nearer than what the pixel
    /// shows, and the result says whether it did; no other pixel changes.
    pub fn record(&mut self, j: usize, depth: u64, color: Color) -> (taken: bool)
        requires
            old(self).wf(),
            j < CHUNK_SIZE,
        ensures
            final(self).wf(),
            taken == (depth < old(self).held(j as int).depth),
            final(self).held(j as int) == settle_one(old(self).held(j as int), (Offer { depth, color })),
            forall|k: int| 0 <= k < CHUNK_SIZE && k != j ==> #[trigger] final(self).held(k) == old(self).held(k),
    {
        if depth < self.depths[j] {
            self.depths.set(j, depth);
            self.pixels.set(j, color);
            true
        } else {
            false
        }
    }

    /// The colour that pixel `j` shows.
    pub fn pixel(&self, j: usize) -> (color: Color)
        requires
            self.wf(),
            j < CHUNK_SIZE,
        ensures
            color == self.pixels()[j as int],
    {
        self.pixels[j]
    }

    /// Hands the finished colours over, in pixel order.
    pub fn into_pixels(self) -> (pixels: Vec<Color>)
        ensures
            pixels@ == self.pixels(),
    {
        self.pixels
    }
}

} // verus!
