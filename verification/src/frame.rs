//! Putting the finished chunks together into one image.

use vstd::prelude::*;
use crate::chunk::CHUNK_SIZE;
use crate::color::Color;

verus! {

/// The colour of a pixel that no chunk has delivered: opaque black.
pub open spec fn blank() -> Color {
    Color { r: 0, g: 0, b: 0, a: 255 }
}

/// The chunk buffers as sequences of colours.
pub open spec fn buffers(chunks: Seq<Vec<Color>>) -> Seq<Seq<Color>> {
    Seq::new(chunks.len(), |c: int| chunks[c]@)
}

/// The colour of pixel `p` of the image, where the chunks hold `size`
/// pixels each: chunk `p / size` holds it at place `p % size`. A pixel that
/// the buffers do not reach is blank.
pub open spec fn pixel_at(chunks: Seq<Seq<Color>>, size: int, p: int) -> Color {
    if 0 <= p / size < chunks.len() && 0 <= p % size < chunks[p / size].len() {
        chunks[p / size][p % size]
    } else {
        blank()
    }
}

/// The image of `num_pixels` pixels that the chunks make up: the chunk
/// buffers one after another in the order of their indices, without the
/// padding of the last.
pub open spec fn assembled(chunks: Seq<Seq<Color>>, num_pixels: nat) -> Seq<Color> {
    Seq::new(num_pixels, |p: int| pixel_at(chunks, CHUNK_SIZE as int, p))
}

/// Builds the image of `num_pixels` pixels, in row-major order, from the
/// chunk buffers in the order of their indices.
pub fn assemble(chunks: &Vec<Vec<Color>>, num_pixels: usize) -> (image: Vec<Color>)
    ensures
        image@ == assembled(buffers(chunks@), num_pixels as nat),
{
    let mut image: Vec<Color> = Vec::new();
    let mut p: usize = 0;
    while p < num_pixels
        invariant
            p <= num_pixels,
            image@ == assembled(buffers(chunks@), p as nat),
        decreases num_pixels - p,
    {
        let c: usize = p / CHUNK_SIZE;
        let j: usize = p % CHUNK_SIZE;
        let mut color = Color::new(0, 0, 0, 255);
        if c < chunks.len() {
            if j < chunks[c].len() {
                color = chunks[c][j];
            }
        }
        image.push(color);
        p += 1;
        assert(image@ =~= assembled(buffers(chunks@), p as nat));
    }
    image
}

/// Rendering in chunks gives the image that rendering pixel by pixel gives.
/// Let `image` say what colour each pixel has. Where every chunk holds, at
/// each of its places, the colour of the pixel that the place stands for,
/// the chunks make up exactly that image: whatever the size of the chunks,
/// and whoever filled them, in whatever order.
pub proof fn lemma_chunked_equals_direct(
    image: spec_fn(int) -> Color,
    chunks: Seq<Seq<Color>>,
    size: int,
    num_pixels: nat,
)
    requires
        size > 0,
        chunks.len() * size >= num_pixels,
        forall|c: int| 0 <= c < chunks.len() ==> (#[trigger] chunks[c]).len() == size,
        forall|c: int, j: int|
            0 <= c < chunks.len() && 0 <= j < size && c * size + j < num_pixels ==> #[trigger] chunks[c][j] == image(
                c * size + j,
            ),
    ensures
        forall|p: int| 0 <= p < num_pixels ==> #[trigger] pixel_at(chunks, size, p) == image(p),
        size == CHUNK_SIZE ==> assembled(chunks, num_pixels) == Seq::new(num_pixels, image),
{
    assert forall|p: int| 0 <= p < num_pixels implies #[trigger] pixel_at(chunks, size, p) == image(p) by {
        let c = p / size;
        let j = p % size;
        assert(p == c * size + j && 0 <= j < size && 0 <= c) by (nonlinear_arith)
            requires
                c == p / size,
                j == p % size,
                size > 0,
                p >= 0,
        ;
        assert(c < chunks.len()) by (nonlinear_arith)
            requires
                p == c * size + j,
                0 <= j,
                p < num_pixels,
                chunks.len() * size >= num_pixels,
                size > 0,
        ;
        assert(chunks[c][j] == image(c * size + j));
    }
    if size == CHUNK_SIZE {
        assert(assembled(chunks, num_pixels) =~= Seq::new(num_pixels, image));
    }
}

} // verus!
