//! The faces of a triangle mesh in Wavefront OBJ text.
//!
//! A face line is the letter `f` and then its corners, set apart by spaces.
//! A corner is written `v/t/n`: the number of a vertex, of a texture
//! coordinate and of a normal, each counted from one. The texture
//! coordinate is not read.

use vstd::prelude::*;
use crate::text::{contains, find_byte, index_of, number, occurs, parse_number};

verus! {

/// One corner of a face: the places of its vertex and of its normal in the
/// mesh's lists, counted from zero.
#[derive(Clone, Copy, Debug, PartialEq, Eq, Structural)]
pub struct Corner {
    pub vertex: usize,
    pub normal: usize,
}

/// Why a face was refused.
#[derive(Clone, Copy, Debug, PartialEq, Eq, Structural)]
pub enum MeshError {
    /// A corner is not of the form `v/t/n` with numbers from one on.
    BadCorner,
    /// The face has fewer than three corners.
    TooFewCorners,
    /// A corner names a vertex or a normal that the mesh does not have.
    OutOfRange,
}

/// The corner that the bytes of `s` from `start` up to `end` denote: the
/// number before the first slash names the vertex, the number after the
/// second slash, up to a third slash or the end, names the normal. There is
/// none where a slash or a number is missing, or a number is zero.
pub open spec fn corner_at(s: Seq<u8>, start: int, end: int) -> Option<Corner> {
    let a = index_of(s, 47, start, end);
    if a >= end {
        None
    } else {
        let b = index_of(s, 47, a + 1, end);
        if b >= end {
            None
        } else {
            let c = index_of(s, 47, b + 1, end);
            match (number(s.subrange(start, a)), number(s.subrange(b + 1, c))) {
                (Some(vertex), Some(normal)) => if vertex >= 1 && normal >= 1 {
                    Some(Corner { vertex: (vertex - 1) as usize, normal: (normal - 1) as usize })
                } else {
                    None
                },
                _ => None,
            }
        }
    }
}

/// The corners that the fields of `s` from `from` on denote, after those of
/// `found`. Fields are set apart by single spaces, and an empty field,
/// which two spaces in a row or a space at the end make, is passed over.
/// There are none where a field denotes no corner.
pub open spec fn corners_from(s: Seq<u8>, from: int, found: Seq<Corner>) -> Option<Seq<Corner>>
    decreases s.len() + 1 - from,
{
    if from < 0 || from > s.len() {
        Some(found)
    } else {
        let end = index_of(s, 32, from, s.len() as int);
        if end < from || end > s.len() {
            None
        } else if end == from {
            corners_from(s, end + 1, found)
        } else {
            match corner_at(s, from, end) {
                Some(corner) => corners_from(s, end + 1, found.push(corner)),
                None => None,
            }
        }
    }
}

/// The corners of a face line: those of its fields after the first, which
/// is the letter of the line.
pub open spec fn face_corners(line: Seq<u8>) -> Option<Seq<Corner>> {
    corners_from(line, index_of(line, 32, 0, line.len() as int) + 1, Seq::empty())
}

/// Whether every corner names a vertex and a normal that the mesh has.
pub open spec fn in_range(corners: Seq<Corner>, num_vertices: usize, num_normals: usize) -> bool {
    forall|k: int|
        0 <= k < corners.len() ==> (#[trigger] corners[k]).vertex < num_vertices && corners[k].normal < num_normals
}

/// The triangles of a face: its first three corners, and for a face of four
/// or more also the first, the third and the fourth.
pub open spec fn triangles_of(corners: Seq<Corner>) -> Seq<(Corner, Corner, Corner)> {
    if corners.len() < 3 {
        Seq::empty()
    } else if corners.len() == 3 {
        seq![(corners[0], corners[1], corners[2])]
    } else {
        seq![(corners[0], corners[1], corners[2]), (corners[0], corners[2], corners[3])]
    }
}

/// Reads one corner from the bytes of `text` from `start` up to `end`.
pub fn parse_corner(text: &[u8], start: usize, end: usize) -> (corner: Option<Corner>)
    requires
        start <= end <= text@.len(),
    ensures
        corner == corner_at(text@, start as int, end as int),
{
    let a: usize = find_byte(text, 47, start, end);
    if a >= end {
        return None;
    }
    let b: usize = find_byte(text, 47, a + 1, end);
    if b >= end {
        return None;
    }
    let c: usize = find_byte(text, 47, b + 1, end);
    let vertex = match parse_number(text, start, a) {
        Some(vertex) => vertex,
        None => {
            return None;
        },
    };
    let normal = match parse_number(text, b + 1, c) {
        Some(normal) => normal,
        None => {
            return None;
        },
    };
    if vertex >= 1 && normal >= 1 {
        Some(Corner { vertex: vertex - 1, normal: normal - 1 })
    } else {
        None
    }
}

/// Reads the corners of a face line.
pub fn parse_face(line: &[u8]) -> (corners: Result<Vec<Corner>, MeshError>)
    ensures
        match face_corners(line@) {
            Some(found) => corners is Ok && corners->Ok_0@ == found,
            None => corners == Err::<Vec<Corner>, MeshError>(MeshError::BadCorner),
        },
{
    let len: usize = line.len();
    let mut found: Vec<Corner> = Vec::new();
    let letter: usize = find_byte(line, 32, 0, len);
    if letter >= len {
        return Ok(found);
    }
    let mut from: usize = letter + 1;
    loop
        invariant
            len == line@.len(),
            from <= len,
            corners_from(line@, from as int, found@) == face_corners(line@),
        decreases len - from,
    {
        let end: usize = find_byte(line, 32, from, len);
        if end > from {
            match parse_corner(line, from, end) {
                Some(corner) => {
                    found.push(corner);
                },
                None => {
                    return Err(MeshError::BadCorner);
                },
            }
        }
        if end >= len {
            assert(corners_from(line@, end + 1, found@) == Some(found@));
            return Ok(found);
        }
        from = end + 1;
    }
}

/// Cuts a face into triangles, once its corners are known to be at least
/// three and to name only what the mesh has.
pub fn triangulate(corners: &Vec<Corner>, num_vertices: usize, num_normals: usize) -> (triangles: Result<
    Vec<(Corner, Corner, Corner)>,
    MeshError,
>)
    ensures
        corners@.len() < 3 ==> triangles == Err::<Vec<(Corner, Corner, Corner)>, MeshError>(MeshError::TooFewCorners),
        corners@.len() >= 3 && !in_range(corners@, num_vertices, num_normals) ==> triangles == Err::<
            Vec<(Corner, Corner, Corner)>,
            MeshError,
        >(MeshError::OutOfRange),
        corners@.len() >= 3 && in_range(corners@, num_vertices, num_normals) ==> triangles is Ok
            && triangles->Ok_0@ == triangles_of(corners@),
{
    if corners.len() < 3 {
        return Err(MeshError::TooFewCorners);
    }
    let mut k: usize = 0;
    while k < corners.len()
        invariant
            k <= corners@.len(),
            corners@.len() >= 3,
            in_range(corners@.take(k as int), num_vertices, num_normals),
        decreases corners@.len() - k,
    {
        if corners[k].vertex >= num_vertices || corners[k].normal >= num_normals {
            return Err(MeshError::OutOfRange);
        }
        k += 1;
        assert forall|j: int| 0 <= j < k implies (#[trigger] corners@.take(k as int)[j]).vertex < num_vertices
            && corners@.take(k as int)[j].normal < num_normals by {
            if j < k - 1 {
                assert(corners@.take(k - 1)[j] == corners@[j]);
            }
        }
    }
    assert(corners@.take(k as int) =~= corners@);
    let mut triangles: Vec<(Corner, Corner, Corner)> = Vec::new();
    triangles.push((corners[0], corners[1], corners[2]));
    if corners.len() > 3 {
        triangles.push((corners[0], corners[2], corners[3]));
    }
    assert(triangles@ =~= triangles_of(corners@));
    Ok(triangles)
}

/// What a line of a mesh file holds. The kinds do not shut each other out:
/// a line is taken for each kind whose mark stands anywhere in it.
#[derive(Clone, Copy, Debug, PartialEq, Eq, Structural)]
pub struct LineKinds {
    /// The line holds `v` and a space: a vertex.
    pub vertex: bool,
    /// The line holds `vn` and a space: a normal.
    pub normal: bool,
    /// The line holds `f` and a space: a face.
    pub face: bool,
}

/// The kinds of a line.
pub open spec fn kinds_of(line: Seq<u8>) -> LineKinds {
    LineKinds {
        vertex: occurs(line, seq![118u8, 32u8]),
        normal: occurs(line, seq![118u8, 110u8, 32u8]),
        face: occurs(line, seq![102u8, 32u8]),
    }
}

/// Tells what a line of a mesh file holds.
pub fn classify(line: &[u8]) -> (kinds: LineKinds)
    ensures
        kinds == kinds_of(line@),
{
    let vertex: [u8; 2] = [118, 32];
    let normal: [u8; 3] = [118, 110, 32];
    let face: [u8; 2] = [102, 32];
    assert(vertex@ =~= seq![118u8, 32u8]);
    assert(normal@ =~= seq![118u8, 110u8, 32u8]);
    assert(face@ =~= seq![102u8, 32u8]);
    LineKinds {
        vertex: contains(line, vertex.as_slice()),
        normal: contains(line, normal.as_slice()),
        face: contains(line, face.as_slice()),
    }
}

/// The bytes of the `n`-th of the fields of `s` that begin at `from` or
/// later, as the place where it begins and the place where it ends. Fields
/// are set apart by single spaces, the field at `from` is the one with the
/// number zero, and an empty field counts. There is none where the text has
/// fewer fields.
pub open spec fn field_from(s: Seq<u8>, from: int, n: nat) -> Option<(int, int)>
    decreases n,
{
    let end = index_of(s, 32, from, s.len() as int);
    if n == 0 {
        Some((from, end))
    } else if end >= s.len() {
        None
    } else {
        field_from(s, end + 1, (n - 1) as nat)
    }
}

/// Finds the `n`-th field of a line, counted from zero.
pub fn field(line: &[u8], n: usize) -> (range: Option<(usize, usize)>)
    ensures
        match field_from(line@, 0, n as nat) {
            Some((start, end)) => range == Some((start as usize, end as usize)) && 0 <= start <= end <= line@.len(),
            None => range is None,
        },
{
    let len: usize = line.len();
    let mut from: usize = 0;
    let mut left: usize = n;
    loop
        invariant
            len == line@.len(),
            from <= len,
            field_from(line@, from as int, left as nat) == field_from(line@, 0, n as nat),
        decreases left,
    {
        let end: usize = find_byte(line, 32, from, len);
        if left == 0 {
            return Some((from, end));
        }
        if end >= len {
            return None;
        }
        from = end + 1;
        left -= 1;
    }
}

} // verus!
