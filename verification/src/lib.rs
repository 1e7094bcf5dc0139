//! The exact core of a brute-force CPU ray tracer.
//!
//! A renderer of this kind casts a ray through every pixel, tries it against
//! every object of the scene and shades the nearest hit. Where the rays meet
//! the objects is arithmetic on doubles and is not done here. This crate
//! holds what is decided once the distances are known, and what surrounds
//! the render:
//!
//! - [`color`]: colours with saturating addition, and materials;
//! - [`depth`]: which of the hits of a ray is seen;
//! - [`chunk`]: the block of pixels that one worker renders, with its depth
//!   buffer;
//! - [`shading`]: whether a hit shows its own colour or what a mirror shows,
//!   and for how long mirrors are followed;
//! - [`scheduler`]: which chunk a free worker gets, and when the render is
//!   over;
//! - [`frame`]: the image that the finished chunks make up;
//! - [`image`]: the image as the bytes of a PNG file;
//! - [`args`], [`settings`], [`mesh`], [`text`]: the command line, the
//!   parameters of a render, the faces of a mesh file, and the reading of
//!   numbers that they share.
//!
//! A distance along a ray is carried as a depth key: an unsigned integer
//! that is smaller for the nearer surface. So every comparison made here is
//! a comparison of integers.

pub mod color;
pub mod depth;
pub mod chunk;
pub mod scheduler;
pub mod frame;
pub mod shading;
pub mod image;
pub mod text;
pub mod settings;
pub mod mesh;
pub mod args;
