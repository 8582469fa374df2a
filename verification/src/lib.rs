//! Exact collision predicates for points, segments, triangles and rays in the
//! plane, over points with integer coordinates.
//!
//! Every predicate is strict: shapes that only touch do not collide.

pub mod vector;
pub mod segment;
pub mod triangle;
pub mod separation;
pub mod position;
pub mod closest;
pub mod ray;
pub mod angle;
pub mod incircle;
