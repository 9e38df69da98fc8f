//! A road-network model: nodes and edges over geographic coordinates, the
//! great-circle distance between two coordinates, and an edge's shape as
//! well-known text.
//!
//! The model is generic over the number type of its coordinates; [`Float`]
//! states what such a type has to offer.

pub mod geodesy;
pub mod models;
pub mod number;
pub mod wkt;

pub use crate::geodesy::distance;
pub use crate::models::{Coord, Edge, Node};
pub use crate::number::Float;
