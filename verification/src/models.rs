//! Coordinates, nodes and edges.

use crate::number::Float;
use vstd::prelude::*;

verus! {

/// A point in decimal degrees, WGS84.
pub struct Coord<T: Float> {
    pub lon: T,
    pub lat: T,
}

impl<T: Float> Copy for Coord<T> {
}

impl<T: Float> Clone for Coord<T> {
    fn clone(&self) -> (copy: Self)
        ensures
            copy == *self,
    {
        *self
    }
}

/// A vertex of the road network.
pub struct Node<T: Float> {
    pub id: i64,
    pub coord: Coord<T>,
    /// How many ways pass through the node; kept by whoever builds the graph.
    pub uses: i16,
}

impl<T: Float> Copy for Node<T> {
}

impl<T: Float> Clone for Node<T> {
    fn clone(&self) -> (copy: Self)
        ensures
            copy == *self,
    {
        *self
    }
}

impl<T: Float> Node<T> {
    /// The node with identifier 0 at longitude 0, latitude 0, used by nothing.
    pub fn new() -> (node: Self)
        ensures
            node.id == 0,
            node.coord.lon == T::spec_from_u32(0),
            node.coord.lat == T::spec_from_u32(0),
            node.uses == 0,
    {
        Node { id: 0, coord: Coord { lon: T::from_u32(0), lat: T::from_u32(0) }, uses: 0 }
    }
}

/// An edge of the road network: the way from one node to another.
///
/// `P` is the bag of properties that a classification of the way has
/// produced. The model stores it and never looks inside.
pub struct Edge<T: Float, P> {
    pub id: i64,
    /// The identifier of the node where the edge starts.
    pub source: i64,
    /// The identifier of the node where the edge ends.
    pub target: i64,
    /// The shape of the edge, from source to target, both included.
    pub geometry: Vec<Coord<T>>,
    pub properties: P,
}

} // verus!
