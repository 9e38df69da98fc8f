//! Great-circle distances on a spherical Earth.

use crate::models::{Coord, Edge};
use crate::number::Float;
use vstd::prelude::*;

verus! {

/// The radius of the sphere that stands for the Earth, in metres.
pub const EARTH_RADIUS_M: u32 = 6_378_100;

/// The haversine of the central angle between two points: the square of half
/// the chord between them on the unit sphere,
/// `sin²(Δlat / 2) + sin²(Δlon / 2) · cos(lat1) · cos(lat2)`.
pub open spec fn haversine<T: Float>(start: Coord<T>, end: Coord<T>) -> T {
    let two = T::spec_from_u32(2);
    let half_d_lat = end.lat.spec_sub(start.lat).spec_to_radians().spec_div(two);
    let half_d_lon = end.lon.spec_sub(start.lon).spec_to_radians().spec_div(two);
    let cos_lat1 = start.lat.spec_to_radians().spec_cos();
    let cos_lat2 = end.lat.spec_to_radians().spec_cos();
    let sin_lat = half_d_lat.spec_sin();
    let sin_lon = half_d_lon.spec_sin();
    sin_lat.spec_mul(sin_lat).spec_add(
        sin_lon.spec_mul(sin_lon).spec_mul(cos_lat1).spec_mul(cos_lat2),
    )
}

/// The angle whose haversine is `a`, in radians: `2 · atan2(√a, √(1 − a))`.
pub open spec fn central_angle<T: Float>(a: T) -> T {
    T::spec_from_u32(2).spec_mul(
        a.spec_sqrt().spec_atan2(T::spec_from_u32(1).spec_sub(a).spec_sqrt()),
    )
}

/// The length in metres of the great-circle arc from `start` to `end`.
pub open spec fn great_circle_distance<T: Float>(start: Coord<T>, end: Coord<T>) -> T {
    T::spec_from_u32(EARTH_RADIUS_M).spec_mul(central_angle(haversine(start, end)))
}

/// The lengths in metres of the segments of the line through `points`: for
/// each point but the last, its distance to the next.
pub open spec fn segment_lengths<T: Float>(points: Seq<Coord<T>>) -> Seq<T> {
    Seq::new(
        if points.len() == 0 {
            0
        } else {
            (points.len() - 1) as nat
        },
        |i: int| great_circle_distance(points[i], points[i + 1]),
    )
}

/// The terms added up one after the other from the first on, starting from
/// zero. The order matters where the number type rounds.
pub open spec fn sum<T: Float>(terms: Seq<T>) -> T
    decreases terms.len(),
{
    if terms.len() == 0 {
        T::spec_from_u32(0)
    } else {
        sum(terms.drop_last()).spec_add(terms.last())
    }
}

/// The length in metres of the line through `points`: the sum of the lengths
/// of its segments.
pub open spec fn path_length<T: Float>(points: Seq<Coord<T>>) -> T {
    sum(segment_lengths(points))
}

/// The great-circle distance in metres between two points, by the haversine
/// formula on a sphere of radius [`EARTH_RADIUS_M`].
///
/// No coordinate is rejected: what the number type makes of a latitude
/// beyond the poles, of an infinity or of a not-a-number is what comes out.
pub fn distance<T: Float>(start: Coord<T>, end: Coord<T>) -> (metres: T)
    ensures
        metres == great_circle_distance(start, end),
{
    let one = T::from_u32(1);
    let two = T::from_u32(2);
    let radius = T::from_u32(EARTH_RADIUS_M);

    let d_lon = end.lon.sub(start.lon).to_radians();
    let d_lat = end.lat.sub(start.lat).to_radians();
    let lat1 = start.lat.to_radians();
    let lat2 = end.lat.to_radians();

    let sin_lat = d_lat.div(two).sin();
    let sin_lon = d_lon.div(two).sin();
    let a = sin_lat.mul(sin_lat).add(sin_lon.mul(sin_lon).mul(lat1.cos()).mul(lat2.cos()));
    let c = two.mul(a.sqrt().atan2(one.sub(a).sqrt()));

    radius.mul(c)
}

impl<T: Float, P> Edge<T, P> {
    /// The length of the edge in metres: the sum of the distances between
    /// each point of its shape and the next. A shape of fewer than two points
    /// has length zero.
    pub fn length(&self) -> (metres: T)
        ensures
            metres == path_length(self.geometry@),
            self.geometry@.len() < 2 ==> metres == T::spec_from_u32(0),
    {
        let mut metres = T::from_u32(0);
        if self.geometry.len() < 2 {
            return metres;
        }
        let ghost segments = segment_lengths(self.geometry@);
        let mut i: usize = 1;
        while i < self.geometry.len()
            invariant
                1 <= i <= self.geometry.len(),
                segments == segment_lengths(self.geometry@),
                metres == sum(segments.take(i - 1)),
            decreases self.geometry.len() - i,
        {
            proof {
                assert(segments.take(i as int).drop_last() =~= segments.take(i - 1));
            }
            metres = metres.add(distance(self.geometry[i - 1], self.geometry[i]));
            i += 1;
        }
        proof {
            assert(segments.take(i - 1) =~= segments);
        }
        metres
    }
}

} // verus!
