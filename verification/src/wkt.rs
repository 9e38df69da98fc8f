//! The shape of an edge as well-known text.

use crate::models::{Coord, Edge};
use crate::number::{is_digit, is_fixed7, Float};
use vstd::prelude::*;

verus! {

/// The parts of a text joined by a separator: nothing for no part, and no
/// separator before the first part or after the last.
pub open spec fn join(parts: Seq<Seq<char>>, separator: Seq<char>) -> Seq<char>
    decreases parts.len(),
{
    if parts.len() == 0 {
        Seq::empty()
    } else if parts.len() == 1 {
        parts[0]
    } else {
        join(parts.drop_last(), separator) + separator + parts.last()
    }
}

/// One point as text: longitude, a space, latitude, each as the number type
/// renders it with seven digits after the point.
pub open spec fn point_text<T: Float>(point: Coord<T>) -> Seq<char> {
    point.lon.spec_to_fixed7()@ + " "@ + point.lat.spec_to_fixed7()@
}

/// The points of a shape as text, one entry for each point, in order.
pub open spec fn point_texts<T: Float>(points: Seq<Coord<T>>) -> Seq<Seq<char>> {
    Seq::new(points.len(), |i: int| point_text(points[i]))
}

/// A shape as well-known text: `LINESTRING(`, the points separated by a
/// comma and a space, `)`.
pub open spec fn linestring<T: Float>(points: Seq<Coord<T>>) -> Seq<char> {
    "LINESTRING("@ + join(point_texts(points), ", "@) + ")"@
}

/// Both coordinates of every point are ordinary numbers.
pub open spec fn all_finite<T: Float>(points: Seq<Coord<T>>) -> bool {
    forall|i: int|
        0 <= i < points.len() ==> (#[trigger] points[i]).lon.is_finite() && points[i].lat.is_finite()
}

/// A well-formed entry of a linestring: two numerals with seven digits after
/// the point, one space between them.
pub open spec fn is_point_text(text: Seq<char>) -> bool {
    exists|lon: Seq<char>, lat: Seq<char>|
        is_fixed7(lon) && is_fixed7(lat) && text == #[trigger] (lon + " "@ + lat)
}

/// How often `c` occurs in `text`.
pub open spec fn occurrences(text: Seq<char>, c: char) -> nat
    decreases text.len(),
{
    if text.len() == 0 {
        0
    } else {
        occurrences(text.drop_last(), c) + if text.last() == c {
            1nat
        } else {
            0nat
        }
    }
}

/// How many entries a linestring has, read off its text: every entry holds
/// one space and no comma, and every separator one of each.
pub open spec fn entry_count(text: Seq<char>) -> int {
    occurrences(text, ' ') - occurrences(text, ',')
}

/// What occurs in a text made of two occurs in one of the two.
pub proof fn lemma_occurrences_concat(left: Seq<char>, right: Seq<char>, c: char)
    ensures
        occurrences(left + right, c) == occurrences(left, c) + occurrences(right, c),
    decreases right.len(),
{
    if right.len() == 0 {
        assert(left + right =~= left);
    } else {
        assert((left + right).drop_last() =~= left + right.drop_last());
        lemma_occurrences_concat(left, right.drop_last(), c);
    }
}

/// A character that is nowhere in a text occurs in it zero times.
pub proof fn lemma_occurrences_absent(text: Seq<char>, c: char)
    requires
        forall|i: int| 0 <= i < text.len() ==> text[i] != c,
    ensures
        occurrences(text, c) == 0,
    decreases text.len(),
{
    if text.len() > 0 {
        lemma_occurrences_absent(text.drop_last(), c);
    }
}

/// A numeral with seven digits after the point holds neither a comma nor a
/// space.
pub proof fn lemma_fixed7_is_one_word(text: Seq<char>)
    requires
        is_fixed7(text),
    ensures
        occurrences(text, ',') == 0,
        occurrences(text, ' ') == 0,
{
    assert forall|i: int| 0 <= i < text.len() implies text[i] != ',' && text[i] != ' ' by {
        if text[0] == '-' {
            if i > 0 {
                let numeral = text.skip(1);
                assert(numeral[i - 1] == text[i]);
                assert(i - 1 == numeral.len() - 8 || is_digit(numeral[i - 1]));
            }
        } else {
            assert(i == text.len() - 8 || is_digit(text[i]));
        }
    }
    lemma_occurrences_absent(text, ',');
    lemma_occurrences_absent(text, ' ');
}

/// A well-formed entry holds no comma and exactly one space.
pub proof fn lemma_point_text_is_two_words(text: Seq<char>)
    requires
        is_point_text(text),
    ensures
        occurrences(text, ',') == 0,
        occurrences(text, ' ') == 1,
{
    let (lon, lat) = choose|lon: Seq<char>, lat: Seq<char>|
        is_fixed7(lon) && is_fixed7(lat) && text == #[trigger] (lon + " "@ + lat);
    reveal_strlit(" ");
    assert(" "@ =~= seq![' ']);
    assert(occurrences(seq![' '], ',') == 0 && occurrences(seq![' '], ' ') == 1) by {
        assert(seq![' '].drop_last() =~= Seq::<char>::empty());
        reveal_with_fuel(occurrences, 2);
    }
    lemma_fixed7_is_one_word(lon);
    lemma_fixed7_is_one_word(lat);
    lemma_occurrences_concat(lon, " "@, ',');
    lemma_occurrences_concat(lon + " "@, lat, ',');
    lemma_occurrences_concat(lon, " "@, ' ');
    lemma_occurrences_concat(lon + " "@, lat, ' ');
}

/// Well-formed entries joined by a comma and a space hold one space and no
/// comma for each entry, and one of each between two entries.
pub proof fn lemma_joined_entries(entries: Seq<Seq<char>>)
    requires
        forall|i: int| 0 <= i < entries.len() ==> is_point_text(#[trigger] entries[i]),
    ensures
        entries.len() == 0 ==> join(entries, ", "@).len() == 0,
        entries.len() > 0 ==> occurrences(join(entries, ", "@), ',') == entries.len() - 1,
        entries.len() > 0 ==> occurrences(join(entries, ", "@), ' ') == 2 * entries.len() - 1,
    decreases entries.len(),
{
    if entries.len() == 0 {
    } else if entries.len() == 1 {
        lemma_point_text_is_two_words(entries[0]);
    } else {
        let before = join(entries.drop_last(), ", "@);
        lemma_joined_entries(entries.drop_last());
        lemma_point_text_is_two_words(entries.last());
        reveal_strlit(", ");
        assert(", "@ =~= seq![',', ' ']);
        assert(occurrences(seq![',', ' '], ',') == 1 && occurrences(seq![',', ' '], ' ') == 1) by {
            assert(seq![',', ' '].drop_last() =~= seq![',']);
            assert(seq![','].drop_last() =~= Seq::<char>::empty());
            reveal_with_fuel(occurrences, 3);
        }
        lemma_occurrences_concat(before, ", "@, ',');
        lemma_occurrences_concat(before + ", "@, entries.last(), ',');
        lemma_occurrences_concat(before, ", "@, ' ');
        lemma_occurrences_concat(before + ", "@, entries.last(), ' ');
    }
}

/// The text of a shape has as many entries as the shape has points, where
/// the entries are well-formed.
pub proof fn lemma_linestring_entry_count<T: Float>(points: Seq<Coord<T>>)
    requires
        forall|i: int| 0 <= i < points.len() ==> is_point_text(#[trigger] point_texts(points)[i]),
    ensures
        entry_count(linestring(points)) == points.len(),
{
    let joined = join(point_texts(points), ", "@);
    lemma_joined_entries(point_texts(points));
    reveal_strlit("LINESTRING(");
    reveal_strlit(")");
    lemma_occurrences_absent("LINESTRING("@, ',');
    lemma_occurrences_absent("LINESTRING("@, ' ');
    lemma_occurrences_absent(")"@, ',');
    lemma_occurrences_absent(")"@, ' ');
    lemma_occurrences_absent(joined.take(0), ',');
    lemma_occurrences_absent(joined.take(0), ' ');
    if points.len() == 0 {
        assert(joined =~= joined.take(0));
    }
    lemma_occurrences_concat("LINESTRING("@, joined, ',');
    lemma_occurrences_concat("LINESTRING("@ + joined, ")"@, ',');
    lemma_occurrences_concat("LINESTRING("@, joined, ' ');
    lemma_occurrences_concat("LINESTRING("@ + joined, ")"@, ' ');
}

impl<T: Float, P> Edge<T, P> {
    /// The shape of the edge as well-known text, longitude before latitude.
    ///
    /// No shape is rejected: without points the text is `LINESTRING()`, and
    /// one point stands alone between the brackets. Where a point's
    /// coordinates are ordinary numbers its entry is well-formed, and where
    /// all are, the text has exactly as many entries as the shape has points.
    pub fn as_wkt(&self) -> (text: String)
        ensures
            text@ == linestring(self.geometry@),
            forall|i: int|
                0 <= i < self.geometry@.len() && self.geometry@[i].lon.is_finite()
                    && self.geometry@[i].lat.is_finite() ==> is_point_text(
                    #[trigger] point_texts(self.geometry@)[i],
                ),
            all_finite(self.geometry@) ==> entry_count(text@) == self.geometry@.len(),
    {
        let mut text = String::from_str("LINESTRING(");
        let mut i: usize = 0;
        while i < self.geometry.len()
            invariant
                i <= self.geometry.len(),
                text@ == "LINESTRING("@ + join(point_texts(self.geometry@.take(i as int)), ", "@),
                forall|k: int|
                    0 <= k < i && self.geometry@[k].lon.is_finite()
                        && self.geometry@[k].lat.is_finite() ==> is_point_text(
                        #[trigger] point_texts(self.geometry@)[k],
                    ),
            decreases self.geometry.len() - i,
        {
            if i > 0 {
                text.append(", ");
            }
            let lon = self.geometry[i].lon.to_fixed7();
            let lat = self.geometry[i].lat.to_fixed7();
            text.append(lon.as_str());
            text.append(" ");
            text.append(lat.as_str());
            proof {
                let done = point_texts(self.geometry@.take(i as int));
                let next = point_texts(self.geometry@.take(i + 1));
                assert(next.drop_last() =~= done);
                assert(point_texts(self.geometry@)[i as int] == lon@ + " "@ + lat@);
            }
            i += 1;
        }
        proof {
            assert(self.geometry@.take(i as int) =~= self.geometry@);
            if all_finite(self.geometry@) {
                lemma_linestring_entry_count(self.geometry@);
            }
        }
        text.append(")");
        text
    }
}

} // verus!
