//! The text of a picture: an SVG document with one polygon per shape.
//!
//! Coordinates come in as text already, each the decimal form of a number.

use vstd::prelude::*;
use vstd::string::StringExecFns;

verus! {

/// A vertex whose coordinates are written out.
pub type Written = (String, String);

/// The text of one vertex: `x,y` and a space.
pub open spec fn written_pair(x: Seq<char>, y: Seq<char>) -> Seq<char> {
    x + ","@ + y + " "@
}

/// The text of a run of vertices: the text of each, in order.
pub open spec fn written_pairs(points: Seq<Written>) -> Seq<char>
    decreases points.len(),
{
    if points.len() == 0 {
        Seq::empty()
    } else {
        written_pairs(points.drop_last()) + written_pair(points.last().0@, points.last().1@)
    }
}

/// The line of one polygon, with the text `coordinates` for its vertices.
pub open spec fn polygon_line(coordinates: Seq<char>) -> Seq<char> {
    "<polygon points=\""@ + coordinates + "\" fill=\"grey\" stroke=\"black\" />\n"@
}

/// The lines of a run of polygons: the line of each, in order.
pub open spec fn polygon_lines(polygons: Seq<Vec<Written>>) -> Seq<char>
    decreases polygons.len(),
{
    if polygons.len() == 0 {
        Seq::empty()
    } else {
        polygon_lines(polygons.drop_last()) + polygon_line(written_pairs(polygons.last()@))
    }
}

/// The document: the opening line, a line for each polygon, in order, and
/// the closing line.
pub open spec fn document(polygons: Seq<Vec<Written>>) -> Seq<char> {
    "<svg xmlns=\"http://www.w3.org/2000/svg\" viewBox=\"0 0 1000 1000\">\n"@ + polygon_lines(
        polygons,
    ) + "</svg>\n"@
}

/// The text of the vertices `points`, for the `points` attribute of a
/// polygon.
pub fn get_coord_str(points: &Vec<Written>) -> (coord_str: String)
    ensures
        coord_str@ == written_pairs(points@),
{
    let mut coord_str = String::new();
    let mut i: usize = 0;
    while i < points.len()
        invariant
            i <= points@.len(),
            coord_str@ == written_pairs(points@.take(i as int)),
        decreases points@.len() - i,
    {
        coord_str.append(points[i].0.as_str());
        coord_str.append(",");
        coord_str.append(points[i].1.as_str());
        coord_str.append(" ");
        assert(points@.take(i + 1).drop_last() =~= points@.take(i as int));
        i += 1;
    }
    assert(points@.take(i as int) =~= points@);
    coord_str
}

/// The SVG document that shows `polygons`, in order.
pub fn svg_document(polygons: &Vec<Vec<Written>>) -> (text: String)
    ensures
        text@ == document(polygons@),
{
    let mut text = String::from_str(
        "<svg xmlns=\"http://www.w3.org/2000/svg\" viewBox=\"0 0 1000 1000\">\n",
    );
    let ghost start = text@;
    let mut i: usize = 0;
    while i < polygons.len()
        invariant
            i <= polygons@.len(),
            text@ == start + polygon_lines(polygons@.take(i as int)),
        decreases polygons@.len() - i,
    {
        let coord_str = get_coord_str(&polygons[i]);
        text.append("<polygon points=\"");
        text.append(coord_str.as_str());
        text.append("\" fill=\"grey\" stroke=\"black\" />\n");
        assert(polygons@.take(i + 1).drop_last() =~= polygons@.take(i as int));
        i += 1;
    }
    text.append("</svg>\n");
    assert(polygons@.take(i as int) =~= polygons@);
    text
}

} // verus!
