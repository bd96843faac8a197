//! Polygons to test with, and a loader for polygons that are drawn as SVG.

use vstd::prelude::*;
use vstd::string::StringSliceAdditionalSpecFns;
use crate::coordinate::Coordinate;
use crate::detail::sync_status::SyncStatus;
use crate::point2d::Point2D;
use crate::polygon::Polygon;

verus! {

/// Why a text could not be loaded as a polygon.
#[derive(Debug, Clone, Copy, PartialEq, Eq, Structural)]
pub enum LoadError {
    /// The text has no `<polygon ` tag.
    MissingTag,
    /// The tag has no `points="` attribute after it.
    MissingPoints,
    /// The points attribute has no closing quote.
    UnclosedPoints,
    /// The part of the text from byte `start` up to byte `end` stands where a
    /// coordinate has to stand, and is not an integer that fits in one.
    InvalidCoordinate { start: usize, end: usize },
    /// The number of coordinates is odd: the last X has no Y with it.
    MissingY,
}

/// The text `<polygon ` in bytes.
pub open spec fn polygon_tag() -> Seq<u8> {
    seq![0x3Cu8, 0x70u8, 0x6Fu8, 0x6Cu8, 0x79u8, 0x67u8, 0x6Fu8, 0x6Eu8, 0x20u8]
}

/// The text `points="` in bytes.
pub open spec fn points_attribute() -> Seq<u8> {
    seq![0x70u8, 0x6Fu8, 0x69u8, 0x6Eu8, 0x74u8, 0x73u8, 0x3Du8, 0x22u8]
}

/// A double quote in bytes.
pub open spec fn quote() -> Seq<u8> {
    seq![0x22u8]
}

/// Whether `pattern` stands in `text` at position `at`.
pub open spec fn occurs_at(text: Seq<u8>, pattern: Seq<u8>, at: int) -> bool {
    &&& 0 <= at
    &&& at + pattern.len() <= text.len()
    &&& forall|k: int| 0 <= k < pattern.len() ==> #[trigger] text[at + k] == pattern[k]
}

/// The first position at or after `from` at which `pattern` stands in `text`.
pub open spec fn find_from(text: Seq<u8>, pattern: Seq<u8>, from: int) -> Option<int>
    decreases text.len() - from,
{
    if from < 0 || from + pattern.len() > text.len() {
        None
    } else if occurs_at(text, pattern, from) {
        Some(from)
    } else {
        find_from(text, pattern, from + 1)
    }
}

/// Whether a byte separates two coordinates: a space or a comma.
pub open spec fn is_separator(byte: u8) -> bool {
    byte == 0x20 || byte == 0x2C
}

/// Whether a byte is a decimal digit.
pub open spec fn is_digit(byte: u8) -> bool {
    0x30 <= byte <= 0x39
}

/// Whether every byte of `text` is a decimal digit.
pub open spec fn all_digits(text: Seq<u8>) -> bool {
    forall|i: int| 0 <= i < text.len() ==> is_digit(#[trigger] text[i])
}

/// The number that the decimal digits `digits` write.
pub open spec fn decimal_value(digits: Seq<u8>) -> nat
    decreases digits.len(),
{
    if digits.len() == 0 {
        0
    } else {
        decimal_value(digits.drop_last()) * 10 + (digits.last() - 0x30) as nat
    }
}

/// The coordinate that `token` writes: an optional `+` or `-`, then one
/// decimal digit or more, with a value that fits in a coordinate. `None` if
/// the token is written otherwise.
pub open spec fn coordinate_value(token: Seq<u8>) -> Option<Coordinate> {
    let negative = token.len() > 0 && token[0] == 0x2D;
    let signed = token.len() > 0 && (token[0] == 0x2D || token[0] == 0x2B);
    let digits = if signed {
        token.subrange(1, token.len() as int)
    } else {
        token
    };
    let value = if negative {
        -(decimal_value(digits) as int)
    } else {
        decimal_value(digits) as int
    };
    if digits.len() > 0 && all_digits(digits) && Coordinate::MIN <= value <= Coordinate::MAX {
        Some(value as Coordinate)
    } else {
        None
    }
}

/// Where the token that starts at `from` ends: at the first separator at or
/// after `from`, or at `limit` if there is none before it.
pub open spec fn token_end(text: Seq<u8>, from: int, limit: int) -> int
    decreases limit - from,
{
    if from < 0 || from >= limit || from >= text.len() || is_separator(text[from]) {
        from
    } else {
        token_end(text, from + 1, limit)
    }
}

/// The coordinates that are written in `text` from `from` up to `limit`, a
/// separator between every two of them, or the first token that is not a
/// coordinate.
///
/// Two separators in a row have an empty token between them, and a separator
/// at the end has one after it; an empty token is not a coordinate.
pub open spec fn coordinates_from(text: Seq<u8>, from: int, limit: int) -> Result<
    Seq<Coordinate>,
    LoadError,
>
    decreases limit - from,
{
    let end = token_end(text, from, limit);
    match coordinate_value(text.subrange(from, end)) {
        None => Err(LoadError::InvalidCoordinate { start: from as usize, end: end as usize }),
        Some(value) => if from <= end < limit {
            match coordinates_from(text, end + 1, limit) {
                Ok(rest) => Ok(seq![value] + rest),
                Err(error) => Err(error),
            }
        } else {
            Ok(seq![value])
        },
    }
}

/// The points that an even number of coordinates give: every two coordinates
/// in a row are the X and the Y of one point.
pub open spec fn paired(coordinates: Seq<Coordinate>) -> Seq<Point2D> {
    Seq::new(
        coordinates.len() / 2,
        |i: int| Point2D { x: coordinates[2 * i], y: coordinates[2 * i + 1] },
    )
}

/// The vertices of the first polygon that the SVG document `svg` draws, or
/// why the document gives none.
///
/// The document is searched for the first `<polygon ` tag, after that for the
/// first `points="` attribute, and after that for the quote that closes the
/// attribute. In between stand the coordinates, separated by spaces or commas.
/// Everything else in the document is ignored.
pub open spec fn parsed_polygon(svg: Seq<u8>) -> Result<Seq<Point2D>, LoadError> {
    match find_from(svg, polygon_tag(), 0) {
        None => Err(LoadError::MissingTag),
        Some(tag) => match find_from(svg, points_attribute(), tag + polygon_tag().len()) {
            None => Err(LoadError::MissingPoints),
            Some(attribute) => {
                let first = attribute + points_attribute().len();
                match find_from(svg, quote(), first) {
                    None => Err(LoadError::UnclosedPoints),
                    Some(close) => match coordinates_from(svg, first, close) {
                        Err(error) => Err(error),
                        Ok(coordinates) => if coordinates.len() % 2 == 0 {
                            Ok(paired(coordinates))
                        } else {
                            Err(LoadError::MissingY)
                        },
                    },
                }
            },
        },
    }
}

/// What was loaded, as a sequence of vertices.
pub open spec fn loaded_vertices(loaded: Result<Polygon, LoadError>) -> Result<
    Seq<Point2D>,
    LoadError,
> {
    match loaded {
        Ok(polygon) => Ok(polygon@),
        Err(error) => Err(error),
    }
}

/// The vertices of a square with sides of 1000 units, counter-clockwise from
/// the coordinate origin.
pub open spec fn square_1000_vertices() -> Seq<Point2D> {
    seq![
        Point2D { x: 0, y: 0 },
        Point2D { x: 1000, y: 0 },
        Point2D { x: 1000, y: 1000 },
        Point2D { x: 0, y: 1000 },
    ]
}

/// The vertices of a triangle with a base of 1000 units parallel to the X
/// axis, counter-clockwise from the left end of the base at 24,24.
pub open spec fn triangle_1000_vertices() -> Seq<Point2D> {
    seq![Point2D { x: 24, y: 24 }, Point2D { x: 1024, y: 24 }, Point2D { x: 524, y: 1024 }]
}

/// The points that coordinates give are the points that pushing them one
/// after the other builds: two more coordinates give one more point at the
/// end, and no coordinates give no points.
pub proof fn lemma_paired_is_pushed(coordinates: Seq<Coordinate>, x: Coordinate, y: Coordinate)
    requires
        coordinates.len() % 2 == 0,
    ensures
        paired(Seq::<Coordinate>::empty()) == Seq::<Point2D>::empty(),
        paired(coordinates.push(x).push(y)) == paired(coordinates).push(Point2D { x, y }),
{
    let more = coordinates.push(x).push(y);
    assert(paired(Seq::<Coordinate>::empty()) =~= Seq::<Point2D>::empty());
    assert(more.len() / 2 == coordinates.len() / 2 + 1);
    assert forall|i: int| 0 <= i < more.len() / 2 implies paired(more)[i] == paired(coordinates).push(
        Point2D { x, y },
    )[i] by {
        if i < coordinates.len() / 2 {
            assert(more[2 * i] == coordinates[2 * i]);
            assert(more[2 * i + 1] == coordinates[2 * i + 1]);
        } else {
            assert(2 * i == coordinates.len());
        }
    }
    assert(paired(more) =~= paired(coordinates).push(Point2D { x, y }));
}

/// What `find_from` finds is the first place at or after `from` where the
/// pattern stands, and it finds nothing only if there is no such place.
pub proof fn lemma_find_from_is_first(text: Seq<u8>, pattern: Seq<u8>, from: int)
    requires
        0 <= from,
    ensures
        match find_from(text, pattern, from) {
            Some(at) => {
                &&& from <= at
                &&& occurs_at(text, pattern, at)
                &&& forall|earlier: int| from <= earlier < at ==> !occurs_at(text, pattern, earlier)
            },
            None => forall|at: int| from <= at ==> !occurs_at(text, pattern, at),
        },
    decreases text.len() - from,
{
    if from + pattern.len() > text.len() {
    } else if occurs_at(text, pattern, from) {
    } else {
        lemma_find_from_is_first(text, pattern, from + 1);
    }
}

/// A token ends at or after its start and at or before the limit, on a
/// separator if before the limit, and has no separator in it.
pub proof fn lemma_token_end(text: Seq<u8>, from: int, limit: int)
    requires
        0 <= from <= limit <= text.len(),
    ensures
        from <= token_end(text, from, limit) <= limit,
        token_end(text, from, limit) < limit ==> is_separator(text[token_end(text, from, limit)]),
        forall|i: int| from <= i < token_end(text, from, limit) ==> !is_separator(#[trigger] text[i]),
    decreases limit - from,
{
    if from >= limit || is_separator(text[from]) {
    } else {
        lemma_token_end(text, from + 1, limit);
    }
}

/// More digits do not write a smaller number.
proof fn lemma_decimal_value_grows(digits: Seq<u8>, count: int)
    requires
        0 <= count <= digits.len(),
    ensures
        decimal_value(digits.subrange(0, count)) <= decimal_value(digits),
    decreases digits.len() - count,
{
    if count == digits.len() {
        assert(digits.subrange(0, count) =~= digits);
    } else {
        lemma_decimal_value_grows(digits.drop_last(), count);
        assert(digits.drop_last().subrange(0, count) =~= digits.subrange(0, count));
    }
}

/// Whether `pattern` stands in `text` at position `at`.
fn matches_at(text: &[u8], pattern: &[u8], at: usize) -> (matches: bool)
    requires
        at + pattern@.len() <= text@.len(),
    ensures
        matches == occurs_at(text@, pattern@, at as int),
{
    let len = text.len();
    let mut k: usize = 0;
    while k < pattern.len()
        invariant
            k <= pattern@.len(),
            at + pattern@.len() <= text@.len(),
            len == text@.len(),
            forall|j: int| 0 <= j < k ==> #[trigger] text@[at + j] == pattern@[j],
        decreases pattern@.len() - k,
    {
        if text[at + k] != pattern[k] {
            return false;
        }
        k += 1;
    }
    true
}

/// The first position at or after `from` at which `pattern` stands in `text`.
fn find(text: &[u8], pattern: &[u8], from: usize) -> (found: Option<usize>)
    ensures
        match found {
            Some(at) => {
                &&& find_from(text@, pattern@, from as int) == Some(at as int)
                &&& from <= at
                &&& at + pattern@.len() <= text@.len()
            },
            None => find_from(text@, pattern@, from as int) is None,
        },
{
    if pattern.len() > text.len() {
        return None;
    }
    let last = text.len() - pattern.len();
    let mut at = from;
    while at <= last
        invariant
            from <= at,
            last + pattern@.len() == text@.len(),
            find_from(text@, pattern@, from as int) == find_from(text@, pattern@, at as int),
        decreases last - at,
    {
        if matches_at(text, pattern, at) {
            return Some(at);
        }
        if at == last {
            return None;
        }
        at += 1;
    }
    None
}

/// Where the token that starts at `from` ends.
fn scan_token(text: &[u8], from: usize, limit: usize) -> (end: usize)
    requires
        from <= limit <= text@.len(),
    ensures
        end == token_end(text@, from as int, limit as int),
        from <= end <= limit,
{
    let mut end = from;
    while end < limit && !(text[end] == 0x20 || text[end] == 0x2C)
        invariant
            from <= end <= limit <= text@.len(),
            token_end(text@, from as int, limit as int) == token_end(text@, end as int, limit as int),
        decreases limit - end,
    {
        end += 1;
    }
    end
}

/// The coordinate that is written in `text` from `start` up to `end`.
#[verifier::loop_isolation(false)]
fn parse_coordinate(text: &[u8], start: usize, end: usize) -> (value: Option<Coordinate>)
    requires
        start <= end <= text@.len(),
    ensures
        value == coordinate_value(text@.subrange(start as int, end as int)),
{
    let ghost token = text@.subrange(start as int, end as int);
    if start == end {
        return None;
    }
    assert(token[0] == text@[start as int]);
    let negative = text[start] == 0x2D;
    let signed = negative || text[start] == 0x2B;
    let first = if signed {
        start + 1
    } else {
        start
    };
    if first == end {
        return None;
    }
    let ghost digits = text@.subrange(first as int, end as int);
    assert(digits =~= if signed {
        token.subrange(1, token.len() as int)
    } else {
        token
    });
    let mut magnitude: i64 = 0;
    let mut i = first;
    while i < end
        invariant
            first <= i <= end <= text@.len(),
            digits == text@.subrange(first as int, end as int),
            all_digits(text@.subrange(first as int, i as int)),
            magnitude == decimal_value(text@.subrange(first as int, i as int)),
            0 <= magnitude <= 0x8000_0000,
        decreases end - i,
    {
        let byte = text[i];
        let ghost before = text@.subrange(first as int, i as int);
        let ghost after = text@.subrange(first as int, i + 1);
        assert(after.drop_last() =~= before);
        assert(after.last() == byte);
        assert(digits[i - first] == byte);
        if byte < 0x30 || byte > 0x39 {
            assert(!is_digit(digits[i - first]));
            return None;
        }
        magnitude = magnitude * 10 + (byte - 0x30) as i64;
        assert(magnitude == decimal_value(after));
        if magnitude > 0x8000_0000 {
            proof {
                assert(digits.subrange(0, i + 1 - first) =~= after);
                lemma_decimal_value_grows(digits, i + 1 - first);
            }
            return None;
        }
        assert forall|k: int| 0 <= k < after.len() implies is_digit(#[trigger] after[k]) by {
            if k < before.len() {
                assert(before[k] == after[k]);
            }
        }
        i += 1;
    }
    assert(text@.subrange(first as int, end as int) == digits);
    if negative {
        Some((-magnitude) as i32)
    } else if magnitude <= 0x7FFF_FFFF {
        Some(magnitude as i32)
    } else {
        None
    }
}

/// The coordinates that are written in `text` from `from` up to `limit`, or
/// the first token that is not a coordinate.
fn parse_coordinates(text: &[u8], from: usize, limit: usize) -> (parsed: Result<
    Vec<Coordinate>,
    LoadError,
>)
    requires
        from <= limit <= text@.len(),
    ensures
        match parsed {
            Ok(coordinates) => coordinates_from(text@, from as int, limit as int) == Ok::<
                Seq<Coordinate>,
                LoadError,
            >(coordinates@),
            Err(error) => coordinates_from(text@, from as int, limit as int) == Err::<
                Seq<Coordinate>,
                LoadError,
            >(error),
        },
{
    let mut coordinates: Vec<Coordinate> = Vec::new();
    let mut start = from;
    loop
        invariant
            from <= start <= limit <= text@.len(),
            coordinates_from(text@, from as int, limit as int) == match coordinates_from(
                text@,
                start as int,
                limit as int,
            ) {
                Ok(rest) => Ok::<Seq<Coordinate>, LoadError>(coordinates@ + rest),
                Err(error) => Err(error),
            },
        decreases limit - start,
    {
        let end = scan_token(text, start, limit);
        match parse_coordinate(text, start, end) {
            None => {
                return Err(LoadError::InvalidCoordinate { start, end });
            },
            Some(value) => {
                let ghost before = coordinates@;
                coordinates.push(value);
                if end < limit {
                    proof {
                        match coordinates_from(text@, end + 1, limit as int) {
                            Ok(rest) => {
                                assert(before + (seq![value] + rest) =~= coordinates@ + rest);
                            },
                            Err(_) => {},
                        }
                    }
                    start = end + 1;
                } else {
                    assert(before + seq![value] =~= coordinates@);
                    return Ok(coordinates);
                }
            },
        }
    }
}

/// The points that an even number of coordinates give.
fn pair_up(coordinates: &Vec<Coordinate>) -> (vertices: Vec<Point2D>)
    requires
        coordinates@.len() % 2 == 0,
    ensures
        vertices@ == paired(coordinates@),
{
    let len = coordinates.len();
    let count = len / 2;
    let mut vertices: Vec<Point2D> = Vec::new();
    let mut i: usize = 0;
    while i < count
        invariant
            i <= count,
            len == coordinates@.len(),
            count == coordinates@.len() / 2,
            coordinates@.len() % 2 == 0,
            vertices@.len() == i,
            forall|k: int| 0 <= k < i ==> vertices@[k] == paired(coordinates@)[k],
        decreases count - i,
    {
        vertices.push(Point2D { x: coordinates[2 * i], y: coordinates[2 * i + 1] });
        i += 1;
    }
    assert(vertices@ =~= paired(coordinates@));
    vertices
}

/// Load the first polygon that an SVG document draws.
///
/// This finds the first `<polygon ` tag in the document and takes the
/// `points` attribute after it. The coordinates in it, separated by spaces or
/// by commas, give the vertices of the polygon two by two. Other tags,
/// groups and transforms are ignored, so that the polygon may differ from what
/// an SVG renderer shows.
///
/// A document without such a tag or attribute, or with anything but integer
/// coordinates in it, is refused with the reason. A polygon that was loaded is
/// as `Polygon::from_vertices` makes it: the host's copy leads, and no more
/// room is reserved than the vertices take.
pub fn load_polygon(svg: &str) -> (loaded: Result<Polygon, LoadError>)
    ensures
        loaded_vertices(loaded) == parsed_polygon(svg.spec_bytes()),
        loaded matches Ok(polygon) ==> polygon.spec_sync_status() == SyncStatus::HOST
            && polygon.spec_capacity() == polygon@.len(),
{
    let text = svg.as_bytes();
    let tag: [u8; 9] = [0x3C, 0x70, 0x6F, 0x6C, 0x79, 0x67, 0x6F, 0x6E, 0x20];
    let attribute: [u8; 8] = [0x70, 0x6F, 0x69, 0x6E, 0x74, 0x73, 0x3D, 0x22];
    let closing: [u8; 1] = [0x22];
    let length = text.len();
    let tag = tag.as_slice();
    let attribute = attribute.as_slice();
    let closing = closing.as_slice();
    assert(tag@ =~= polygon_tag());
    assert(attribute@ =~= points_attribute());
    assert(closing@ =~= quote());
    let tag_at = match find(text, tag, 0) {
        Some(at) => at,
        None => {
            return Err(LoadError::MissingTag);
        },
    };
    let attribute_at = match find(text, attribute, tag_at + 9) {
        Some(at) => at,
        None => {
            return Err(LoadError::MissingPoints);
        },
    };
    let first = attribute_at + 8;
    let close = match find(text, closing, first) {
        Some(at) => at,
        None => {
            return Err(LoadError::UnclosedPoints);
        },
    };
    let coordinates = match parse_coordinates(text, first, close) {
        Ok(coordinates) => coordinates,
        Err(error) => {
            return Err(error);
        },
    };
    if coordinates.len() % 2 != 0 {
        return Err(LoadError::MissingY);
    }
    Ok(Polygon::from_vertices(pair_up(&coordinates)))
}

/// A 1000x1000 square.
///
/// The square starts at the coordinate origin with the seam. It is centred at
/// 500,500.
pub fn square_1000() -> (polygon: Polygon)
    ensures
        polygon@ == square_1000_vertices(),
        polygon.spec_capacity() == 4,
        polygon.spec_sync_status() == SyncStatus::HOST,
{
    let mut polygon = Polygon::with_capacity(4);
    polygon.push(Point2D { x: 0, y: 0 });
    polygon.push(Point2D { x: 1000, y: 0 });
    polygon.push(Point2D { x: 1000, y: 1000 });
    polygon.push(Point2D { x: 0, y: 1000 });
    assert(polygon@ =~= square_1000_vertices());
    polygon
}

/// A triangle with base 1000.
///
/// The triangle starts at 24,24 with the seam. The base of length 1000 extends
/// from there parallel to the X axis.
pub fn triangle_1000() -> (polygon: Polygon)
    ensures
        polygon@ == triangle_1000_vertices(),
        polygon.spec_capacity() == 3,
        polygon.spec_sync_status() == SyncStatus::HOST,
{
    let mut polygon = Polygon::with_capacity(3);
    polygon.push(Point2D { x: 24, y: 24 });
    polygon.push(Point2D { x: 1024, y: 24 });
    polygon.push(Point2D { x: 524, y: 1024 });
    assert(polygon@ =~= triangle_1000_vertices());
    polygon
}

} // verus!
