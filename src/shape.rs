//! Assembly of marker outlines into plane segments.
//!
//! A marker is drawn as a list of coloured segments in the static plane. The
//! points handed to these functions are already expressed in that plane: the
//! rigid transform and the trigonometry that place them are done by the
//! caller, and this module decides which points are joined, in which order,
//! and how many segments each kind of marker yields.
use vstd::prelude::*;

verus! {

/// A colour with three 8-bit channels.
#[derive(Clone, Copy, PartialEq, Eq, Structural, Debug)]
pub struct Rgb {
    pub r: u8,
    pub g: u8,
    pub b: u8,
}

/// A coloured segment between two plane points.
#[derive(Clone, Copy, Debug)]
pub struct Segment<P> {
    pub start: P,
    pub end: P,
    pub color: Rgb,
}

/// The four corners of a rectangular face, in loop order.
#[derive(Clone, Copy, Debug)]
pub struct Face<P> {
    pub a: P,
    pub b: P,
    pub c: P,
    pub d: P,
}

/// A box: its top face, and its bottom face when the box is drawn in full.
///
/// A box whose roll and pitch are both negligible is drawn by its top face
/// only; the caller then leaves `bottom` empty.
#[derive(Clone, Copy, Debug)]
pub struct Cuboid<P> {
    pub top: Face<P>,
    pub bottom: Option<Face<P>>,
}

/// An arrow: its shaft from `tail` to `tip`, and two head wings from `tip`.
#[derive(Clone, Copy, Debug)]
pub struct Arrow<P> {
    pub tail: P,
    pub tip: P,
    pub left: P,
    pub right: P,
}

/// The outline of one marker, placed in the plane.
pub enum Shape<P> {
    Arrow(Arrow<P>),
    Cube(Cuboid<P>),
    CubeList(Vec<Cuboid<P>>),
    LineStrip(Vec<P>),
    LineList(Vec<P>),
    /// A kind of marker that has no outline here, or a malformed arrow.
    Nothing,
}

pub open spec fn seg<P>(start: P, end: P, color: Rgb) -> Segment<P> {
    Segment { start, end, color }
}

/// A broken line through `pts`: one segment between each two consecutive points.
pub open spec fn strip_spec<P>(pts: Seq<P>, color: Rgb) -> Seq<Segment<P>> {
    if pts.len() == 0 {
        Seq::empty()
    } else {
        Seq::new((pts.len() - 1) as nat, |i: int| seg(pts[i], pts[i + 1], color))
    }
}

/// The broken lines of `strips`, one after the other.
pub open spec fn strips_spec<P>(strips: Seq<Seq<P>>, color: Rgb) -> Seq<Segment<P>>
    decreases strips.len(),
{
    if strips.len() == 0 {
        Seq::empty()
    } else {
        strips_spec(strips.drop_last(), color) + strip_spec(strips.last(), color)
    }
}

/// Points taken two by two, one segment per pair; an unpaired last point is dropped.
pub open spec fn pairs_spec<P>(pts: Seq<P>, color: Rgb) -> Seq<Segment<P>> {
    Seq::new(pts.len() / 2, |i: int| seg(pts[2 * i], pts[2 * i + 1], color))
}

/// The closed loop around a face: four edges.
pub open spec fn face_spec<P>(f: Face<P>, color: Rgb) -> Seq<Segment<P>> {
    seq![seg(f.a, f.b, color), seg(f.b, f.c, color), seg(f.c, f.d, color), seg(f.d, f.a, color)]
}

/// The edges of a box: the top loop, then, for a box drawn in full, the
/// bottom loop and the four vertical edges.
pub open spec fn cuboid_spec<P>(q: Cuboid<P>, color: Rgb) -> Seq<Segment<P>> {
    match q.bottom {
        None => face_spec(q.top, color),
        Some(b) => face_spec(q.top, color) + face_spec(b, color) + seq![
            seg(q.top.a, b.a, color),
            seg(q.top.b, b.b, color),
            seg(q.top.c, b.c, color),
            seg(q.top.d, b.d, color),
        ],
    }
}

/// The boxes of `qs`, one after the other.
pub open spec fn cuboids_spec<P>(qs: Seq<Cuboid<P>>, color: Rgb) -> Seq<Segment<P>>
    decreases qs.len(),
{
    if qs.len() == 0 {
        Seq::empty()
    } else {
        cuboids_spec(qs.drop_last(), color) + cuboid_spec(qs.last(), color)
    }
}

/// The shaft, then the two head wings.
pub open spec fn arrow_spec<P>(a: Arrow<P>, color: Rgb) -> Seq<Segment<P>> {
    seq![seg(a.tail, a.tip, color), seg(a.tip, a.left, color), seg(a.tip, a.right, color)]
}

pub open spec fn shape_spec<P>(s: Shape<P>, color: Rgb) -> Seq<Segment<P>> {
    match s {
        Shape::Arrow(a) => arrow_spec(a, color),
        Shape::Cube(q) => cuboid_spec(q, color),
        Shape::CubeList(qs) => cuboids_spec(qs@, color),
        Shape::LineStrip(pts) => strip_spec(pts@, color),
        Shape::LineList(pts) => pairs_spec(pts@, color),
        Shape::Nothing => Seq::empty(),
    }
}

/// Appends to `out` the segments of one broken line through `pts`.
fn push_strip<P: Copy>(out: &mut Vec<Segment<P>>, pts: &Vec<P>, color: Rgb)
    ensures
        final(out)@ == old(out)@ + strip_spec(pts@, color),
{
    let ghost start = out@;
    if pts.len() == 0 {
        assert(start + strip_spec(pts@, color) =~= start);
        return ;
    }
    let mut i: usize = 1;
    while i < pts.len()
        invariant
            1 <= i <= pts.len(),
            out@ == start + Seq::new((i - 1) as nat, |k: int| seg(pts@[k], pts@[k + 1], color)),
        decreases pts.len() - i,
    {
        let s = Segment { start: pts[i - 1], end: pts[i], color };
        out.push(s);
        i += 1;
        assert(out@ =~= start + Seq::new((i - 1) as nat, |k: int| seg(pts@[k], pts@[k + 1], color)));
    }
    assert(out@ =~= start + strip_spec(pts@, color));
}

/// Creates the segments of N broken lines, one after the other.
///
/// Each element of `strips` is one broken line: N points give N-1 segments.
pub fn from_point_strips<P: Copy>(strips: &Vec<Vec<P>>, color: Rgb) -> (r: Vec<Segment<P>>)
    ensures
        r@ == strips_spec(strips@.map_values(|s: Vec<P>| s@), color),
{
    let ghost views = strips@.map_values(|s: Vec<P>| s@);
    let mut lines: Vec<Segment<P>> = Vec::new();
    let mut i: usize = 0;
    while i < strips.len()
        invariant
            i <= strips.len(),
            views == strips@.map_values(|s: Vec<P>| s@),
            lines@ == strips_spec(views.subrange(0, i as int), color),
        decreases strips.len() - i,
    {
        push_strip(&mut lines, &strips[i], color);
        assert(views.subrange(0, i + 1).drop_last() =~= views.subrange(0, i as int));
        i += 1;
    }
    assert(views.subrange(0, strips.len() as int) =~= views);
    lines
}

fn push_face<P: Copy>(out: &mut Vec<Segment<P>>, f: &Face<P>, color: Rgb)
    ensures
        final(out)@ == old(out)@ + face_spec(*f, color),
{
    let ghost start = out@;
    out.push(Segment { start: f.a, end: f.b, color });
    out.push(Segment { start: f.b, end: f.c, color });
    out.push(Segment { start: f.c, end: f.d, color });
    out.push(Segment { start: f.d, end: f.a, color });
    assert(out@ =~= start + face_spec(*f, color));
}

fn push_cuboid<P: Copy>(out: &mut Vec<Segment<P>>, q: &Cuboid<P>, color: Rgb)
    ensures
        final(out)@ == old(out)@ + cuboid_spec(*q, color),
{
    let ghost start = out@;
    push_face(out, &q.top, color);
    match &q.bottom {
        None => {
            assert(out@ =~= start + cuboid_spec(*q, color));
        },
        Some(b) => {
            push_face(out, b, color);
            out.push(Segment { start: q.top.a, end: b.a, color });
            out.push(Segment { start: q.top.b, end: b.b, color });
            out.push(Segment { start: q.top.c, end: b.c, color });
            out.push(Segment { start: q.top.d, end: b.d, color });
            assert(out@ =~= start + cuboid_spec(*q, color));
        },
    }
}

/// The edges of one box: 4 when only its top face is drawn, 12 otherwise.
pub fn parse_cube<P: Copy>(q: &Cuboid<P>, color: Rgb) -> (r: Vec<Segment<P>>)
    ensures
        r@ == cuboid_spec(*q, color),
        r@.len() == if q.bottom is None { 4nat } else { 12nat },
{
    let mut lines: Vec<Segment<P>> = Vec::new();
    push_cuboid(&mut lines, q, color);
    assert(lines@ =~= cuboid_spec(*q, color));
    lines
}

/// The edges of every box of the list, one box after the other.
pub fn parse_cube_list_msg<P: Copy>(qs: &Vec<Cuboid<P>>, color: Rgb) -> (r: Vec<Segment<P>>)
    ensures
        r@ == cuboids_spec(qs@, color),
{
    let mut lines: Vec<Segment<P>> = Vec::new();
    let mut i: usize = 0;
    while i < qs.len()
        invariant
            i <= qs.len(),
            lines@ == cuboids_spec(qs@.subrange(0, i as int), color),
        decreases qs.len() - i,
    {
        push_cuboid(&mut lines, &qs[i], color);
        assert(qs@.subrange(0, i + 1).drop_last() =~= qs@.subrange(0, i as int));
        i += 1;
    }
    assert(qs@.subrange(0, qs.len() as int) =~= qs@);
    lines
}

/// The three segments of an arrow: the shaft, then both head wings, which
/// start at the tip.
pub fn parse_arrow_msg<P: Copy>(a: &Arrow<P>, color: Rgb) -> (r: Vec<Segment<P>>)
    ensures
        r@ == arrow_spec(*a, color),
{
    let mut lines: Vec<Segment<P>> = Vec::new();
    lines.push(Segment { start: a.tail, end: a.tip, color });
    lines.push(Segment { start: a.tip, end: a.left, color });
    lines.push(Segment { start: a.tip, end: a.right, color });
    assert(lines@ =~= arrow_spec(*a, color));
    lines
}

/// One broken line through the points: N points give N-1 segments.
pub fn parse_line_strip_msg<P: Copy>(pts: &Vec<P>, color: Rgb) -> (r: Vec<Segment<P>>)
    ensures
        r@ == strip_spec(pts@, color),
{
    let mut lines: Vec<Segment<P>> = Vec::new();
    push_strip(&mut lines, pts, color);
    assert(lines@ =~= strip_spec(pts@, color));
    lines
}

/// The points taken two by two, one segment per pair.
///
/// An odd number of points is malformed input: the last point, which has no
/// partner, is dropped and the pairs before it are kept.
pub fn parse_line_list_msg<P: Copy>(pts: &Vec<P>, color: Rgb) -> (r: Vec<Segment<P>>)
    ensures
        r@ == pairs_spec(pts@, color),
        r@.len() == pts@.len() / 2,
{
    let mut lines: Vec<Segment<P>> = Vec::new();
    let mut i: usize = 0;
    while i + 1 < pts.len()
        invariant
            i % 2 == 0,
            i <= pts.len(),
            lines@ == Seq::new((i / 2) as nat, |k: int| seg(pts@[2 * k], pts@[2 * k + 1], color)),
        decreases pts.len() - i,
    {
        lines.push(Segment { start: pts[i], end: pts[i + 1], color });
        i += 2;
        assert(lines@ =~= Seq::new((i / 2) as nat, |k: int| seg(pts@[2 * k], pts@[2 * k + 1], color)));
    }
    assert(lines@ =~= pairs_spec(pts@, color));
    lines
}

/// All the segments of one marker outline.
pub fn parse_shape<P: Copy>(s: &Shape<P>, color: Rgb) -> (r: Vec<Segment<P>>)
    ensures
        r@ == shape_spec(*s, color),
{
    match s {
        Shape::Arrow(a) => parse_arrow_msg(a, color),
        Shape::Cube(q) => parse_cube(q, color),
        Shape::CubeList(qs) => parse_cube_list_msg(qs, color),
        Shape::LineStrip(pts) => parse_line_strip_msg(pts, color),
        Shape::LineList(pts) => parse_line_list_msg(pts, color),
        Shape::Nothing => Vec::new(),
    }
}

/// Marker type codes of the visualization message.
pub const ARROW: i32 = 0;
pub const CUBE: i32 = 1;
pub const LINE_STRIP: i32 = 4;
pub const LINE_LIST: i32 = 5;
pub const CUBE_LIST: i32 = 6;

/// What the caller has to place in the plane for one marker.
#[derive(Clone, Copy, PartialEq, Eq, Structural, Debug)]
pub enum ShapeKind {
    /// An arrow from the pose's origin, `scale.x` long along its x axis.
    ArrowFromScale,
    /// An arrow from the first point (tail) to the second (tip).
    ArrowFromPoints,
    Cube,
    CubeList,
    LineStrip,
    LineList,
    /// No outline: an unsupported kind, or an arrow with neither zero nor two points.
    Empty,
}

pub open spec fn kind_spec(type_code: i32, n_points: nat) -> ShapeKind {
    if type_code == ARROW {
        if n_points == 0 {
            ShapeKind::ArrowFromScale
        } else if n_points == 2 {
            ShapeKind::ArrowFromPoints
        } else {
            ShapeKind::Empty
        }
    } else if type_code == CUBE {
        ShapeKind::Cube
    } else if type_code == CUBE_LIST {
        ShapeKind::CubeList
    } else if type_code == LINE_STRIP {
        ShapeKind::LineStrip
    } else if type_code == LINE_LIST {
        ShapeKind::LineList
    } else {
        ShapeKind::Empty
    }
}

impl ShapeKind {
    /// Classifies a marker by its type code and the number of points it carries.
    pub fn of(type_code: i32, n_points: usize) -> (r: ShapeKind)
        ensures
            r == kind_spec(type_code, n_points as nat),
    {
        if type_code == ARROW {
            if n_points == 0 {
                ShapeKind::ArrowFromScale
            } else if n_points == 2 {
                ShapeKind::ArrowFromPoints
            } else {
                ShapeKind::Empty
            }
        } else if type_code == CUBE {
            ShapeKind::Cube
        } else if type_code == CUBE_LIST {
            ShapeKind::CubeList
        } else if type_code == LINE_STRIP {
            ShapeKind::LineStrip
        } else if type_code == LINE_LIST {
            ShapeKind::LineList
        } else {
            ShapeKind::Empty
        }
    }
}

} // verus!
