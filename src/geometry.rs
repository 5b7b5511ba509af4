use vstd::prelude::*;

use crate::geometry_type::GeometryType;

verus! {

/// One coordinate pair. Each field holds the IEEE-754 bit pattern of an `f64`
/// (`f64::to_bits`), so that values travel through the buffers bit for bit.
#[derive(Debug, Clone, Copy, PartialEq, Eq, Structural)]
pub struct Coord {
    pub x: u64,
    pub y: u64,
}

impl Coord {
    pub fn new(x: u64, y: u64) -> (r: Coord)
        ensures
            r == (Coord { x, y }),
    {
        Coord { x, y }
    }
}

/// The coordinates of a sequence of owned coordinate vectors.
pub open spec fn rings_view(rings: Seq<Vec<Coord>>) -> Seq<Seq<Coord>> {
    Seq::new(rings.len(), |i: int| rings[i]@)
}

/// A copy of a sequence of points.
pub fn copy_coords(v: &Vec<Coord>) -> (r: Vec<Coord>)
    ensures
        r@ == v@,
{
    let mut out: Vec<Coord> = Vec::with_capacity(v.len());
    let mut i: usize = 0;
    while i < v.len()
        invariant
            i <= v@.len(),
            out@ == v@.subrange(0, i as int),
        decreases v@.len() - i,
    {
        out.push(v[i]);
        assert(v@.subrange(0, i + 1) =~= v@.subrange(0, i as int).push(v@[i as int]));
        i = i + 1;
    }
    assert(v@.subrange(0, i as int) =~= v@);
    out
}

/// A copy of a sequence of rings.
pub fn copy_rings(v: &Vec<Vec<Coord>>) -> (r: Vec<Vec<Coord>>)
    ensures
        rings_view(r@) == rings_view(v@),
{
    let mut out: Vec<Vec<Coord>> = Vec::with_capacity(v.len());
    let mut i: usize = 0;
    while i < v.len()
        invariant
            i <= v@.len(),
            out@.len() == i,
            forall|k: int| 0 <= k < i ==> (#[trigger] out@[k])@ == v@[k]@,
        decreases v@.len() - i,
    {
        out.push(copy_coords(&v[i]));
        i = i + 1;
    }
    assert(rings_view(out@) =~= rings_view(v@));
    out
}

/// An owned line string.
#[derive(Debug, Clone, PartialEq)]
pub struct GeoLineString {
    pub coords: Vec<Coord>,
}

impl GeoLineString {
    /// A copy with the same points.
    pub fn duplicate(&self) -> (r: GeoLineString)
        ensures
            r@ == self@,
    {
        GeoLineString { coords: copy_coords(&self.coords) }
    }
}

impl View for GeoLineString {
    type V = Seq<Coord>;

    open spec fn view(&self) -> Seq<Coord> {
        self.coords@
    }
}

/// An owned polygon: an exterior ring and the interior rings (holes). An
/// empty polygon has no rings at all: no exterior and no interiors.
#[derive(Debug, Clone, PartialEq)]
pub struct GeoPolygon {
    pub exterior: Option<Vec<Coord>>,
    pub interiors: Vec<Vec<Coord>>,
}

impl GeoPolygon {
    /// A copy with the same rings.
    pub fn duplicate(&self) -> (r: GeoPolygon)
        ensures
            r@ == self@,
    {
        let exterior = match &self.exterior {
            Some(e) => Some(copy_coords(e)),
            None => None,
        };
        let r = GeoPolygon {
            exterior,
            interiors: copy_rings(&self.interiors),
        };
        r
    }
}

impl View for GeoPolygon {
    /// All rings, the exterior first.
    type V = Seq<Seq<Coord>>;

    open spec fn view(&self) -> Seq<Seq<Coord>> {
        match self.exterior {
            Some(e) => seq![e@] + rings_view(self.interiors@),
            None => rings_view(self.interiors@),
        }
    }
}

/// An owned set of points.
#[derive(Debug, Clone, PartialEq)]
pub struct GeoMultiPoint {
    pub points: Vec<Coord>,
}

impl GeoMultiPoint {
    /// A copy with the same points.
    pub fn duplicate(&self) -> (r: GeoMultiPoint)
        ensures
            r@ == self@,
    {
        GeoMultiPoint { points: copy_coords(&self.points) }
    }
}

impl View for GeoMultiPoint {
    type V = Seq<Coord>;

    open spec fn view(&self) -> Seq<Coord> {
        self.points@
    }
}

/// An owned set of independent line strings.
#[derive(Debug, Clone, PartialEq)]
pub struct GeoMultiLineString {
    pub lines: Vec<Vec<Coord>>,
}

impl GeoMultiLineString {
    /// A copy with the same lines.
    pub fn duplicate(&self) -> (r: GeoMultiLineString)
        ensures
            r@ == self@,
    {
        GeoMultiLineString { lines: copy_rings(&self.lines) }
    }
}

impl View for GeoMultiLineString {
    type V = Seq<Seq<Coord>>;

    open spec fn view(&self) -> Seq<Seq<Coord>> {
        rings_view(self.lines@)
    }
}

/// The rings of each polygon of a sequence.
pub open spec fn polygons_view(polys: Seq<GeoPolygon>) -> Seq<Seq<Seq<Coord>>> {
    Seq::new(polys.len(), |i: int| polys[i]@)
}

/// An owned set of polygons.
#[derive(Debug, Clone, PartialEq)]
pub struct GeoMultiPolygon {
    pub polygons: Vec<GeoPolygon>,
}

impl GeoMultiPolygon {
    /// A copy with the same polygons.
    pub fn duplicate(&self) -> (r: GeoMultiPolygon)
        ensures
            r@ == self@,
    {
        let mut out: Vec<GeoPolygon> = Vec::with_capacity(self.polygons.len());
        let mut i: usize = 0;
        while i < self.polygons.len()
            invariant
                i <= self.polygons@.len(),
                out@.len() == i,
                forall|k: int| 0 <= k < i ==> (#[trigger] out@[k])@ == self.polygons@[k]@,
            decreases self.polygons@.len() - i,
        {
            out.push(self.polygons[i].duplicate());
            i = i + 1;
        }
        let r = GeoMultiPolygon { polygons: out };
        assert(r@ =~= self@);
        r
    }
}

impl View for GeoMultiPolygon {
    type V = Seq<Seq<Seq<Coord>>>;

    open spec fn view(&self) -> Seq<Seq<Seq<Coord>>> {
        polygons_view(self.polygons@)
    }
}

/// What an owned geometry holds, shape by shape.
pub ghost enum GeomModel {
    Point(Coord),
    LineString(Seq<Coord>),
    Polygon(Seq<Seq<Coord>>),
    MultiPoint(Seq<Coord>),
    MultiLineString(Seq<Seq<Coord>>),
    MultiPolygon(Seq<Seq<Seq<Coord>>>),
}

/// The view of an optional owned geometry.
pub open spec fn opt_geom(g: Option<GeoGeometry>) -> Option<GeomModel> {
    match g {
        Some(g) => Some(g@),
        None => None,
    }
}

/// An owned geometry of any of the six shapes.
#[derive(Debug, Clone, PartialEq)]
pub enum GeoGeometry {
    Point(Coord),
    LineString(GeoLineString),
    Polygon(GeoPolygon),
    MultiPoint(GeoMultiPoint),
    MultiLineString(GeoMultiLineString),
    MultiPolygon(GeoMultiPolygon),
}

impl GeoGeometry {
    /// A copy with the same contents.
    pub fn duplicate(&self) -> (r: GeoGeometry)
        ensures
            r@ == self@,
    {
        match self {
            GeoGeometry::Point(c) => GeoGeometry::Point(*c),
            GeoGeometry::LineString(g) => GeoGeometry::LineString(g.duplicate()),
            GeoGeometry::Polygon(g) => GeoGeometry::Polygon(g.duplicate()),
            GeoGeometry::MultiPoint(g) => GeoGeometry::MultiPoint(g.duplicate()),
            GeoGeometry::MultiLineString(g) => GeoGeometry::MultiLineString(g.duplicate()),
            GeoGeometry::MultiPolygon(g) => GeoGeometry::MultiPolygon(g.duplicate()),
        }
    }
}

impl View for GeoGeometry {
    type V = GeomModel;

    open spec fn view(&self) -> GeomModel {
        match self {
            GeoGeometry::Point(c) => GeomModel::Point(*c),
            GeoGeometry::LineString(g) => GeomModel::LineString(g@),
            GeoGeometry::Polygon(g) => GeomModel::Polygon(g@),
            GeoGeometry::MultiPoint(g) => GeomModel::MultiPoint(g@),
            GeoGeometry::MultiLineString(g) => GeomModel::MultiLineString(g@),
            GeoGeometry::MultiPolygon(g) => GeomModel::MultiPolygon(g@),
        }
    }
}

/// The shape of a geometry.
pub open spec fn shape_of(g: GeomModel) -> GeometryType {
    match g {
        GeomModel::Point(_) => GeometryType::Point,
        GeomModel::LineString(_) => GeometryType::LineString,
        GeomModel::Polygon(_) => GeometryType::Polygon,
        GeomModel::MultiPoint(_) => GeometryType::MultiPoint,
        GeomModel::MultiLineString(_) => GeometryType::MultiLineString,
        GeomModel::MultiPolygon(_) => GeometryType::MultiPolygon,
    }
}

} // verus!
