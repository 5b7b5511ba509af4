use vstd::prelude::*;

use crate::buffer::CoordBuffer;
use crate::error::GeoError;
use crate::geometry::{
    Coord, GeoGeometry, GeoLineString, GeoMultiLineString, GeoMultiPoint, GeoMultiPolygon,
    GeoPolygon, GeomModel, polygons_view, rings_view,
};
use crate::offsets::{group, groups, offsets_valid};

verus! {

/// A view of one point of a coordinate buffer.
#[derive(Debug, Clone, Copy)]
pub struct Point<'a> {
    coords: &'a CoordBuffer,
    geom_index: usize,
}

impl<'a> Point<'a> {
    pub open spec fn wf(&self) -> bool {
        self.buf().wf() && self.idx() < self.buf().points().len()
    }

    pub closed spec fn buf(&self) -> CoordBuffer {
        *self.coords
    }

    pub closed spec fn idx(&self) -> int {
        self.geom_index as int
    }

    /// The point that the view shows.
    pub open spec fn view(&self) -> Coord {
        self.buf().points()[self.idx()]
    }

    /// A view of point `geom_index`; fails past the end of the buffer.
    pub fn try_new(coords: &'a CoordBuffer, geom_index: usize) -> (r: Result<Point<'a>, GeoError>)
        requires
            coords.wf(),
        ensures
            r is Ok <==> geom_index < coords.points().len(),
            r matches Ok(p) ==> p.wf() && p.buf() == *coords && p.idx() == geom_index,
            r matches Err(e) ==> e == GeoError::OutOfRange,
    {
        if geom_index >= coords.len() {
            return Err(GeoError::OutOfRange);
        }
        Ok(Point { coords, geom_index })
    }

    pub fn x(&self) -> (r: u64)
        requires
            self.wf(),
        ensures
            r == self.view().x,
    {
        self.coords.coord(self.geom_index).x
    }

    pub fn y(&self) -> (r: u64)
        requires
            self.wf(),
        ensures
            r == self.view().y,
    {
        self.coords.coord(self.geom_index).y
    }

    /// The point as an owned coordinate pair.
    pub fn to_coord(&self) -> (r: Coord)
        requires
            self.wf(),
        ensures
            r == self.view(),
    {
        self.coords.coord(self.geom_index)
    }

    /// The point as an owned geometry.
    pub fn to_geo(&self) -> (r: GeoGeometry)
        requires
            self.wf(),
        ensures
            r@ == GeomModel::Point(self.view()),
    {
        GeoGeometry::Point(self.to_coord())
    }
}

/// Start and end of group `geom_index` of an offset buffer; fails when the
/// buffer has no entry `geom_index + 1`.
pub fn compute_start_end_offset(geom_offsets: &Vec<usize>, geom_index: usize) -> (r: Result<
    (usize, usize),
    GeoError,
>)
    ensures
        r is Ok <==> geom_index + 1 < geom_offsets@.len(),
        r matches Ok(p) ==> p.0 == geom_offsets@[geom_index as int] && p.1 == geom_offsets@[geom_index
            + 1],
        r matches Err(e) ==> e == GeoError::OutOfRange,
{
    if geom_index >= geom_offsets.len() || geom_offsets.len() - geom_index < 2 {
        return Err(GeoError::OutOfRange);
    }
    Ok((geom_offsets[geom_index], geom_offsets[geom_index + 1]))
}

/// A view of one run of points delimited by an offset buffer: a line string,
/// or a ring of a polygon.
#[derive(Debug, Clone, Copy)]
pub struct LineString<'a> {
    coords: &'a CoordBuffer,
    geom_offsets: &'a Vec<usize>,
    geom_index: usize,
    start_offset: usize,
    end_offset: usize,
}

impl<'a> LineString<'a> {
    pub closed spec fn buf(&self) -> CoordBuffer {
        *self.coords
    }

    pub closed spec fn offs(&self) -> Seq<usize> {
        self.geom_offsets@
    }

    pub closed spec fn idx(&self) -> int {
        self.geom_index as int
    }

    pub closed spec fn start(&self) -> int {
        self.start_offset as int
    }

    pub closed spec fn end(&self) -> int {
        self.end_offset as int
    }

    pub open spec fn wf(&self) -> bool {
        &&& self.buf().wf()
        &&& offsets_valid(self.offs(), self.buf().points().len() as int)
        &&& 0 <= self.idx() < self.offs().len() - 1
        &&& self.start() == self.offs()[self.idx()]
        &&& self.end() == self.offs()[self.idx() + 1]
    }

    /// The points of the line.
    pub open spec fn view(&self) -> Seq<Coord> {
        group(self.buf().points(), self.offs(), self.idx())
    }

    /// A view of group `geom_index` of `geom_offsets`; fails when there is no such group.
    pub fn try_new(coords: &'a CoordBuffer, geom_offsets: &'a Vec<usize>, geom_index: usize) -> (r:
        Result<LineString<'a>, GeoError>)
        requires
            coords.wf(),
            offsets_valid(geom_offsets@, coords.points().len() as int),
        ensures
            r is Ok <==> geom_index + 1 < geom_offsets@.len(),
            r matches Ok(l) ==> l.wf() && l.buf() == *coords && l.offs() == geom_offsets@
                && l.idx() == geom_index,
            r matches Err(e) ==> e == GeoError::OutOfRange,
    {
        let (start_offset, end_offset) = compute_start_end_offset(geom_offsets, geom_index)?;
        Ok(LineString { coords, geom_offsets, geom_index, start_offset, end_offset })
    }

    pub fn num_coords(&self) -> (r: usize)
        requires
            self.wf(),
        ensures
            r == self.view().len(),
    {
        proof {
            crate::offsets::lemma_offsets_monotone(
                self.offs(),
                self.buf().points().len() as int,
                self.idx(),
            );
        }
        self.end_offset - self.start_offset
    }

    /// A view of point `i` of the line, or `None` past its end.
    pub fn coord(&self, i: usize) -> (r: Option<Point<'a>>)
        requires
            self.wf(),
        ensures
            i < self.view().len() <==> r is Some,
            r matches Some(p) ==> p.wf() && p.view() == self.view()[i as int],
    {
        if i >= self.num_coords() {
            None
        } else {
            Some(Point { coords: self.coords, geom_index: self.start_offset + i })
        }
    }

    /// Views of all points of the line, in order.
    pub fn coords(&self) -> (r: Vec<Point<'a>>)
        requires
            self.wf(),
        ensures
            r@.len() == self.view().len(),
            forall|k: int|
                0 <= k < r@.len() ==> (#[trigger] r@[k]).wf() && r@[k].view() == self.view()[k],
    {
        let n = self.num_coords();
        let mut out: Vec<Point<'a>> = Vec::with_capacity(n);
        let mut k: usize = 0;
        while k < n
            invariant
                self.wf(),
                n == self.view().len(),
                k <= n,
                out@.len() == k,
                forall|j: int|
                    0 <= j < k ==> (#[trigger] out@[j]).wf() && out@[j].view() == self.view()[j],
            decreases n - k,
        {
            let p = self.coord(k);
            match p {
                Some(p) => out.push(p),
                None => {},
            }
            k = k + 1;
        }
        out
    }

    /// The points of the line, copied out.
    pub fn to_coords(&self) -> (r: Vec<Coord>)
        requires
            self.wf(),
        ensures
            r@ == self.view(),
    {
        proof {
            crate::offsets::lemma_offsets_monotone(
                self.offs(),
                self.buf().points().len() as int,
                self.idx(),
            );
        }
        self.coords.coords_between(self.start_offset, self.end_offset)
    }

    /// The line as an owned line string.
    pub fn to_line_string(&self) -> (r: GeoLineString)
        requires
            self.wf(),
        ensures
            r@ == self.view(),
    {
        GeoLineString { coords: self.to_coords() }
    }

    /// The line as an owned geometry.
    pub fn to_geo(&self) -> (r: GeoGeometry)
        requires
            self.wf(),
        ensures
            r@ == GeomModel::LineString(self.view()),
    {
        GeoGeometry::LineString(self.to_line_string())
    }
}

/// A view of one polygon: a group of rings, the exterior first.
#[derive(Debug, Clone, Copy)]
pub struct Polygon<'a> {
    coords: &'a CoordBuffer,
    geom_offsets: &'a Vec<usize>,
    ring_offsets: &'a Vec<usize>,
    geom_index: usize,
    start_offset: usize,
    end_offset: usize,
}

impl<'a> Polygon<'a> {
    pub closed spec fn buf(&self) -> CoordBuffer {
        *self.coords
    }

    pub closed spec fn offs(&self) -> Seq<usize> {
        self.geom_offsets@
    }

    pub closed spec fn ring_offs(&self) -> Seq<usize> {
        self.ring_offsets@
    }

    pub closed spec fn idx(&self) -> int {
        self.geom_index as int
    }

    pub closed spec fn start(&self) -> int {
        self.start_offset as int
    }

    pub closed spec fn end(&self) -> int {
        self.end_offset as int
    }

    pub open spec fn wf(&self) -> bool {
        &&& self.buf().wf()
        &&& offsets_valid(self.ring_offs(), self.buf().points().len() as int)
        &&& offsets_valid(self.offs(), self.ring_offs().len() - 1)
        &&& 0 <= self.idx() < self.offs().len() - 1
        &&& self.start() == self.offs()[self.idx()]
        &&& self.end() == self.offs()[self.idx() + 1]
    }

    /// The rings of the polygon, the exterior first.
    pub open spec fn view(&self) -> Seq<Seq<Coord>> {
        group(groups(self.buf().points(), self.ring_offs()), self.offs(), self.idx())
    }

    /// A view of polygon `geom_index`; fails when there is no such group of
    /// rings. A polygon may hold no ring at all: it is then empty.
    pub fn try_new(
        coords: &'a CoordBuffer,
        geom_offsets: &'a Vec<usize>,
        ring_offsets: &'a Vec<usize>,
        geom_index: usize,
    ) -> (r: Result<Polygon<'a>, GeoError>)
        requires
            coords.wf(),
            offsets_valid(ring_offsets@, coords.points().len() as int),
            offsets_valid(geom_offsets@, ring_offsets@.len() - 1),
        ensures
            r is Ok <==> geom_index + 1 < geom_offsets@.len(),
            r matches Ok(p) ==> p.wf() && p.buf() == *coords && p.offs() == geom_offsets@
                && p.ring_offs() == ring_offsets@ && p.idx() == geom_index,
            r matches Err(e) ==> e == GeoError::OutOfRange,
    {
        let (start_offset, end_offset) = compute_start_end_offset(geom_offsets, geom_index)?;
        Ok(Polygon { coords, geom_offsets, ring_offsets, geom_index, start_offset, end_offset })
    }

    proof fn lemma_ring(&self, k: int)
        requires
            self.wf(),
        ensures
            self.start() <= self.end(),
            self.view().len() == self.end() - self.start(),
            0 <= k < self.end() - self.start() ==> 0 <= self.start() + k < self.ring_offs().len() - 1
                && self.view()[k] == group(self.buf().points(), self.ring_offs(), self.start() + k),
    {
        crate::offsets::lemma_offsets_monotone(self.offs(), self.ring_offs().len() - 1, self.idx());
    }

    fn ring(&self, k: usize) -> (r: LineString<'a>)
        requires
            self.wf(),
            k < self.end() - self.start(),
        ensures
            r.wf(),
            r.view() == self.view()[k as int],
    {
        proof {
            self.lemma_ring(k as int);
        }
        LineString {
            coords: self.coords,
            geom_offsets: self.ring_offsets,
            geom_index: self.start_offset + k,
            start_offset: self.ring_offsets[self.start_offset + k],
            end_offset: self.ring_offsets[self.start_offset + k + 1],
        }
    }

    /// The number of rings, the exterior included.
    pub fn num_rings(&self) -> (r: usize)
        requires
            self.wf(),
        ensures
            r == self.view().len(),
    {
        proof {
            self.lemma_ring(0);
        }
        self.end_offset - self.start_offset
    }

    /// The exterior ring; `None` for an empty polygon.
    pub fn exterior(&self) -> (r: Option<LineString<'a>>)
        requires
            self.wf(),
        ensures
            r is Some <==> self.view().len() > 0,
            r matches Some(l) ==> l.wf() && l.view() == self.view()[0],
    {
        if self.num_rings() == 0 {
            None
        } else {
            Some(self.ring(0))
        }
    }

    /// The number of interior rings.
    pub fn num_interiors(&self) -> (r: usize)
        requires
            self.wf(),
        ensures
            r == if self.view().len() == 0 {
                0
            } else {
                self.view().len() - 1
            },
    {
        let n = self.num_rings();
        if n == 0 {
            0
        } else {
            n - 1
        }
    }

    /// A view of interior ring `i`, or `None` past the last one.
    pub fn interior(&self, i: usize) -> (r: Option<LineString<'a>>)
        requires
            self.wf(),
        ensures
            i + 1 < self.view().len() <==> r is Some,
            r matches Some(l) ==> l.wf() && l.view() == self.view()[i + 1],
    {
        if i >= self.num_interiors() {
            None
        } else {
            Some(self.ring(i + 1))
        }
    }

    /// Views of all interior rings, in order.
    pub fn interiors(&self) -> (r: Vec<LineString<'a>>)
        requires
            self.wf(),
        ensures
            r@.len() + 1 == self.view().len() || (r@.len() == 0 && self.view().len() == 0),
            forall|k: int|
                0 <= k < r@.len() ==> (#[trigger] r@[k]).wf() && r@[k].view() == self.view()[k + 1],
    {
        let n = self.num_interiors();
        let mut out: Vec<LineString<'a>> = Vec::with_capacity(n);
        let mut k: usize = 0;
        while k < n
            invariant
                self.wf(),
                n == self.num_interiors_spec(),
                k <= n,
                out@.len() == k,
                forall|j: int|
                    0 <= j < k
                        ==> (#[trigger] out@[j]).wf() && out@[j].view() == self.view()[j + 1],
            decreases n - k,
        {
            out.push(self.ring(k + 1));
            k = k + 1;
        }
        out
    }

    spec fn num_interiors_spec(&self) -> int {
        if self.view().len() == 0 {
            0
        } else {
            self.view().len() - 1
        }
    }

    /// The polygon as an owned polygon: no exterior for an empty polygon.
    pub fn to_polygon(&self) -> (r: GeoPolygon)
        requires
            self.wf(),
        ensures
            r@ == self.view(),
    {
        let exterior = match self.exterior() {
            Some(l) => Some(l.to_coords()),
            None => None,
        };
        let n = self.num_interiors();
        let mut interiors: Vec<Vec<Coord>> = Vec::with_capacity(n);
        let mut k: usize = 0;
        while k < n
            invariant
                self.wf(),
                n == self.num_interiors_spec(),
                k <= n,
                interiors@.len() == k,
                forall|j: int| 0 <= j < k ==> (#[trigger] interiors@[j])@ == self.view()[j + 1],
            decreases n - k,
        {
            interiors.push(self.ring(k + 1).to_coords());
            k = k + 1;
        }
        let r = GeoPolygon { exterior, interiors };
        assert(r@ =~= self.view());
        r
    }

    /// The polygon as an owned geometry.
    pub fn to_geo(&self) -> (r: GeoGeometry)
        requires
            self.wf(),
        ensures
            r@ == GeomModel::Polygon(self.view()),
    {
        GeoGeometry::Polygon(self.to_polygon())
    }
}

/// A view of one set of points: a group of points of a coordinate buffer.
#[derive(Debug, Clone, Copy)]
pub struct MultiPoint<'a> {
    inner: LineString<'a>,
}

impl<'a> MultiPoint<'a> {
    pub closed spec fn run(&self) -> LineString<'a> {
        self.inner
    }

    pub open spec fn wf(&self) -> bool {
        self.run().wf()
    }

    /// The points of the set.
    pub open spec fn view(&self) -> Seq<Coord> {
        self.run().view()
    }

    /// A view of group `geom_index` of `geom_offsets`; fails when there is no such group.
    pub fn try_new(coords: &'a CoordBuffer, geom_offsets: &'a Vec<usize>, geom_index: usize) -> (r:
        Result<MultiPoint<'a>, GeoError>)
        requires
            coords.wf(),
            offsets_valid(geom_offsets@, coords.points().len() as int),
        ensures
            r is Ok <==> geom_index + 1 < geom_offsets@.len(),
            r matches Ok(m) ==> m.wf() && m.view() == group(
                coords.points(),
                geom_offsets@,
                geom_index as int,
            ),
            r matches Err(e) ==> e == GeoError::OutOfRange,
    {
        let inner = LineString::try_new(coords, geom_offsets, geom_index)?;
        Ok(MultiPoint { inner })
    }

    pub fn num_points(&self) -> (r: usize)
        requires
            self.wf(),
        ensures
            r == self.view().len(),
    {
        self.inner.num_coords()
    }

    /// A view of point `i`, or `None` past the last one.
    pub fn point(&self, i: usize) -> (r: Option<Point<'a>>)
        requires
            self.wf(),
        ensures
            i < self.view().len() <==> r is Some,
            r matches Some(p) ==> p.wf() && p.view() == self.view()[i as int],
    {
        self.inner.coord(i)
    }

    /// Views of all points, in order.
    pub fn points(&self) -> (r: Vec<Point<'a>>)
        requires
            self.wf(),
        ensures
            r@.len() == self.view().len(),
            forall|k: int|
                0 <= k < r@.len() ==> (#[trigger] r@[k]).wf() && r@[k].view() == self.view()[k],
    {
        self.inner.coords()
    }

    /// The set as an owned multi-point.
    pub fn to_multi_point(&self) -> (r: GeoMultiPoint)
        requires
            self.wf(),
        ensures
            r@ == self.view(),
    {
        GeoMultiPoint { points: self.inner.to_coords() }
    }

    /// The set as an owned geometry.
    pub fn to_geo(&self) -> (r: GeoGeometry)
        requires
            self.wf(),
        ensures
            r@ == GeomModel::MultiPoint(self.view()),
    {
        GeoGeometry::MultiPoint(self.to_multi_point())
    }
}

/// A view of one set of lines: a group of runs of points.
#[derive(Debug, Clone, Copy)]
pub struct MultiLineString<'a> {
    coords: &'a CoordBuffer,
    geom_offsets: &'a Vec<usize>,
    ring_offsets: &'a Vec<usize>,
    geom_index: usize,
    start_offset: usize,
    end_offset: usize,
}

impl<'a> MultiLineString<'a> {
    pub closed spec fn buf(&self) -> CoordBuffer {
        *self.coords
    }

    pub closed spec fn offs(&self) -> Seq<usize> {
        self.geom_offsets@
    }

    pub closed spec fn ring_offs(&self) -> Seq<usize> {
        self.ring_offsets@
    }

    pub closed spec fn idx(&self) -> int {
        self.geom_index as int
    }

    pub closed spec fn start(&self) -> int {
        self.start_offset as int
    }

    pub closed spec fn end(&self) -> int {
        self.end_offset as int
    }

    pub open spec fn wf(&self) -> bool {
        &&& self.buf().wf()
        &&& offsets_valid(self.ring_offs(), self.buf().points().len() as int)
        &&& offsets_valid(self.offs(), self.ring_offs().len() - 1)
        &&& 0 <= self.idx() < self.offs().len() - 1
        &&& self.start() == self.offs()[self.idx()]
        &&& self.end() == self.offs()[self.idx() + 1]
    }

    /// The lines, in order.
    pub open spec fn view(&self) -> Seq<Seq<Coord>> {
        group(groups(self.buf().points(), self.ring_offs()), self.offs(), self.idx())
    }

    /// A view of set `geom_index`; fails when there is no such group of lines.
    pub fn try_new(
        coords: &'a CoordBuffer,
        geom_offsets: &'a Vec<usize>,
        ring_offsets: &'a Vec<usize>,
        geom_index: usize,
    ) -> (r: Result<MultiLineString<'a>, GeoError>)
        requires
            coords.wf(),
            offsets_valid(ring_offsets@, coords.points().len() as int),
            offsets_valid(geom_offsets@, ring_offsets@.len() - 1),
        ensures
            r is Ok <==> geom_index + 1 < geom_offsets@.len(),
            r matches Ok(m) ==> m.wf() && m.buf() == *coords && m.offs() == geom_offsets@
                && m.ring_offs() == ring_offsets@ && m.idx() == geom_index,
            r matches Err(e) ==> e == GeoError::OutOfRange,
    {
        let (start_offset, end_offset) = compute_start_end_offset(geom_offsets, geom_index)?;
        Ok(MultiLineString { coords, geom_offsets, ring_offsets, geom_index, start_offset, end_offset })
    }

    proof fn lemma_line(&self, k: int)
        requires
            self.wf(),
        ensures
            self.start() <= self.end(),
            self.view().len() == self.end() - self.start(),
            0 <= k < self.end() - self.start()
                ==> 0 <= self.start() + k < self.ring_offs().len() - 1
                && self.view()[k] == group(self.buf().points(), self.ring_offs(), self.start() + k),
    {
        crate::offsets::lemma_offsets_monotone(self.offs(), self.ring_offs().len() - 1, self.idx());
    }

    fn line_at(&self, k: usize) -> (r: LineString<'a>)
        requires
            self.wf(),
            k < self.end() - self.start(),
        ensures
            r.wf(),
            r.view() == self.view()[k as int],
    {
        proof {
            self.lemma_line(k as int);
        }
        LineString {
            coords: self.coords,
            geom_offsets: self.ring_offsets,
            geom_index: self.start_offset + k,
            start_offset: self.ring_offsets[self.start_offset + k],
            end_offset: self.ring_offsets[self.start_offset + k + 1],
        }
    }

    pub fn num_lines(&self) -> (r: usize)
        requires
            self.wf(),
        ensures
            r == self.view().len(),
    {
        proof {
            self.lemma_line(0);
        }
        self.end_offset - self.start_offset
    }

    /// A view of line `i`, or `None` past the last one.
    pub fn line(&self, i: usize) -> (r: Option<LineString<'a>>)
        requires
            self.wf(),
        ensures
            i < self.view().len() <==> r is Some,
            r matches Some(l) ==> l.wf() && l.view() == self.view()[i as int],
    {
        if i >= self.num_lines() {
            None
        } else {
            Some(self.line_at(i))
        }
    }

    /// Views of all lines, in order.
    pub fn lines(&self) -> (r: Vec<LineString<'a>>)
        requires
            self.wf(),
        ensures
            r@.len() == self.view().len(),
            forall|k: int|
                0 <= k < r@.len() ==> (#[trigger] r@[k]).wf() && r@[k].view() == self.view()[k],
    {
        let n = self.num_lines();
        let mut out: Vec<LineString<'a>> = Vec::with_capacity(n);
        let mut k: usize = 0;
        while k < n
            invariant
                self.wf(),
                n == self.view().len(),
                k <= n,
                out@.len() == k,
                forall|j: int|
                    0 <= j < k ==> (#[trigger] out@[j]).wf() && out@[j].view() == self.view()[j],
            decreases n - k,
        {
            out.push(self.line_at(k));
            k = k + 1;
        }
        out
    }

    /// The set as an owned multi-line string.
    pub fn to_multi_line_string(&self) -> (r: GeoMultiLineString)
        requires
            self.wf(),
        ensures
            r@ == self.view(),
    {
        let n = self.num_lines();
        let mut lines: Vec<Vec<Coord>> = Vec::with_capacity(n);
        let mut k: usize = 0;
        while k < n
            invariant
                self.wf(),
                n == self.view().len(),
                k <= n,
                lines@.len() == k,
                forall|j: int| 0 <= j < k ==> (#[trigger] lines@[j])@ == self.view()[j],
            decreases n - k,
        {
            lines.push(self.line_at(k).to_coords());
            k = k + 1;
        }
        let r = GeoMultiLineString { lines };
        assert(r@ =~= self.view());
        r
    }

    /// The set as an owned geometry.
    pub fn to_geo(&self) -> (r: GeoGeometry)
        requires
            self.wf(),
        ensures
            r@ == GeomModel::MultiLineString(self.view()),
    {
        GeoGeometry::MultiLineString(self.to_multi_line_string())
    }
}

/// A view of one set of polygons: a group of polygons, each a group of rings.
#[derive(Debug, Clone, Copy)]
pub struct MultiPolygon<'a> {
    coords: &'a CoordBuffer,
    geom_offsets: &'a Vec<usize>,
    polygon_offsets: &'a Vec<usize>,
    ring_offsets: &'a Vec<usize>,
    geom_index: usize,
    start_offset: usize,
    end_offset: usize,
}

impl<'a> MultiPolygon<'a> {
    pub closed spec fn buf(&self) -> CoordBuffer {
        *self.coords
    }

    pub closed spec fn offs(&self) -> Seq<usize> {
        self.geom_offsets@
    }

    pub closed spec fn polygon_offs(&self) -> Seq<usize> {
        self.polygon_offsets@
    }

    pub closed spec fn ring_offs(&self) -> Seq<usize> {
        self.ring_offsets@
    }

    pub closed spec fn idx(&self) -> int {
        self.geom_index as int
    }

    pub closed spec fn start(&self) -> int {
        self.start_offset as int
    }

    pub closed spec fn end(&self) -> int {
        self.end_offset as int
    }

    pub open spec fn wf(&self) -> bool {
        &&& self.buf().wf()
        &&& offsets_valid(self.ring_offs(), self.buf().points().len() as int)
        &&& offsets_valid(self.polygon_offs(), self.ring_offs().len() - 1)
        &&& offsets_valid(self.offs(), self.polygon_offs().len() - 1)
        &&& 0 <= self.idx() < self.offs().len() - 1
        &&& self.start() == self.offs()[self.idx()]
        &&& self.end() == self.offs()[self.idx() + 1]
    }

    /// The polygons, in order, each as its rings with the exterior first.
    pub open spec fn view(&self) -> Seq<Seq<Seq<Coord>>> {
        group(
            groups(groups(self.buf().points(), self.ring_offs()), self.polygon_offs()),
            self.offs(),
            self.idx(),
        )
    }

    /// A view of set `geom_index`; fails when there is no such group of polygons.
    pub fn try_new(
        coords: &'a CoordBuffer,
        geom_offsets: &'a Vec<usize>,
        polygon_offsets: &'a Vec<usize>,
        ring_offsets: &'a Vec<usize>,
        geom_index: usize,
    ) -> (r: Result<MultiPolygon<'a>, GeoError>)
        requires
            coords.wf(),
            offsets_valid(ring_offsets@, coords.points().len() as int),
            offsets_valid(polygon_offsets@, ring_offsets@.len() - 1),
            offsets_valid(geom_offsets@, polygon_offsets@.len() - 1),
        ensures
            r is Ok <==> geom_index + 1 < geom_offsets@.len(),
            r matches Ok(m) ==> m.wf() && m.buf() == *coords && m.offs() == geom_offsets@
                && m.polygon_offs() == polygon_offsets@ && m.ring_offs() == ring_offsets@
                && m.idx() == geom_index,
            r matches Err(e) ==> e == GeoError::OutOfRange,
    {
        let (start_offset, end_offset) = compute_start_end_offset(geom_offsets, geom_index)?;
        Ok(
            MultiPolygon {
                coords,
                geom_offsets,
                polygon_offsets,
                ring_offsets,
                geom_index,
                start_offset,
                end_offset,
            },
        )
    }

    proof fn lemma_polygon(&self, k: int)
        requires
            self.wf(),
        ensures
            self.start() <= self.end(),
            self.view().len() == self.end() - self.start(),
            0 <= k < self.end() - self.start() ==> 0 <= self.start() + k < self.polygon_offs().len()
                - 1 && self.view()[k] == group(
                groups(self.buf().points(), self.ring_offs()),
                self.polygon_offs(),
                self.start() + k,
            ),
    {
        crate::offsets::lemma_offsets_monotone(
            self.offs(),
            self.polygon_offs().len() - 1,
            self.idx(),
        );
    }

    fn polygon_at(&self, k: usize) -> (r: Polygon<'a>)
        requires
            self.wf(),
            k < self.end() - self.start(),
        ensures
            r.wf(),
            r.view() == self.view()[k as int],
    {
        proof {
            self.lemma_polygon(k as int);
        }
        let j = self.start_offset + k;
        let start_offset = self.polygon_offsets[j];
        let end_offset = self.polygon_offsets[j + 1];
        Polygon {
            coords: self.coords,
            geom_offsets: self.polygon_offsets,
            ring_offsets: self.ring_offsets,
            geom_index: j,
            start_offset,
            end_offset,
        }
    }

    pub fn num_polygons(&self) -> (r: usize)
        requires
            self.wf(),
        ensures
            r == self.view().len(),
    {
        proof {
            self.lemma_polygon(0);
        }
        self.end_offset - self.start_offset
    }

    /// A view of polygon `i`, or `None` past the last one.
    pub fn polygon(&self, i: usize) -> (r: Option<Polygon<'a>>)
        requires
            self.wf(),
        ensures
            i < self.view().len() <==> r is Some,
            r matches Some(p) ==> p.wf() && p.view() == self.view()[i as int],
    {
        if i >= self.num_polygons() {
            None
        } else {
            Some(self.polygon_at(i))
        }
    }

    /// Views of all polygons, in order.
    pub fn polygons(&self) -> (r: Vec<Polygon<'a>>)
        requires
            self.wf(),
        ensures
            r@.len() == self.view().len(),
            forall|k: int|
                0 <= k < r@.len() ==> (#[trigger] r@[k]).wf() && r@[k].view() == self.view()[k],
    {
        let n = self.num_polygons();
        let mut out: Vec<Polygon<'a>> = Vec::with_capacity(n);
        let mut k: usize = 0;
        while k < n
            invariant
                self.wf(),
                n == self.view().len(),
                k <= n,
                out@.len() == k,
                forall|j: int|
                    0 <= j < k ==> (#[trigger] out@[j]).wf() && out@[j].view() == self.view()[j],
            decreases n - k,
        {
            out.push(self.polygon_at(k));
            k = k + 1;
        }
        out
    }

    /// The set as an owned multi-polygon.
    pub fn to_multi_polygon(&self) -> (r: GeoMultiPolygon)
        requires
            self.wf(),
        ensures
            r@ == self.view(),
    {
        let n = self.num_polygons();
        let mut polygons: Vec<GeoPolygon> = Vec::with_capacity(n);
        let mut k: usize = 0;
        while k < n
            invariant
                self.wf(),
                n == self.view().len(),
                k <= n,
                polygons@.len() == k,
                forall|j: int| 0 <= j < k ==> (#[trigger] polygons@[j])@ == self.view()[j],
            decreases n - k,
        {
            polygons.push(self.polygon_at(k).to_polygon());
            k = k + 1;
        }
        let r = GeoMultiPolygon { polygons };
        assert(r@ =~= self.view());
        r
    }

    /// The set as an owned geometry.
    pub fn to_geo(&self) -> (r: GeoGeometry)
        requires
            self.wf(),
        ensures
            r@ == GeomModel::MultiPolygon(self.view()),
    {
        GeoGeometry::MultiPolygon(self.to_multi_polygon())
    }
}

/// A view of one row of any of the six shapes.
#[derive(Debug, Clone, Copy)]
pub enum GeometryScalar<'a> {
    Point(Point<'a>),
    LineString(LineString<'a>),
    Polygon(Polygon<'a>),
    MultiPoint(MultiPoint<'a>),
    MultiLineString(MultiLineString<'a>),
    MultiPolygon(MultiPolygon<'a>),
}

impl<'a> GeometryScalar<'a> {
    pub open spec fn wf(&self) -> bool {
        match self {
            GeometryScalar::Point(v) => v.wf(),
            GeometryScalar::LineString(v) => v.wf(),
            GeometryScalar::Polygon(v) => v.wf(),
            GeometryScalar::MultiPoint(v) => v.wf(),
            GeometryScalar::MultiLineString(v) => v.wf(),
            GeometryScalar::MultiPolygon(v) => v.wf(),
        }
    }

    /// The geometry that the view shows.
    pub open spec fn view(&self) -> GeomModel {
        match self {
            GeometryScalar::Point(v) => GeomModel::Point(v.view()),
            GeometryScalar::LineString(v) => GeomModel::LineString(v.view()),
            GeometryScalar::Polygon(v) => GeomModel::Polygon(v.view()),
            GeometryScalar::MultiPoint(v) => GeomModel::MultiPoint(v.view()),
            GeometryScalar::MultiLineString(v) => GeomModel::MultiLineString(v.view()),
            GeometryScalar::MultiPolygon(v) => GeomModel::MultiPolygon(v.view()),
        }
    }

    /// The row as an owned geometry.
    pub fn to_geo(&self) -> (r: GeoGeometry)
        requires
            self.wf(),
        ensures
            r@ == self.view(),
    {
        match self {
            GeometryScalar::Point(v) => v.to_geo(),
            GeometryScalar::LineString(v) => v.to_geo(),
            GeometryScalar::Polygon(v) => v.to_geo(),
            GeometryScalar::MultiPoint(v) => v.to_geo(),
            GeometryScalar::MultiLineString(v) => v.to_geo(),
            GeometryScalar::MultiPolygon(v) => v.to_geo(),
        }
    }
}

} // verus!
