use vstd::prelude::*;

use std::sync::Arc;

use crate::error::GeoError;
use crate::geometry::{Coord, GeoPolygon, rings_view};
use crate::offsets::{
    groups, lemma_groups_extend_items, lemma_groups_push, lemma_offsets_push, offsets_valid,
};

verus! {

/// The points of a flat sequence of interleaved x, y values.
pub open spec fn points_of(v: Seq<u64>) -> Seq<Coord> {
    Seq::new((v.len() / 2) as nat, |i: int| Coord { x: v[2 * i], y: v[2 * i + 1] })
}

/// An immutable buffer of coordinates, stored as interleaved x, y bit
/// patterns. A slice shares the values of the buffer it was taken from and
/// sees a window of them.
#[derive(Debug, Clone, PartialEq, Eq)]
pub struct CoordBuffer {
    values: Arc<Vec<u64>>,
    start: usize,
    len: usize,
}

/// Relies on `Arc::clone`: a second handle to the same values.
#[verifier::external_body]
fn share_values(v: &Arc<Vec<u64>>) -> (r: Arc<Vec<u64>>)
    ensures
        r == *v,
{
    Arc::clone(v)
}

impl CoordBuffer {
    /// Every value of the shared storage.
    closed spec fn store(&self) -> Seq<u64> {
        (*self.values)@
    }

    /// The interleaved values of the window.
    pub closed spec fn raw(&self) -> Seq<u64> {
        self.store().subrange(2 * self.start, 2 * (self.start + self.len))
    }

    /// The window lies within the shared storage.
    pub closed spec fn window_ok(&self) -> bool {
        2 * (self.start + self.len) <= self.store().len()
    }

    pub open spec fn wf(&self) -> bool {
        self.window_ok()
    }

    /// The points that the buffer holds.
    pub open spec fn points(&self) -> Seq<Coord> {
        points_of(self.raw())
    }

    proof fn lemma_point(&self, i: int)
        requires
            self.wf(),
        ensures
            self.raw().len() == 2 * self.len,
            self.points().len() == self.len,
            0 <= i < self.len ==> self.points()[i] == (Coord {
                x: self.store()[2 * (self.start + i)],
                y: self.store()[2 * (self.start + i) + 1],
            }),
    {
    }

    /// Wraps interleaved x, y values; fails on an odd count.
    pub fn try_new(coords: Vec<u64>) -> (r: Result<CoordBuffer, GeoError>)
        ensures
            r is Ok <==> coords@.len() % 2 == 0,
            r matches Ok(b) ==> b.wf() && b.raw() == coords@,
            r matches Err(e) ==> e == GeoError::MalformedBuffer,
    {
        if coords.len() % 2 != 0 {
            return Err(GeoError::MalformedBuffer);
        }
        let len = coords.len() / 2;
        let r = CoordBuffer { values: Arc::new(coords), start: 0, len };
        assert(r.raw() =~= coords@);
        Ok(r)
    }

    /// The number of points.
    pub fn len(&self) -> (r: usize)
        requires
            self.wf(),
        ensures
            r == self.points().len(),
    {
        proof {
            self.lemma_point(0);
        }
        self.len
    }

    /// The x of point `i`, or `None` past the end.
    pub fn x(&self, i: usize) -> (r: Option<u64>)
        requires
            self.wf(),
        ensures
            r == (if i < self.points().len() {
                Some(self.points()[i as int].x)
            } else {
                None::<u64>
            }),
    {
        if i < self.len {
            Some(self.coord(i).x)
        } else {
            proof {
                self.lemma_point(0);
            }
            None
        }
    }

    /// The y of point `i`, or `None` past the end.
    pub fn y(&self, i: usize) -> (r: Option<u64>)
        requires
            self.wf(),
        ensures
            r == (if i < self.points().len() {
                Some(self.points()[i as int].y)
            } else {
                None::<u64>
            }),
    {
        if i < self.len {
            Some(self.coord(i).y)
        } else {
            proof {
                self.lemma_point(0);
            }
            None
        }
    }

    /// Point `i`, which must exist.
    pub fn coord(&self, i: usize) -> (r: Coord)
        requires
            self.wf(),
            i < self.points().len(),
        ensures
            r == self.points()[i as int],
    {
        proof {
            self.lemma_point(i as int);
        }
        let n = self.values.len();
        assert(2 * (self.start + i) + 1 < n);
        let k = 2 * (self.start + i);
        Coord { x: self.values[k], y: self.values[k + 1] }
    }

    /// The points `[from, to)` as an owned vector.
    pub fn coords_between(&self, from: usize, to: usize) -> (r: Vec<Coord>)
        requires
            self.wf(),
            from <= to <= self.points().len(),
        ensures
            r@ == self.points().subrange(from as int, to as int),
    {
        let mut out: Vec<Coord> = Vec::with_capacity(to - from);
        let mut i: usize = from;
        while i < to
            invariant
                self.wf(),
                from <= i <= to <= self.points().len(),
                out@ == self.points().subrange(from as int, i as int),
            decreases to - i,
        {
            out.push(self.coord(i));
            proof {
                assert(self.points().subrange(from as int, i + 1) =~= self.points().subrange(
                    from as int,
                    i as int,
                ).push(self.points()[i as int]));
            }
            i = i + 1;
        }
        out
    }

    /// The points `[offset, offset + length)` as a buffer that shares this
    /// one's values; fails when the range runs past the end.
    pub fn slice(&self, offset: usize, length: usize) -> (r: Result<CoordBuffer, GeoError>)
        requires
            self.wf(),
        ensures
            r is Ok <==> offset + length <= self.points().len(),
            r matches Ok(b) ==> b.wf() && b.points() == self.points().subrange(
                offset as int,
                offset + length,
            ),
            r matches Err(e) ==> e == GeoError::MalformedBuffer,
    {
        proof {
            self.lemma_point(0);
        }
        if offset > self.len || length > self.len - offset {
            return Err(GeoError::MalformedBuffer);
        }
        let n = self.values.len();
        assert(self.start + offset <= n);
        let r = CoordBuffer {
            values: share_values(&self.values),
            start: self.start + offset,
            len: length,
        };
        proof {
            r.lemma_point(0);
            assert forall|k: int| 0 <= k < length implies #[trigger] r.points()[k] == self.points()[offset
                + k] by {
                r.lemma_point(k);
                self.lemma_point(offset + k);
            }
        }
        assert(r.points() =~= self.points().subrange(offset as int, offset + length));
        Ok(r)
    }
}

/// An append-only builder of a coordinate buffer.
#[derive(Debug, Clone)]
pub struct CoordBufferBuilder {
    coords: Vec<u64>,
}

impl CoordBufferBuilder {
    /// The interleaved values pushed so far.
    pub closed spec fn raw(&self) -> Seq<u64> {
        self.coords@
    }

    /// The points pushed so far.
    pub open spec fn points(&self) -> Seq<Coord> {
        points_of(self.raw())
    }

    pub open spec fn wf(&self) -> bool {
        self.raw().len() % 2 == 0
    }

    /// An empty builder with room for `capacity` points.
    pub fn new(capacity: usize) -> (r: CoordBufferBuilder)
        ensures
            r.wf(),
            r.points() == Seq::<Coord>::empty(),
    {
        let cap: usize = if capacity <= usize::MAX / 2 {
            2 * capacity
        } else {
            0
        };
        let r = CoordBufferBuilder { coords: Vec::with_capacity(cap) };
        assert(r.points() =~= Seq::<Coord>::empty());
        r
    }

    /// The number of points pushed so far.
    pub fn len(&self) -> (r: usize)
        requires
            self.wf(),
        ensures
            r == self.points().len(),
    {
        self.coords.len() / 2
    }

    /// Appends one point.
    pub fn push_xy(&mut self, x: u64, y: u64)
        requires
            old(self).wf(),
        ensures
            final(self).wf(),
            final(self).points() == old(self).points().push(Coord { x, y }),
    {
        self.coords.push(x);
        self.coords.push(y);
        assert(self.points() =~= old(self).points().push(Coord { x, y }));
    }

    /// Appends one point.
    pub fn push_geo_coord(&mut self, coord: &Coord)
        requires
            old(self).wf(),
        ensures
            final(self).wf(),
            final(self).points() == old(self).points().push(*coord),
    {
        self.push_xy(coord.x, coord.y);
    }

    /// Appends each point of `cs`, in order.
    pub fn push_coords(&mut self, cs: &Vec<Coord>)
        requires
            old(self).wf(),
        ensures
            final(self).wf(),
            final(self).points() == old(self).points() + cs@,
    {
        let mut j: usize = 0;
        while j < cs.len()
            invariant
                self.wf(),
                j <= cs@.len(),
                self.points() == old(self).points() + cs@.subrange(0, j as int),
            decreases cs@.len() - j,
        {
            self.push_geo_coord(&cs[j]);
            assert(cs@.subrange(0, j + 1) =~= cs@.subrange(0, j as int).push(cs@[j as int]));
            assert(old(self).points() + cs@.subrange(0, j + 1) =~= (old(self).points()
                + cs@.subrange(0, j as int)).push(cs@[j as int]));
            j = j + 1;
        }
        assert(cs@.subrange(0, j as int) =~= cs@);
    }

    /// Freezes the points pushed so far.
    pub fn build(self) -> (r: CoordBuffer)
        requires
            self.wf(),
        ensures
            r.wf(),
            r.points() == self.points(),
    {
        let len = self.coords.len() / 2;
        let r = CoordBuffer { values: Arc::new(self.coords), start: 0, len };
        assert(r.raw() =~= self.raw());
        r
    }
}

impl CoordBuffer {
    /// Copies a sequence of points into a new buffer.
    pub fn from_coords(coords: &Vec<Coord>) -> (r: CoordBuffer)
        ensures
            r.wf(),
            r.points() == coords@,
    {
        let mut b = CoordBufferBuilder::new(coords.len());
        b.push_coords(coords);
        assert(b.points() =~= coords@);
        b.build()
    }
}

/// Reading the first `k` points of a slice that starts at zero gives the
/// first `k` points of the whole buffer.
pub proof fn lemma_slice_prefix(buf: CoordBuffer, sliced: CoordBuffer, k: int, i: int)
    requires
        buf.wf(),
        sliced.wf(),
        0 <= k <= buf.points().len(),
        sliced.points() == buf.points().subrange(0, k),
        0 <= i < k,
    ensures
        sliced.points()[i] == buf.points()[i],
{
}

} // verus!

verus! {

/// An append-only builder of runs of points (rings or lines): a coordinate
/// builder and the offset buffer that splits it.
#[derive(Debug, Clone)]
pub struct RingBufferBuilder {
    coords: CoordBufferBuilder,
    ring_offsets: Vec<usize>,
}

impl RingBufferBuilder {
    pub closed spec fn buf(&self) -> CoordBufferBuilder {
        self.coords
    }

    pub closed spec fn ring_offs(&self) -> Seq<usize> {
        self.ring_offsets@
    }

    pub open spec fn wf(&self) -> bool {
        &&& self.buf().wf()
        &&& offsets_valid(self.ring_offs(), self.buf().points().len() as int)
        &&& self.ring_offs()[0] == 0
    }

    /// The runs pushed so far.
    pub open spec fn rings(&self) -> Seq<Seq<Coord>> {
        groups(self.buf().points(), self.ring_offs())
    }

    pub fn new(capacity: usize) -> (r: RingBufferBuilder)
        ensures
            r.wf(),
            r.rings() == Seq::<Seq<Coord>>::empty(),
    {
        let mut ring_offsets: Vec<usize> = Vec::with_capacity(1);
        ring_offsets.push(0);
        let r = RingBufferBuilder { coords: CoordBufferBuilder::new(capacity), ring_offsets };
        assert(r.rings() =~= Seq::<Seq<Coord>>::empty());
        r
    }

    /// The number of runs pushed so far.
    pub fn num_rings(&self) -> (r: usize)
        requires
            self.wf(),
        ensures
            r == self.rings().len(),
    {
        self.ring_offsets.len() - 1
    }

    /// Appends one run of points.
    pub fn push_ring(&mut self, ring: &Vec<Coord>)
        requires
            old(self).wf(),
        ensures
            final(self).wf(),
            final(self).rings() == old(self).rings().push(ring@),
            final(self).buf().points() == old(self).buf().points() + ring@,
            final(self).ring_offs() == old(self).ring_offs().push(
                (old(self).buf().points().len() + ring@.len()) as usize,
            ),
    {
        let ghost old_pts = self.coords.points();
        self.coords.push_coords(ring);
        let end = self.coords.len();
        proof {
            lemma_groups_extend_items(old_pts, ring@, self.ring_offsets@);
            lemma_groups_push(self.coords.points(), self.ring_offsets@, end);
            lemma_offsets_push(self.ring_offsets@, old_pts.len() as int, end);
            assert(self.coords.points().subrange(old_pts.len() as int, end as int) =~= ring@);
        }
        self.ring_offsets.push(end);
    }

    /// Appends each run of `rings`, in order.
    pub fn push_rings(&mut self, rings: &Vec<Vec<Coord>>)
        requires
            old(self).wf(),
        ensures
            final(self).wf(),
            final(self).rings() == old(self).rings() + rings_view(rings@),
    {
        let mut j: usize = 0;
        while j < rings.len()
            invariant
                self.wf(),
                j <= rings@.len(),
                self.rings() == old(self).rings() + rings_view(rings@).subrange(0, j as int),
            decreases rings@.len() - j,
        {
            self.push_ring(&rings[j]);
            assert(old(self).rings() + rings_view(rings@).subrange(0, j + 1) =~= (old(self).rings()
                + rings_view(rings@).subrange(0, j as int)).push(rings@[j as int]@));
            j = j + 1;
        }
        assert(rings_view(rings@).subrange(0, j as int) =~= rings_view(rings@));
    }

    /// Appends the rings of a polygon: the exterior first, then the
    /// interiors in their order.
    pub fn push_polygon_rings(&mut self, polygon: &GeoPolygon)
        requires
            old(self).wf(),
        ensures
            final(self).wf(),
            final(self).rings() == old(self).rings() + polygon@,
    {
        match &polygon.exterior {
            Some(e) => {
                self.push_ring(e);
                self.push_rings(&polygon.interiors);
                assert(self.rings() =~= old(self).rings() + polygon@);
            },
            None => {
                self.push_rings(&polygon.interiors);
            },
        }
    }

    /// Freezes the coordinates and the ring offsets.
    pub fn build(self) -> (r: (CoordBuffer, Vec<usize>))
        requires
            self.wf(),
        ensures
            r.0.wf(),
            r.0.points() == self.buf().points(),
            r.1@ == self.ring_offs(),
    {
        (self.coords.build(), self.ring_offsets)
    }
}

} // verus!
