use vstd::prelude::*;

use arrow_buffer::NullBuffer;

use crate::buffer::{CoordBuffer, CoordBufferBuilder};
use crate::error::GeoError;
use crate::geometry::{Coord, GeoGeometry, GeomModel, opt_geom};
use crate::offsets::{
    check_nulls, is_row_valid, lemma_rows_push, null_buffer_from_bits, nulls_valid, rows_of,
    validity_of,
};
use crate::scalar::Point;

verus! {

/// The owned geometry of an optional point row.
pub open spec fn point_geom(r: Option<Coord>) -> Option<GeomModel> {
    match r {
        Some(c) => Some(GeomModel::Point(c)),
        None => None,
    }
}

/// An array of points: one coordinate per row, no offsets.
#[derive(Debug, Clone)]
pub struct PointArray {
    coords: CoordBuffer,
    nulls: Option<NullBuffer>,
}

impl PointArray {
    pub closed spec fn buf(&self) -> CoordBuffer {
        self.coords
    }

    pub closed spec fn null_buf(&self) -> Option<NullBuffer> {
        self.nulls
    }

    pub open spec fn spec_len(&self) -> int {
        self.buf().points().len() as int
    }

    pub open spec fn wf(&self) -> bool {
        &&& self.buf().wf()
        &&& nulls_valid(self.null_buf(), self.spec_len())
    }

    /// Each row: its point, or `None` where the row is null.
    pub open spec fn rows(&self) -> Seq<Option<Coord>> {
        rows_of(validity_of(self.null_buf(), self.spec_len()), self.buf().points())
    }

    /// Checks that the validity buffer has one bit per point.
    pub fn try_new(coords: CoordBuffer, nulls: Option<NullBuffer>) -> (r: Result<PointArray, GeoError>)
        requires
            coords.wf(),
        ensures
            r is Ok <==> nulls_valid(nulls, coords.points().len() as int),
            r matches Ok(a) ==> a.wf() && a.buf() == coords && a.null_buf() == nulls,
            r matches Err(e) ==> e == GeoError::MalformedBuffer,
    {
        check_nulls(&nulls, coords.len())?;
        Ok(PointArray { coords, nulls })
    }

    pub fn geo_type_id() -> (r: i8)
        ensures
            r == 1,
    {
        1
    }

    pub fn extension_name() -> (r: &'static str)
        ensures
            r@ == "geoarrow.point"@,
    {
        "geoarrow.point"
    }

    pub fn len(&self) -> (r: usize)
        requires
            self.wf(),
        ensures
            r == self.spec_len(),
    {
        self.coords.len()
    }

    pub fn nulls(&self) -> (r: Option<&NullBuffer>)
        ensures
            r == match self.null_buf() {
                Some(b) => Some(&b),
                None => None,
            },
    {
        self.nulls.as_ref()
    }

    /// Whether row `i` is null.
    pub fn is_null(&self, i: usize) -> (r: bool)
        requires
            self.wf(),
            i < self.spec_len(),
        ensures
            r == (self.rows()[i as int] is None),
    {
        !is_row_valid(&self.nulls, i)
    }

    /// A view of row `i`: `None` where the row is null, an error past the end.
    pub fn value(&self, i: usize) -> (r: Result<Option<Point<'_>>, GeoError>)
        requires
            self.wf(),
        ensures
            r is Err <==> i >= self.spec_len(),
            r matches Err(e) ==> e == GeoError::OutOfRange,
            r matches Ok(v) ==> match v {
                Some(p) => p.wf() && self.rows()[i as int] == Some(p.view()),
                None => self.rows()[i as int] is None,
            },
    {
        if i >= self.len() {
            return Err(GeoError::OutOfRange);
        }
        if self.is_null(i) {
            return Ok(None);
        }
        let p = Point::try_new(&self.coords, i)?;
        Ok(Some(p))
    }

    /// Row `i` as an owned geometry.
    pub fn value_as_geo(&self, i: usize) -> (r: Result<Option<GeoGeometry>, GeoError>)
        requires
            self.wf(),
        ensures
            r is Err <==> i >= self.spec_len(),
            r matches Err(e) ==> e == GeoError::OutOfRange,
            r matches Ok(g) ==> opt_geom(g) == point_geom(self.rows()[i as int]),
    {
        match self.value(i)? {
            Some(p) => Ok(Some(p.to_geo())),
            None => Ok(None),
        }
    }

    /// Every row as an owned geometry, in order.
    pub fn iter_geo(&self) -> (r: Vec<Option<GeoGeometry>>)
        requires
            self.wf(),
        ensures
            r@.len() == self.spec_len(),
            forall|k: int|
                0 <= k < r@.len() ==> opt_geom(#[trigger] r@[k]) == point_geom(self.rows()[k]),
    {
        let n = self.len();
        let mut out: Vec<Option<GeoGeometry>> = Vec::with_capacity(n);
        let mut k: usize = 0;
        while k < n
            invariant
                self.wf(),
                n == self.spec_len(),
                k <= n,
                out@.len() == k,
                forall|j: int|
                    0 <= j < k ==> opt_geom(#[trigger] out@[j]) == point_geom(self.rows()[j]),
            decreases n - k,
        {
            match self.value_as_geo(k) {
                Ok(g) => out.push(g),
                Err(_) => {},
            }
            k = k + 1;
        }
        out
    }
}

/// An append-only builder of a point array.
#[derive(Debug, Clone)]
pub struct PointArrayBuilder {
    coords: CoordBufferBuilder,
    validity: Vec<bool>,
}

impl PointArrayBuilder {
    pub closed spec fn buf(&self) -> CoordBufferBuilder {
        self.coords
    }

    pub closed spec fn valid_bits(&self) -> Seq<bool> {
        self.validity@
    }

    pub open spec fn wf(&self) -> bool {
        &&& self.buf().wf()
        &&& self.valid_bits().len() == self.buf().points().len()
    }

    /// The rows pushed so far.
    pub open spec fn rows(&self) -> Seq<Option<Coord>> {
        rows_of(self.valid_bits(), self.buf().points())
    }

    /// The number of rows pushed so far.
    pub fn len(&self) -> (r: usize)
        requires
            self.wf(),
        ensures
            r == self.rows().len(),
    {
        self.validity.len()
    }

    /// An empty builder with room for `capacity` rows.
    pub fn new(capacity: usize) -> (r: PointArrayBuilder)
        ensures
            r.wf(),
            r.rows() == Seq::<Option<Coord>>::empty(),
    {
        let r = PointArrayBuilder {
            coords: CoordBufferBuilder::new(capacity),
            validity: Vec::with_capacity(capacity),
        };
        assert(r.rows() =~= Seq::<Option<Coord>>::empty());
        r
    }

    /// Appends a row; `None` appends a null row.
    pub fn push_geo_point(&mut self, value: Option<Coord>)
        requires
            old(self).wf(),
        ensures
            final(self).wf(),
            final(self).rows() == old(self).rows().push(value),
    {
        match value {
            Some(c) => {
                proof {
                    lemma_rows_push(self.validity@, self.coords.points(), true, c);
                }
                self.coords.push_geo_coord(&c);
                self.validity.push(true);
            },
            None => self.push_null(),
        }
    }

    /// Appends a null row; it occupies a zero coordinate slot.
    pub fn push_null(&mut self)
        requires
            old(self).wf(),
        ensures
            final(self).wf(),
            final(self).rows() == old(self).rows().push(None),
    {
        proof {
            lemma_rows_push(self.validity@, self.coords.points(), false, Coord { x: 0, y: 0 });
        }
        self.coords.push_xy(0, 0);
        self.validity.push(false);
    }

    /// Freezes the builder into an array with the same rows.
    pub fn build(self) -> (r: PointArray)
        requires
            self.wf(),
        ensures
            r.wf(),
            r.rows() == self.rows(),
            r.spec_len() == self.rows().len(),
            r.buf().points() == self.buf().points(),
    {
        let PointArrayBuilder { coords, validity } = self;
        let arr = PointArray {
            coords: coords.build(),
            nulls: Some(null_buffer_from_bits(validity)),
        };
        assert(arr.rows() =~= self.rows());
        arr
    }
}

impl PointArray {
    /// Builds an array from optional points, one row each.
    pub fn from_geo(values: &Vec<Option<Coord>>) -> (r: PointArray)
        ensures
            r.wf(),
            r.rows() == values@,
    {
        let mut b = PointArrayBuilder::new(values.len());
        let mut k: usize = 0;
        while k < values.len()
            invariant
                b.wf(),
                k <= values@.len(),
                b.rows() == values@.subrange(0, k as int),
            decreases values@.len() - k,
        {
            b.push_geo_point(values[k]);
            assert(values@.subrange(0, k + 1) =~= values@.subrange(0, k as int).push(values@[k as int]));
            k = k + 1;
        }
        assert(values@.subrange(0, k as int) =~= values@);
        b.build()
    }
}

} // verus!
