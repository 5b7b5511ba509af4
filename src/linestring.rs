use vstd::prelude::*;

use arrow_buffer::NullBuffer;

use crate::buffer::{CoordBuffer, CoordBufferBuilder};
use crate::error::GeoError;
use crate::geometry::{Coord, GeoGeometry, GeoLineString, GeomModel, opt_geom};
use crate::offsets::{
    check_nulls, check_offsets, groups, is_row_valid, lemma_groups_extend_items, lemma_groups_push,
    lemma_offsets_push, lemma_rows_push, null_buffer_from_bits, nulls_valid, offsets_valid, rows_of,
    validity_of,
};
use crate::scalar::LineString;

verus! {

/// The owned geometry of an optional line string row.
pub open spec fn line_string_geom(r: Option<Seq<Coord>>) -> Option<GeomModel> {
    match r {
        Some(c) => Some(GeomModel::LineString(c)),
        None => None,
    }
}

/// An array of line strings: one offset buffer over the coordinates.
#[derive(Debug, Clone)]
pub struct LineStringArray {
    coords: CoordBuffer,
    geom_offsets: Vec<usize>,
    nulls: Option<NullBuffer>,
}

impl LineStringArray {
    pub closed spec fn buf(&self) -> CoordBuffer {
        self.coords
    }

    pub closed spec fn geom_offs(&self) -> Seq<usize> {
        self.geom_offsets@
    }

    pub closed spec fn null_buf(&self) -> Option<NullBuffer> {
        self.nulls
    }

    pub open spec fn wf(&self) -> bool {
        &&& self.buf().wf()
        &&& offsets_valid(self.geom_offs(), self.buf().points().len() as int)
        &&& nulls_valid(self.null_buf(), self.geom_offs().len() - 1)
    }

    /// The number of rows.
    pub open spec fn spec_len(&self) -> int {
        self.geom_offs().len() - 1
    }

    /// Each row: its points, or `None` where the row is null.
    pub open spec fn rows(&self) -> Seq<Option<Seq<Coord>>> {
        rows_of(
            validity_of(self.null_buf(), self.spec_len()),
            groups(self.buf().points(), self.geom_offs()),
        )
    }

    /// Checks the buffers against each other: the offsets must be valid over
    /// the coordinates and the validity buffer must have one bit per row.
    pub fn try_new(coords: CoordBuffer, geom_offsets: Vec<usize>, nulls: Option<NullBuffer>) -> (r:
        Result<LineStringArray, GeoError>)
        requires
            coords.wf(),
        ensures
            r is Ok <==> offsets_valid(geom_offsets@, coords.points().len() as int) && nulls_valid(
                nulls,
                geom_offsets@.len() - 1,
            ),
            r matches Ok(a) ==> a.wf() && a.buf() == coords && a.geom_offs() == geom_offsets@
                && a.null_buf() == nulls,
            r matches Err(e) ==> e == GeoError::MalformedBuffer,
    {
        if !check_offsets(&geom_offsets, coords.len()) {
            return Err(GeoError::MalformedBuffer);
        }
        check_nulls(&nulls, geom_offsets.len() - 1)?;
        Ok(LineStringArray { coords, geom_offsets, nulls })
    }

    pub fn geo_type_id() -> (r: i8)
        ensures
            r == 2,
    {
        2
    }

    pub fn extension_name() -> (r: &'static str)
        ensures
            r@ == "geoarrow.linestring"@,
    {
        "geoarrow.linestring"
    }

    pub fn len(&self) -> (r: usize)
        requires
            self.wf(),
        ensures
            r == self.spec_len(),
    {
        self.geom_offsets.len() - 1
    }

    pub fn nulls(&self) -> (r: Option<&NullBuffer>)
        ensures
            r == match self.null_buf() {
                Some(b) => Some(&b),
                None => None,
            },
    {
        self.nulls.as_ref()
    }

    /// Whether row `i` is null.
    pub fn is_null(&self, i: usize) -> (r: bool)
        requires
            self.wf(),
            i < self.spec_len(),
        ensures
            r == (self.rows()[i as int] is None),
    {
        !is_row_valid(&self.nulls, i)
    }

    /// A view of row `i`: `None` where the row is null, an error past the end.
    pub fn value(&self, i: usize) -> (r: Result<Option<LineString<'_>>, GeoError>)
        requires
            self.wf(),
        ensures
            r is Err <==> i >= self.spec_len(),
            r matches Err(e) ==> e == GeoError::OutOfRange,
            r matches Ok(v) ==> match v {
                Some(l) => l.wf() && self.rows()[i as int] == Some(l.view()),
                None => self.rows()[i as int] is None,
            },
    {
        if i >= self.len() {
            return Err(GeoError::OutOfRange);
        }
        if self.is_null(i) {
            return Ok(None);
        }
        let l = LineString::try_new(&self.coords, &self.geom_offsets, i)?;
        Ok(Some(l))
    }

    /// Row `i` as an owned geometry.
    pub fn value_as_geo(&self, i: usize) -> (r: Result<Option<GeoGeometry>, GeoError>)
        requires
            self.wf(),
        ensures
            r is Err <==> i >= self.spec_len(),
            r matches Err(e) ==> e == GeoError::OutOfRange,
            r matches Ok(g) ==> opt_geom(g) == line_string_geom(self.rows()[i as int]),
    {
        match self.value(i)? {
            Some(l) => Ok(Some(l.to_geo())),
            None => Ok(None),
        }
    }

    /// Every row as an owned geometry, in order.
    pub fn iter_geo(&self) -> (r: Vec<Option<GeoGeometry>>)
        requires
            self.wf(),
        ensures
            r@.len() == self.spec_len(),
            forall|k: int|
                0 <= k < r@.len()
                    ==> opt_geom(#[trigger] r@[k]) == line_string_geom(self.rows()[k]),
    {
        let n = self.len();
        let mut out: Vec<Option<GeoGeometry>> = Vec::with_capacity(n);
        let mut k: usize = 0;
        while k < n
            invariant
                self.wf(),
                n == self.spec_len(),
                k <= n,
                out@.len() == k,
                forall|j: int|
                    0 <= j < k ==> opt_geom(#[trigger] out@[j]) == line_string_geom(self.rows()[j]),
            decreases n - k,
        {
            match self.value_as_geo(k) {
                Ok(g) => out.push(g),
                Err(_) => {},
            }
            k = k + 1;
        }
        out
    }
}

/// An append-only builder of a line string array.
#[derive(Debug, Clone)]
pub struct LineStringArrayBuilder {
    coords: CoordBufferBuilder,
    geom_offsets: Vec<usize>,
    validity: Vec<bool>,
}

impl LineStringArrayBuilder {
    pub closed spec fn buf(&self) -> CoordBufferBuilder {
        self.coords
    }

    pub closed spec fn geom_offs(&self) -> Seq<usize> {
        self.geom_offsets@
    }

    pub closed spec fn valid_bits(&self) -> Seq<bool> {
        self.validity@
    }

    pub open spec fn wf(&self) -> bool {
        &&& self.buf().wf()
        &&& offsets_valid(self.geom_offs(), self.buf().points().len() as int)
        &&& self.valid_bits().len() == self.geom_offs().len() - 1
        &&& self.geom_offs()[0] == 0
    }

    /// The rows pushed so far.
    pub open spec fn rows(&self) -> Seq<Option<Seq<Coord>>> {
        rows_of(self.valid_bits(), groups(self.buf().points(), self.geom_offs()))
    }

    /// The number of rows pushed so far.
    pub fn len(&self) -> (r: usize)
        requires
            self.wf(),
        ensures
            r == self.rows().len(),
    {
        self.validity.len()
    }

    /// An empty builder with room for `capacity` rows.
    pub fn new(capacity: usize) -> (r: LineStringArrayBuilder)
        ensures
            r.wf(),
            r.rows() == Seq::<Option<Seq<Coord>>>::empty(),
    {
        let coords = CoordBufferBuilder::new(capacity);
        let mut geom_offsets: Vec<usize> = Vec::with_capacity(1);
        geom_offsets.push(0);
        let r = LineStringArrayBuilder {
            coords,
            geom_offsets,
            validity: Vec::with_capacity(capacity),
        };
        assert(r.rows() =~= Seq::<Option<Seq<Coord>>>::empty());
        r
    }

    /// Appends a row; `None` appends a null row.
    pub fn push_geo_line_string(&mut self, value: Option<GeoLineString>)
        requires
            old(self).wf(),
        ensures
            final(self).wf(),
            final(self).rows() == old(self).rows().push(
                match value {
                    Some(l) => Some(l@),
                    None => None,
                },
            ),
            final(self).buf().points() == old(self).buf().points() + match value {
                Some(l) => l@,
                None => Seq::<Coord>::empty(),
            },
            final(self).geom_offs() == old(self).geom_offs().push(
                (old(self).buf().points().len() + match value {
                    Some(l) => l@.len(),
                    None => 0,
                }) as usize,
            ),
    {
        match value {
            Some(line_string) => {
                let ghost old_pts = self.coords.points();
                self.coords.push_coords(&line_string.coords);
                let end = self.coords.len();
                proof {
                    lemma_groups_extend_items(old_pts, line_string@, self.geom_offsets@);
                    lemma_groups_push(self.coords.points(), self.geom_offsets@, end);
                    lemma_offsets_push(self.geom_offsets@, old_pts.len() as int, end);
                    lemma_rows_push(
                        self.validity@,
                        groups(self.coords.points(), self.geom_offsets@),
                        true,
                        line_string@,
                    );
                    assert(self.coords.points().subrange(old_pts.len() as int, end as int)
                        =~= line_string@);
                }
                self.geom_offsets.push(end);
                self.validity.push(true);
            },
            None => {
                self.push_null();
                assert(self.coords.points() =~= old(self).coords.points() + Seq::<Coord>::empty());
            },
        }
    }

    /// Appends a null row: the offset repeats, so the row covers no points.
    pub fn push_null(&mut self)
        requires
            old(self).wf(),
        ensures
            final(self).wf(),
            final(self).rows() == old(self).rows().push(None),
            final(self).geom_offs() == old(self).geom_offs().push(
                old(self).geom_offs()[old(self).geom_offs().len() - 1],
            ),
            final(self).buf() == old(self).buf(),
    {
        let end = self.coords.len();
        proof {
            lemma_groups_push(self.coords.points(), self.geom_offsets@, end);
            lemma_offsets_push(self.geom_offsets@, end as int, end);
            lemma_rows_push(
                self.validity@,
                groups(self.coords.points(), self.geom_offsets@),
                false,
                self.coords.points().subrange(end as int, end as int),
            );
        }
        self.geom_offsets.push(end);
        self.validity.push(false);
    }

    /// Freezes the builder into an array with the same rows.
    pub fn build(self) -> (r: LineStringArray)
        requires
            self.wf(),
        ensures
            r.wf(),
            r.rows() == self.rows(),
            r.spec_len() == self.rows().len(),
            r.geom_offs() == self.geom_offs(),
            r.buf().points() == self.buf().points(),
            r.geom_offs()[0] == 0,
    {
        let LineStringArrayBuilder { coords, geom_offsets, validity } = self;
        let arr = LineStringArray {
            coords: coords.build(),
            geom_offsets,
            nulls: Some(null_buffer_from_bits(validity)),
        };
        assert(arr.rows() =~= self.rows());
        arr
    }
}

impl LineStringArray {
    /// Builds an array from optional owned line strings, one row each.
    pub fn from_geo(values: &Vec<Option<GeoLineString>>) -> (r: LineStringArray)
        ensures
            r.wf(),
            r.spec_len() == values@.len(),
            forall|k: int|
                0 <= k < values@.len() ==> r.rows()[k] == match #[trigger] values@[k] {
                    Some(l) => Some(l@),
                    None => None::<Seq<Coord>>,
                },
    {
        let mut b = LineStringArrayBuilder::new(values.len());
        let mut k: usize = 0;
        while k < values.len()
            invariant
                b.wf(),
                k <= values@.len(),
                b.rows().len() == k,
                forall|j: int|
                    0 <= j < k ==> b.rows()[j] == match #[trigger] values@[j] {
                        Some(l) => Some(l@),
                        None => None::<Seq<Coord>>,
                    },
            decreases values@.len() - k,
        {
            let v = match &values[k] {
                Some(l) => Some(l.duplicate()),
                None => None,
            };
            b.push_geo_line_string(v);
            k = k + 1;
        }
        b.build()
    }
}

} // verus!
