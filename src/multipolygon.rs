use vstd::prelude::*;

use arrow_buffer::NullBuffer;

use crate::buffer::{CoordBuffer, RingBufferBuilder};
use crate::error::GeoError;
use crate::geometry::{
    Coord, GeoGeometry, GeoMultiPolygon, GeoPolygon, GeomModel, opt_geom, polygons_view,
};
use crate::offsets::{
    check_nulls, check_offsets, groups, is_row_valid, lemma_groups_extend_items, lemma_groups_push,
    lemma_offsets_push, lemma_rows_push, null_buffer_from_bits, nulls_valid, offsets_valid, rows_of,
    validity_of,
};
use crate::scalar::MultiPolygon;

verus! {

/// The owned geometry of an optional multi-polygon row.
pub open spec fn multi_polygon_geom(r: Option<Seq<Seq<Seq<Coord>>>>) -> Option<GeomModel> {
    match r {
        Some(c) => Some(GeomModel::MultiPolygon(c)),
        None => None,
    }
}

/// An array of multi-polygons: geometry offsets over polygon offsets over
/// ring offsets over coordinates. The first ring of a polygon, if it has
/// any, is its exterior.
#[derive(Debug, Clone)]
pub struct MultiPolygonArray {
    coords: CoordBuffer,
    geom_offsets: Vec<usize>,
    polygon_offsets: Vec<usize>,
    ring_offsets: Vec<usize>,
    nulls: Option<NullBuffer>,
}

impl MultiPolygonArray {
    pub closed spec fn buf(&self) -> CoordBuffer {
        self.coords
    }

    pub closed spec fn geom_offs(&self) -> Seq<usize> {
        self.geom_offsets@
    }

    pub closed spec fn polygon_offs(&self) -> Seq<usize> {
        self.polygon_offsets@
    }

    pub closed spec fn ring_offs(&self) -> Seq<usize> {
        self.ring_offsets@
    }

    pub closed spec fn null_buf(&self) -> Option<NullBuffer> {
        self.nulls
    }

    pub open spec fn spec_len(&self) -> int {
        self.geom_offs().len() - 1
    }

    pub open spec fn wf(&self) -> bool {
        &&& self.buf().wf()
        &&& offsets_valid(self.ring_offs(), self.buf().points().len() as int)
        &&& offsets_valid(self.polygon_offs(), self.ring_offs().len() - 1)
        &&& offsets_valid(self.geom_offs(), self.polygon_offs().len() - 1)
        &&& nulls_valid(self.null_buf(), self.spec_len())
    }

    /// Each row: its polygons, each as its rings with the exterior first, or
    /// `None` where the row is null.
    pub open spec fn rows(&self) -> Seq<Option<Seq<Seq<Seq<Coord>>>>> {
        rows_of(
            validity_of(self.null_buf(), self.spec_len()),
            groups(
                groups(groups(self.buf().points(), self.ring_offs()), self.polygon_offs()),
                self.geom_offs(),
            ),
        )
    }

    /// Checks the buffers against each other: ring offsets over the
    /// coordinates, polygon offsets over the rings, geometry offsets over the
    /// polygons, and one validity bit per row.
    pub fn try_new(
        coords: CoordBuffer,
        geom_offsets: Vec<usize>,
        polygon_offsets: Vec<usize>,
        ring_offsets: Vec<usize>,
        nulls: Option<NullBuffer>,
    ) -> (r: Result<MultiPolygonArray, GeoError>)
        requires
            coords.wf(),
        ensures
            r is Ok <==> {
                &&& offsets_valid(ring_offsets@, coords.points().len() as int)
                &&& offsets_valid(polygon_offsets@, ring_offsets@.len() - 1)
                &&& offsets_valid(geom_offsets@, polygon_offsets@.len() - 1)
                &&& nulls_valid(nulls, geom_offsets@.len() - 1)
            },
            r matches Ok(a) ==> a.wf() && a.buf() == coords && a.geom_offs() == geom_offsets@
                && a.polygon_offs() == polygon_offsets@ && a.ring_offs() == ring_offsets@
                && a.null_buf() == nulls,
            r matches Err(e) ==> e == GeoError::MalformedBuffer,
    {
        if !check_offsets(&ring_offsets, coords.len()) {
            return Err(GeoError::MalformedBuffer);
        }
        if !check_offsets(&polygon_offsets, ring_offsets.len() - 1) {
            return Err(GeoError::MalformedBuffer);
        }
        if !check_offsets(&geom_offsets, polygon_offsets.len() - 1) {
            return Err(GeoError::MalformedBuffer);
        }
        check_nulls(&nulls, geom_offsets.len() - 1)?;
        Ok(MultiPolygonArray { coords, geom_offsets, polygon_offsets, ring_offsets, nulls })
    }

    pub fn geo_type_id() -> (r: i8)
        ensures
            r == 6,
    {
        6
    }

    pub fn extension_name() -> (r: &'static str)
        ensures
            r@ == "geoarrow.multipolygon"@,
    {
        "geoarrow.multipolygon"
    }

    pub fn len(&self) -> (r: usize)
        requires
            self.wf(),
        ensures
            r == self.spec_len(),
    {
        self.geom_offsets.len() - 1
    }

    pub fn nulls(&self) -> (r: Option<&NullBuffer>)
        ensures
            r == match self.null_buf() {
                Some(b) => Some(&b),
                None => None,
            },
    {
        self.nulls.as_ref()
    }

    /// Whether row `i` is null.
    pub fn is_null(&self, i: usize) -> (r: bool)
        requires
            self.wf(),
            i < self.spec_len(),
        ensures
            r == (self.rows()[i as int] is None),
    {
        !is_row_valid(&self.nulls, i)
    }

    /// A view of row `i`: `None` where the row is null, an error past the end.
    pub fn value(&self, i: usize) -> (r: Result<Option<MultiPolygon<'_>>, GeoError>)
        requires
            self.wf(),
        ensures
            r is Err <==> i >= self.spec_len(),
            r matches Err(e) ==> e == GeoError::OutOfRange,
            r matches Ok(v) ==> match v {
                Some(p) => p.wf() && self.rows()[i as int] == Some(p.view()),
                None => self.rows()[i as int] is None,
            },
    {
        if i >= self.len() {
            return Err(GeoError::OutOfRange);
        }
        if self.is_null(i) {
            return Ok(None);
        }
        let m = MultiPolygon::try_new(
            &self.coords,
            &self.geom_offsets,
            &self.polygon_offsets,
            &self.ring_offsets,
            i,
        )?;
        assert(self.rows()[i as int] == Some(m.view()));
        Ok(Some(m))
    }

    /// Row `i` as an owned geometry.
    pub fn value_as_geo(&self, i: usize) -> (r: Result<Option<GeoGeometry>, GeoError>)
        requires
            self.wf(),
        ensures
            r is Err <==> i >= self.spec_len(),
            r matches Err(e) ==> e == GeoError::OutOfRange,
            r matches Ok(g) ==> opt_geom(g) == multi_polygon_geom(self.rows()[i as int]),
    {
        match self.value(i)? {
            Some(p) => Ok(Some(p.to_geo())),
            None => Ok(None),
        }
    }

    /// Every row as an owned geometry, in order.
    pub fn iter_geo(&self) -> (r: Vec<Option<GeoGeometry>>)
        requires
            self.wf(),
        ensures
            r@.len() == self.spec_len(),
            forall|k: int|
                0 <= k < r@.len()
                    ==> opt_geom(#[trigger] r@[k]) == multi_polygon_geom(self.rows()[k]),
    {
        let n = self.len();
        let mut out: Vec<Option<GeoGeometry>> = Vec::with_capacity(n);
        let mut k: usize = 0;
        while k < n
            invariant
                self.wf(),
                n == self.spec_len(),
                k <= n,
                out@.len() == k,
                forall|j: int|
                    0 <= j < k
                        ==> opt_geom(#[trigger] out@[j]) == multi_polygon_geom(self.rows()[j]),
            decreases n - k,
        {
            match self.value_as_geo(k) {
                Ok(g) => out.push(g),
                Err(_) => {},
            }
            k = k + 1;
        }
        out
    }
}

/// An append-only builder of a multi-polygon array.
#[derive(Debug, Clone)]
pub struct MultiPolygonArrayBuilder {
    rings: RingBufferBuilder,
    polygon_offsets: Vec<usize>,
    geom_offsets: Vec<usize>,
    validity: Vec<bool>,
}

impl MultiPolygonArrayBuilder {
    pub closed spec fn ring_buf(&self) -> RingBufferBuilder {
        self.rings
    }

    pub closed spec fn polygon_offs(&self) -> Seq<usize> {
        self.polygon_offsets@
    }

    pub closed spec fn geom_offs(&self) -> Seq<usize> {
        self.geom_offsets@
    }

    pub closed spec fn valid_bits(&self) -> Seq<bool> {
        self.validity@
    }

    /// The rings and the polygon offsets over them are consistent.
    pub open spec fn polygons_wf(&self) -> bool {
        &&& self.ring_buf().wf()
        &&& offsets_valid(self.polygon_offs(), self.ring_buf().rings().len() as int)
        &&& self.polygon_offs()[0] == 0
    }

    pub open spec fn wf(&self) -> bool {
        &&& self.polygons_wf()
        &&& offsets_valid(self.geom_offs(), self.polygon_offs().len() - 1)
        &&& self.valid_bits().len() == self.geom_offs().len() - 1
        &&& self.geom_offs()[0] == 0
    }

    /// The polygons pushed so far, over all rows.
    pub open spec fn polygons(&self) -> Seq<Seq<Seq<Coord>>> {
        groups(self.ring_buf().rings(), self.polygon_offs())
    }

    /// The rows pushed so far.
    pub open spec fn rows(&self) -> Seq<Option<Seq<Seq<Seq<Coord>>>>> {
        rows_of(self.valid_bits(), groups(self.polygons(), self.geom_offs()))
    }

    /// The number of rows pushed so far.
    pub fn len(&self) -> (r: usize)
        requires
            self.wf(),
        ensures
            r == self.rows().len(),
    {
        self.validity.len()
    }

    /// An empty builder with room for `capacity` rows.
    pub fn new(capacity: usize) -> (r: MultiPolygonArrayBuilder)
        ensures
            r.wf(),
            r.rows() == Seq::<Option<Seq<Seq<Seq<Coord>>>>>::empty(),
    {
        let mut polygon_offsets: Vec<usize> = Vec::with_capacity(1);
        polygon_offsets.push(0);
        let mut geom_offsets: Vec<usize> = Vec::with_capacity(1);
        geom_offsets.push(0);
        let r = MultiPolygonArrayBuilder {
            rings: RingBufferBuilder::new(capacity),
            polygon_offsets,
            geom_offsets,
            validity: Vec::with_capacity(capacity),
        };
        assert(r.rows() =~= Seq::<Option<Seq<Seq<Seq<Coord>>>>>::empty());
        r
    }

    /// Appends the rings of one polygon, the exterior first, and closes it.
    fn push_polygon(&mut self, polygon: &GeoPolygon)
        requires
            old(self).polygons_wf(),
        ensures
            final(self).polygons_wf(),
            final(self).polygons() == old(self).polygons().push(polygon@),
            final(self).geom_offs() == old(self).geom_offs(),
            final(self).valid_bits() == old(self).valid_bits(),
    {
        let ghost old_rings = self.rings.rings();
        self.rings.push_polygon_rings(polygon);
        let end = self.rings.num_rings();
        proof {
            let added = polygon@;
            lemma_groups_extend_items(old_rings, added, self.polygon_offsets@);
            lemma_groups_push(self.rings.rings(), self.polygon_offsets@, end);
            lemma_offsets_push(self.polygon_offsets@, old_rings.len() as int, end);
            assert(self.rings.rings().subrange(old_rings.len() as int, end as int) =~= polygon@);
        }
        self.polygon_offsets.push(end);
    }

    /// Appends a row; `None` appends a null row.
    pub fn push_geo_multi_polygon(&mut self, value: Option<GeoMultiPolygon>)
        requires
            old(self).wf(),
        ensures
            final(self).wf(),
            final(self).rows() == old(self).rows().push(
                match value {
                    Some(m) => Some(m@),
                    None => None,
                },
            ),
            final(self).polygons() == old(self).polygons() + match value {
                Some(m) => m@,
                None => Seq::<Seq<Seq<Coord>>>::empty(),
            },
            final(self).geom_offs() == old(self).geom_offs().push(
                (old(self).polygons().len() + match value {
                    Some(m) => m@.len(),
                    None => 0,
                }) as usize,
            ),
            value is None ==> final(self).ring_buf() == old(self).ring_buf()
                && final(self).polygon_offs() == old(self).polygon_offs(),
    {
        match value {
            Some(multi_polygon) => {
                let ghost old_polys = self.polygons();
                let ghost added = polygons_view(multi_polygon.polygons@);
                let mut j: usize = 0;
                while j < multi_polygon.polygons.len()
                    invariant
                        self.polygons_wf(),
                        offsets_valid(self.geom_offs(), old_polys.len() as int),
                        self.valid_bits().len() == self.geom_offs().len() - 1,
                        j <= multi_polygon.polygons@.len(),
                        added == polygons_view(multi_polygon.polygons@),
                        self.polygons() == old_polys + added.subrange(0, j as int),
                        self.geom_offs() == old(self).geom_offs(),
                        self.valid_bits() == old(self).valid_bits(),
                        old_polys == old(self).polygons(),
                    decreases multi_polygon.polygons@.len() - j,
                {
                    self.push_polygon(&multi_polygon.polygons[j]);
                    assert(old_polys + added.subrange(0, j + 1) =~= (old_polys + added.subrange(
                        0,
                        j as int,
                    )).push(added[j as int]));
                    j = j + 1;
                }
                assert(added.subrange(0, j as int) =~= added);
                let end = self.polygon_offsets.len() - 1;
                proof {
                    lemma_groups_extend_items(old_polys, added, self.geom_offsets@);
                    lemma_groups_push(self.polygons(), self.geom_offsets@, end);
                    lemma_offsets_push(self.geom_offsets@, old_polys.len() as int, end);
                    lemma_rows_push(
                        self.validity@,
                        groups(self.polygons(), self.geom_offsets@),
                        true,
                        multi_polygon@,
                    );
                    assert(self.polygons().subrange(old_polys.len() as int, end as int)
                        =~= multi_polygon@);
                }
                self.geom_offsets.push(end);
                self.validity.push(true);
            },
            None => {
                self.push_null();
                assert(self.polygons() =~= old(self).polygons() + Seq::<Seq<Seq<Coord>>>::empty());
            },
        }
    }

    /// Appends a null row: the geometry offset repeats, so the row covers no polygons.
    pub fn push_null(&mut self)
        requires
            old(self).wf(),
        ensures
            final(self).wf(),
            final(self).rows() == old(self).rows().push(None),
            final(self).geom_offs() == old(self).geom_offs().push(
                old(self).geom_offs()[old(self).geom_offs().len() - 1],
            ),
            final(self).polygon_offs() == old(self).polygon_offs(),
            final(self).ring_buf() == old(self).ring_buf(),
    {
        let end = self.polygon_offsets.len() - 1;
        proof {
            lemma_groups_push(self.polygons(), self.geom_offsets@, end);
            lemma_offsets_push(self.geom_offsets@, end as int, end);
            lemma_rows_push(
                self.validity@,
                groups(self.polygons(), self.geom_offsets@),
                false,
                self.polygons().subrange(end as int, end as int),
            );
        }
        self.geom_offsets.push(end);
        self.validity.push(false);
    }

    /// Freezes the builder into an array with the same rows.
    pub fn build(self) -> (r: MultiPolygonArray)
        requires
            self.wf(),
        ensures
            r.wf(),
            r.rows() == self.rows(),
            r.spec_len() == self.rows().len(),
            r.geom_offs() == self.geom_offs(),
            r.polygon_offs() == self.polygon_offs(),
            r.ring_offs() == self.ring_buf().ring_offs(),
            r.buf().points() == self.ring_buf().buf().points(),
            r.geom_offs()[0] == 0 && r.polygon_offs()[0] == 0 && r.ring_offs()[0] == 0,
    {
        let MultiPolygonArrayBuilder { rings, polygon_offsets, geom_offsets, validity } = self;
        let (coords, ring_offsets) = rings.build();
        let arr = MultiPolygonArray {
            coords,
            geom_offsets,
            polygon_offsets,
            ring_offsets,
            nulls: Some(null_buffer_from_bits(validity)),
        };
        assert(arr.rows() =~= self.rows());
        arr
    }
}

impl MultiPolygonArray {
    /// Builds an array from optional owned multi-polygons, one row each.
    pub fn from_geo(values: &Vec<Option<GeoMultiPolygon>>) -> (r: MultiPolygonArray)
        ensures
            r.wf(),
            r.spec_len() == values@.len(),
            forall|k: int|
                0 <= k < values@.len() ==> r.rows()[k] == match #[trigger] values@[k] {
                    Some(m) => Some(m@),
                    None => None::<Seq<Seq<Seq<Coord>>>>,
                },
    {
        let mut b = MultiPolygonArrayBuilder::new(values.len());
        let mut k: usize = 0;
        while k < values.len()
            invariant
                b.wf(),
                k <= values@.len(),
                b.rows().len() == k,
                forall|j: int|
                    0 <= j < k ==> b.rows()[j] == match #[trigger] values@[j] {
                        Some(m) => Some(m@),
                        None => None::<Seq<Seq<Seq<Coord>>>>,
                    },
            decreases values@.len() - k,
        {
            let v = match &values[k] {
                Some(m) => Some(m.duplicate()),
                None => None,
            };
            b.push_geo_multi_polygon(v);
            k = k + 1;
        }
        b.build()
    }
}

} // verus!
