use vstd::prelude::*;

use arrow_buffer::NullBuffer;

use crate::buffer::{CoordBuffer, RingBufferBuilder};
use crate::error::GeoError;
use crate::geometry::{Coord, GeoGeometry, GeoMultiLineString, GeomModel, opt_geom};
use crate::offsets::{
    check_nulls, check_offsets, groups, is_row_valid, lemma_groups_extend_items, lemma_groups_push,
    lemma_offsets_push, lemma_rows_push, null_buffer_from_bits, nulls_valid, offsets_valid, rows_of,
    validity_of,
};
use crate::scalar::MultiLineString;

verus! {

/// The owned geometry of an optional multi-line string row.
pub open spec fn multi_line_string_geom(r: Option<Seq<Seq<Coord>>>) -> Option<GeomModel> {
    match r {
        Some(c) => Some(GeomModel::MultiLineString(c)),
        None => None,
    }
}

/// An array of multi-line strings: geometry offsets over line offsets over
/// coordinates. The lines of a row are independent of each other.
#[derive(Debug, Clone)]
pub struct MultiLineStringArray {
    coords: CoordBuffer,
    geom_offsets: Vec<usize>,
    ring_offsets: Vec<usize>,
    nulls: Option<NullBuffer>,
}

impl MultiLineStringArray {
    pub closed spec fn buf(&self) -> CoordBuffer {
        self.coords
    }

    pub closed spec fn geom_offs(&self) -> Seq<usize> {
        self.geom_offsets@
    }

    pub closed spec fn ring_offs(&self) -> Seq<usize> {
        self.ring_offsets@
    }

    pub closed spec fn null_buf(&self) -> Option<NullBuffer> {
        self.nulls
    }

    pub open spec fn spec_len(&self) -> int {
        self.geom_offs().len() - 1
    }

    pub open spec fn wf(&self) -> bool {
        &&& self.buf().wf()
        &&& offsets_valid(self.ring_offs(), self.buf().points().len() as int)
        &&& offsets_valid(self.geom_offs(), self.ring_offs().len() - 1)
        &&& nulls_valid(self.null_buf(), self.spec_len())
    }

    /// Each row: its lines, or `None` where the row is null.
    pub open spec fn rows(&self) -> Seq<Option<Seq<Seq<Coord>>>> {
        rows_of(
            validity_of(self.null_buf(), self.spec_len()),
            groups(groups(self.buf().points(), self.ring_offs()), self.geom_offs()),
        )
    }

    /// Checks the buffers against each other: line offsets over the
    /// coordinates, geometry offsets over the lines, one validity bit per row.
    pub fn try_new(
        coords: CoordBuffer,
        geom_offsets: Vec<usize>,
        ring_offsets: Vec<usize>,
        nulls: Option<NullBuffer>,
    ) -> (r: Result<MultiLineStringArray, GeoError>)
        requires
            coords.wf(),
        ensures
            r is Ok <==> {
                &&& offsets_valid(ring_offsets@, coords.points().len() as int)
                &&& offsets_valid(geom_offsets@, ring_offsets@.len() - 1)
                &&& nulls_valid(nulls, geom_offsets@.len() - 1)
            },
            r matches Ok(a) ==> a.wf() && a.buf() == coords && a.geom_offs() == geom_offsets@
                && a.ring_offs() == ring_offsets@ && a.null_buf() == nulls,
            r matches Err(e) ==> e == GeoError::MalformedBuffer,
    {
        if !check_offsets(&ring_offsets, coords.len()) {
            return Err(GeoError::MalformedBuffer);
        }
        if !check_offsets(&geom_offsets, ring_offsets.len() - 1) {
            return Err(GeoError::MalformedBuffer);
        }
        check_nulls(&nulls, geom_offsets.len() - 1)?;
        Ok(MultiLineStringArray { coords, geom_offsets, ring_offsets, nulls })
    }

    pub fn geo_type_id() -> (r: i8)
        ensures
            r == 5,
    {
        5
    }

    pub fn extension_name() -> (r: &'static str)
        ensures
            r@ == "geoarrow.multilinestring"@,
    {
        "geoarrow.multilinestring"
    }

    pub fn len(&self) -> (r: usize)
        requires
            self.wf(),
        ensures
            r == self.spec_len(),
    {
        self.geom_offsets.len() - 1
    }

    pub fn nulls(&self) -> (r: Option<&NullBuffer>)
        ensures
            r == match self.null_buf() {
                Some(b) => Some(&b),
                None => None,
            },
    {
        self.nulls.as_ref()
    }

    /// Whether row `i` is null.
    pub fn is_null(&self, i: usize) -> (r: bool)
        requires
            self.wf(),
            i < self.spec_len(),
        ensures
            r == (self.rows()[i as int] is None),
    {
        !is_row_valid(&self.nulls, i)
    }

    /// A view of row `i`: `None` where the row is null, an error past the end.
    pub fn value(&self, i: usize) -> (r: Result<Option<MultiLineString<'_>>, GeoError>)
        requires
            self.wf(),
        ensures
            r is Err <==> i >= self.spec_len(),
            r matches Err(e) ==> e == GeoError::OutOfRange,
            r matches Ok(v) ==> match v {
                Some(p) => p.wf() && self.rows()[i as int] == Some(p.view()),
                None => self.rows()[i as int] is None,
            },
    {
        if i >= self.len() {
            return Err(GeoError::OutOfRange);
        }
        if self.is_null(i) {
            return Ok(None);
        }
        let m = MultiLineString::try_new(&self.coords, &self.geom_offsets, &self.ring_offsets, i)?;
        Ok(Some(m))
    }

    /// Row `i` as an owned geometry.
    pub fn value_as_geo(&self, i: usize) -> (r: Result<Option<GeoGeometry>, GeoError>)
        requires
            self.wf(),
        ensures
            r is Err <==> i >= self.spec_len(),
            r matches Err(e) ==> e == GeoError::OutOfRange,
            r matches Ok(g) ==> opt_geom(g) == multi_line_string_geom(self.rows()[i as int]),
    {
        match self.value(i)? {
            Some(p) => Ok(Some(p.to_geo())),
            None => Ok(None),
        }
    }

    /// Every row as an owned geometry, in order.
    pub fn iter_geo(&self) -> (r: Vec<Option<GeoGeometry>>)
        requires
            self.wf(),
        ensures
            r@.len() == self.spec_len(),
            forall|k: int|
                0 <= k < r@.len()
                    ==> opt_geom(#[trigger] r@[k]) == multi_line_string_geom(self.rows()[k]),
    {
        let n = self.len();
        let mut out: Vec<Option<GeoGeometry>> = Vec::with_capacity(n);
        let mut k: usize = 0;
        while k < n
            invariant
                self.wf(),
                n == self.spec_len(),
                k <= n,
                out@.len() == k,
                forall|j: int|
                    0 <= j < k
                        ==> opt_geom(#[trigger] out@[j]) == multi_line_string_geom(self.rows()[j]),
            decreases n - k,
        {
            match self.value_as_geo(k) {
                Ok(g) => out.push(g),
                Err(_) => {},
            }
            k = k + 1;
        }
        out
    }
}

/// An append-only builder of a multi-line string array.
#[derive(Debug, Clone)]
pub struct MultiLineStringArrayBuilder {
    rings: RingBufferBuilder,
    geom_offsets: Vec<usize>,
    validity: Vec<bool>,
}

impl MultiLineStringArrayBuilder {
    pub closed spec fn ring_buf(&self) -> RingBufferBuilder {
        self.rings
    }

    pub closed spec fn geom_offs(&self) -> Seq<usize> {
        self.geom_offsets@
    }

    pub closed spec fn valid_bits(&self) -> Seq<bool> {
        self.validity@
    }

    pub open spec fn wf(&self) -> bool {
        &&& self.ring_buf().wf()
        &&& offsets_valid(self.geom_offs(), self.ring_buf().rings().len() as int)
        &&& self.valid_bits().len() == self.geom_offs().len() - 1
        &&& self.geom_offs()[0] == 0
    }

    /// The rows pushed so far.
    pub open spec fn rows(&self) -> Seq<Option<Seq<Seq<Coord>>>> {
        rows_of(self.valid_bits(), groups(self.ring_buf().rings(), self.geom_offs()))
    }

    /// The number of rows pushed so far.
    pub fn len(&self) -> (r: usize)
        requires
            self.wf(),
        ensures
            r == self.rows().len(),
    {
        self.validity.len()
    }

    /// An empty builder with room for `capacity` rows.
    pub fn new(capacity: usize) -> (r: MultiLineStringArrayBuilder)
        ensures
            r.wf(),
            r.rows() == Seq::<Option<Seq<Seq<Coord>>>>::empty(),
    {
        let mut geom_offsets: Vec<usize> = Vec::with_capacity(1);
        geom_offsets.push(0);
        let r = MultiLineStringArrayBuilder {
            rings: RingBufferBuilder::new(capacity),
            geom_offsets,
            validity: Vec::with_capacity(capacity),
        };
        assert(r.rows() =~= Seq::<Option<Seq<Seq<Coord>>>>::empty());
        r
    }

    /// Appends a row; `None` appends a null row.
    pub fn push_geo_multi_line_string(&mut self, value: Option<GeoMultiLineString>)
        requires
            old(self).wf(),
        ensures
            final(self).wf(),
            final(self).rows() == old(self).rows().push(
                match value {
                    Some(m) => Some(m@),
                    None => None,
                },
            ),
            final(self).ring_buf().rings() == old(self).ring_buf().rings() + match value {
                Some(m) => m@,
                None => Seq::<Seq<Coord>>::empty(),
            },
            final(self).geom_offs() == old(self).geom_offs().push(
                (old(self).ring_buf().rings().len() + match value {
                    Some(m) => m@.len(),
                    None => 0,
                }) as usize,
            ),
            value is None ==> final(self).ring_buf() == old(self).ring_buf(),
    {
        match value {
            Some(multi_line_string) => {
                let ghost old_rings = self.rings.rings();
                self.rings.push_rings(&multi_line_string.lines);
                let end = self.rings.num_rings();
                proof {
                    let added = crate::geometry::rings_view(multi_line_string.lines@);
                    lemma_groups_extend_items(old_rings, added, self.geom_offsets@);
                    lemma_groups_push(self.rings.rings(), self.geom_offsets@, end);
                    lemma_offsets_push(self.geom_offsets@, old_rings.len() as int, end);
                    lemma_rows_push(
                        self.validity@,
                        groups(self.rings.rings(), self.geom_offsets@),
                        true,
                        multi_line_string@,
                    );
                    assert(self.rings.rings().subrange(old_rings.len() as int, end as int)
                        =~= multi_line_string@);
                }
                self.geom_offsets.push(end);
                self.validity.push(true);
            },
            None => {
                self.push_null();
                assert(self.rings.rings() =~= old(self).rings.rings() + Seq::<Seq<Coord>>::empty());
            },
        }
    }

    /// Appends a null row: the geometry offset repeats, so the row covers no lines.
    pub fn push_null(&mut self)
        requires
            old(self).wf(),
        ensures
            final(self).wf(),
            final(self).rows() == old(self).rows().push(None),
            final(self).geom_offs() == old(self).geom_offs().push(
                old(self).geom_offs()[old(self).geom_offs().len() - 1],
            ),
            final(self).ring_buf() == old(self).ring_buf(),
    {
        let end = self.rings.num_rings();
        proof {
            lemma_groups_push(self.rings.rings(), self.geom_offsets@, end);
            lemma_offsets_push(self.geom_offsets@, end as int, end);
            lemma_rows_push(
                self.validity@,
                groups(self.rings.rings(), self.geom_offsets@),
                false,
                self.rings.rings().subrange(end as int, end as int),
            );
        }
        self.geom_offsets.push(end);
        self.validity.push(false);
    }

    /// Freezes the builder into an array with the same rows.
    pub fn build(self) -> (r: MultiLineStringArray)
        requires
            self.wf(),
        ensures
            r.wf(),
            r.rows() == self.rows(),
            r.spec_len() == self.rows().len(),
            r.geom_offs() == self.geom_offs(),
            r.ring_offs() == self.ring_buf().ring_offs(),
            r.buf().points() == self.ring_buf().buf().points(),
            r.geom_offs()[0] == 0 && r.ring_offs()[0] == 0,
    {
        let MultiLineStringArrayBuilder { rings, geom_offsets, validity } = self;
        let (coords, ring_offsets) = rings.build();
        let arr = MultiLineStringArray {
            coords,
            geom_offsets,
            ring_offsets,
            nulls: Some(null_buffer_from_bits(validity)),
        };
        assert(arr.rows() =~= self.rows());
        arr
    }
}

impl MultiLineStringArray {
    /// Builds an array from optional owned multi-line strings, one row each.
    pub fn from_geo(values: &Vec<Option<GeoMultiLineString>>) -> (r: MultiLineStringArray)
        ensures
            r.wf(),
            r.spec_len() == values@.len(),
            forall|k: int|
                0 <= k < values@.len() ==> r.rows()[k] == match #[trigger] values@[k] {
                    Some(p) => Some(p@),
                    None => None::<Seq<Seq<Coord>>>,
                },
    {
        let mut b = MultiLineStringArrayBuilder::new(values.len());
        let mut k: usize = 0;
        while k < values.len()
            invariant
                b.wf(),
                k <= values@.len(),
                b.rows().len() == k,
                forall|j: int|
                    0 <= j < k ==> b.rows()[j] == match #[trigger] values@[j] {
                        Some(p) => Some(p@),
                        None => None::<Seq<Seq<Coord>>>,
                    },
            decreases values@.len() - k,
        {
            let v = match &values[k] {
                Some(p) => Some(p.duplicate()),
                None => None,
            };
            b.push_geo_multi_line_string(v);
            k = k + 1;
        }
        b.build()
    }
}

} // verus!
