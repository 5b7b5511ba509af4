use vstd::prelude::*;

use arrow_buffer::NullBuffer;

use crate::error::GeoError;
use crate::geometry::{GeoGeometry, GeomModel, opt_geom, shape_of};
use crate::geometry_type::GeometryType;
use crate::linestring::{LineStringArray, LineStringArrayBuilder, line_string_geom};
use crate::mixed::{MixedGeometryArray, MixedGeometryArrayBuilder};
use crate::multilinestring::{
    MultiLineStringArray, MultiLineStringArrayBuilder, multi_line_string_geom,
};
use crate::multipoint::{MultiPointArray, MultiPointArrayBuilder, multi_point_geom};
use crate::multipolygon::{MultiPolygonArray, MultiPolygonArrayBuilder, multi_polygon_geom};
use crate::point::{PointArray, PointArrayBuilder, point_geom};
use crate::polygon::{PolygonArray, PolygonArrayBuilder, polygon_geom};
use crate::scalar::GeometryScalar;

verus! {

/// A row of a typed array: an error past the end, else what the row holds.
pub open spec fn typed_row(len: int, i: int, g: Option<GeomModel>) -> Result<
    Option<GeomModel>,
    GeoError,
> {
    if 0 <= i < len {
        Ok(g)
    } else {
        Err(GeoError::OutOfRange)
    }
}

/// A column of any one of the six shapes, or of mixed shapes.
#[derive(Debug, Clone)]
pub enum GeometryArray {
    Point(PointArray),
    LineString(LineStringArray),
    Polygon(PolygonArray),
    MultiPoint(MultiPointArray),
    MultiLineString(MultiLineStringArray),
    MultiPolygon(MultiPolygonArray),
    Mixed(MixedGeometryArray),
}

impl GeometryArray {
    pub open spec fn wf(&self) -> bool {
        match self {
            GeometryArray::Point(a) => a.wf(),
            GeometryArray::LineString(a) => a.wf(),
            GeometryArray::Polygon(a) => a.wf(),
            GeometryArray::MultiPoint(a) => a.wf(),
            GeometryArray::MultiLineString(a) => a.wf(),
            GeometryArray::MultiPolygon(a) => a.wf(),
            GeometryArray::Mixed(a) => a.wf(),
        }
    }

    pub open spec fn spec_len(&self) -> int {
        match self {
            GeometryArray::Point(a) => a.spec_len(),
            GeometryArray::LineString(a) => a.spec_len(),
            GeometryArray::Polygon(a) => a.spec_len(),
            GeometryArray::MultiPoint(a) => a.spec_len(),
            GeometryArray::MultiLineString(a) => a.spec_len(),
            GeometryArray::MultiPolygon(a) => a.spec_len(),
            GeometryArray::Mixed(a) => a.spec_len(),
        }
    }

    /// The validity buffer of the array, if it has one.
    pub open spec fn null_buf(&self) -> Option<NullBuffer> {
        match self {
            GeometryArray::Point(a) => a.null_buf(),
            GeometryArray::LineString(a) => a.null_buf(),
            GeometryArray::Polygon(a) => a.null_buf(),
            GeometryArray::MultiPoint(a) => a.null_buf(),
            GeometryArray::MultiLineString(a) => a.null_buf(),
            GeometryArray::MultiPolygon(a) => a.null_buf(),
            GeometryArray::Mixed(a) => a.null_buf(),
        }
    }

    /// What reading row `i` gives.
    pub open spec fn row(&self, i: int) -> Result<Option<GeomModel>, GeoError> {
        match self {
            GeometryArray::Point(a) => typed_row(a.spec_len(), i, point_geom(a.rows()[i])),
            GeometryArray::LineString(a) => typed_row(
                a.spec_len(),
                i,
                line_string_geom(a.rows()[i]),
            ),
            GeometryArray::Polygon(a) => typed_row(a.spec_len(), i, polygon_geom(a.rows()[i])),
            GeometryArray::MultiPoint(a) => typed_row(
                a.spec_len(),
                i,
                multi_point_geom(a.rows()[i]),
            ),
            GeometryArray::MultiLineString(a) => typed_row(
                a.spec_len(),
                i,
                multi_line_string_geom(a.rows()[i]),
            ),
            GeometryArray::MultiPolygon(a) => typed_row(
                a.spec_len(),
                i,
                multi_polygon_geom(a.rows()[i]),
            ),
            GeometryArray::Mixed(a) => a.row(i),
        }
    }

    pub fn len(&self) -> (r: usize)
        requires
            self.wf(),
        ensures
            r == self.spec_len(),
    {
        match self {
            GeometryArray::Point(a) => a.len(),
            GeometryArray::LineString(a) => a.len(),
            GeometryArray::Polygon(a) => a.len(),
            GeometryArray::MultiPoint(a) => a.len(),
            GeometryArray::MultiLineString(a) => a.len(),
            GeometryArray::MultiPolygon(a) => a.len(),
            GeometryArray::Mixed(a) => a.len(),
        }
    }

    /// The validity buffer of the array, if it has one.
    pub fn nulls(&self) -> (r: Option<&NullBuffer>)
        ensures
            r == match self.null_buf() {
                Some(b) => Some(&b),
                None => None,
            },
    {
        match self {
            GeometryArray::Point(a) => a.nulls(),
            GeometryArray::LineString(a) => a.nulls(),
            GeometryArray::Polygon(a) => a.nulls(),
            GeometryArray::MultiPoint(a) => a.nulls(),
            GeometryArray::MultiLineString(a) => a.nulls(),
            GeometryArray::MultiPolygon(a) => a.nulls(),
            GeometryArray::Mixed(a) => a.nulls(),
        }
    }

    /// A view of row `i`.
    pub fn value(&self, i: usize) -> (r: Result<Option<GeometryScalar<'_>>, GeoError>)
        requires
            self.wf(),
        ensures
            match r {
                Err(e) => self.row(i as int) == Err::<Option<GeomModel>, GeoError>(e),
                Ok(None) => self.row(i as int) == Ok::<Option<GeomModel>, GeoError>(None),
                Ok(Some(s)) => s.wf() && self.row(i as int) == Ok::<Option<GeomModel>, GeoError>(
                    Some(s.view()),
                ),
            },
    {
        match self {
            GeometryArray::Point(a) => Ok(
                match a.value(i)? {
                    Some(v) => Some(GeometryScalar::Point(v)),
                    None => None,
                },
            ),
            GeometryArray::LineString(a) => Ok(
                match a.value(i)? {
                    Some(v) => Some(GeometryScalar::LineString(v)),
                    None => None,
                },
            ),
            GeometryArray::Polygon(a) => Ok(
                match a.value(i)? {
                    Some(v) => Some(GeometryScalar::Polygon(v)),
                    None => None,
                },
            ),
            GeometryArray::MultiPoint(a) => Ok(
                match a.value(i)? {
                    Some(v) => Some(GeometryScalar::MultiPoint(v)),
                    None => None,
                },
            ),
            GeometryArray::MultiLineString(a) => Ok(
                match a.value(i)? {
                    Some(v) => Some(GeometryScalar::MultiLineString(v)),
                    None => None,
                },
            ),
            GeometryArray::MultiPolygon(a) => Ok(
                match a.value(i)? {
                    Some(v) => Some(GeometryScalar::MultiPolygon(v)),
                    None => None,
                },
            ),
            GeometryArray::Mixed(a) => a.value(i),
        }
    }

    /// Row `i` as an owned geometry.
    pub fn value_as_geo(&self, i: usize) -> (r: Result<Option<GeoGeometry>, GeoError>)
        requires
            self.wf(),
        ensures
            match r {
                Err(e) => self.row(i as int) == Err::<Option<GeomModel>, GeoError>(e),
                Ok(g) => self.row(i as int) == Ok::<Option<GeomModel>, GeoError>(opt_geom(g)),
            },
    {
        match self.value(i)? {
            Some(s) => Ok(Some(s.to_geo())),
            None => Ok(None),
        }
    }
}

impl GeometryArray {
    /// Every row as an owned geometry, in order; fails with the error of the
    /// first row that cannot be read.
    pub fn iter_geo(&self) -> (r: Result<Vec<Option<GeoGeometry>>, GeoError>)
        requires
            self.wf(),
        ensures
            r is Ok <==> forall|k: int| 0 <= k < self.spec_len() ==> (#[trigger] self.row(k)) is Ok,
            r matches Ok(v) ==> v@.len() == self.spec_len() && forall|k: int|
                0 <= k < v@.len() ==> self.row(k) == Ok::<Option<GeomModel>, GeoError>(
                    opt_geom(#[trigger] v@[k]),
                ),
            r matches Err(e) ==> exists|k: int|
                0 <= k < self.spec_len() && #[trigger] self.row(k) == Err::<Option<GeomModel>, GeoError>(e),
    {
        let n = self.len();
        let mut out: Vec<Option<GeoGeometry>> = Vec::with_capacity(n);
        let mut k: usize = 0;
        while k < n
            invariant
                self.wf(),
                n == self.spec_len(),
                k <= n,
                out@.len() == k,
                forall|j: int|
                    0 <= j < k ==> self.row(j) == Ok::<Option<GeomModel>, GeoError>(
                        opt_geom(#[trigger] out@[j]),
                    ),
            decreases n - k,
        {
            match self.value_as_geo(k) {
                Ok(g) => out.push(g),
                Err(e) => {
                    assert(self.row(k as int) == Err::<Option<GeomModel>, GeoError>(e));
                    return Err(e);
                },
            }
            k = k + 1;
        }
        assert forall|j: int| 0 <= j < self.spec_len() implies (#[trigger] self.row(j)) is Ok by {
            assert(self.row(j) == Ok::<Option<GeomModel>, GeoError>(opt_geom(out@[j])));
        }
        Ok(out)
    }
}

/// An append-only builder of a column of one shape, or of mixed shapes.
#[derive(Debug, Clone)]
pub enum GeometryArrayBuilder {
    Point(PointArrayBuilder),
    LineString(LineStringArrayBuilder),
    Polygon(PolygonArrayBuilder),
    MultiPoint(MultiPointArrayBuilder),
    MultiLineString(MultiLineStringArrayBuilder),
    MultiPolygon(MultiPolygonArrayBuilder),
    Mixed(MixedGeometryArrayBuilder),
}

/// The shape that a geometry must have to be pushed to a builder; `None`
/// where any shape goes.
pub open spec fn builder_shape(b: GeometryArrayBuilder) -> Option<GeometryType> {
    match b {
        GeometryArrayBuilder::Point(_) => Some(GeometryType::Point),
        GeometryArrayBuilder::LineString(_) => Some(GeometryType::LineString),
        GeometryArrayBuilder::Polygon(_) => Some(GeometryType::Polygon),
        GeometryArrayBuilder::MultiPoint(_) => Some(GeometryType::MultiPoint),
        GeometryArrayBuilder::MultiLineString(_) => Some(GeometryType::MultiLineString),
        GeometryArrayBuilder::MultiPolygon(_) => Some(GeometryType::MultiPolygon),
        GeometryArrayBuilder::Mixed(_) => None,
    }
}

/// The shape of the rows of an array; `None` for a mixed array.
pub open spec fn array_shape(a: GeometryArray) -> Option<GeometryType> {
    match a {
        GeometryArray::Point(_) => Some(GeometryType::Point),
        GeometryArray::LineString(_) => Some(GeometryType::LineString),
        GeometryArray::Polygon(_) => Some(GeometryType::Polygon),
        GeometryArray::MultiPoint(_) => Some(GeometryType::MultiPoint),
        GeometryArray::MultiLineString(_) => Some(GeometryType::MultiLineString),
        GeometryArray::MultiPolygon(_) => Some(GeometryType::MultiPolygon),
        GeometryArray::Mixed(_) => None,
    }
}

/// Whether a geometry can go into a column whose shape is `shape`.
pub open spec fn fits(shape: Option<GeometryType>, g: GeoGeometry) -> bool {
    match shape {
        Some(t) => shape_of(g@) == t,
        None => true,
    }
}

/// Applies `f` to every row.
pub open spec fn map_rows<T>(rows: Seq<T>, f: spec_fn(T) -> Option<GeomModel>) -> Seq<
    Option<GeomModel>,
> {
    Seq::new(rows.len(), |i: int| f(rows[i]))
}

impl GeometryArrayBuilder {
    pub open spec fn wf(&self) -> bool {
        match self {
            GeometryArrayBuilder::Point(b) => b.wf(),
            GeometryArrayBuilder::LineString(b) => b.wf(),
            GeometryArrayBuilder::Polygon(b) => b.wf(),
            GeometryArrayBuilder::MultiPoint(b) => b.wf(),
            GeometryArrayBuilder::MultiLineString(b) => b.wf(),
            GeometryArrayBuilder::MultiPolygon(b) => b.wf(),
            GeometryArrayBuilder::Mixed(b) => b.wf(),
        }
    }

    /// The rows pushed so far, as owned geometries.
    pub open spec fn rows(&self) -> Seq<Option<GeomModel>> {
        match self {
            GeometryArrayBuilder::Point(b) => map_rows(b.rows(), |r| point_geom(r)),
            GeometryArrayBuilder::LineString(b) => map_rows(b.rows(), |r| line_string_geom(r)),
            GeometryArrayBuilder::Polygon(b) => map_rows(b.rows(), |r| polygon_geom(r)),
            GeometryArrayBuilder::MultiPoint(b) => map_rows(b.rows(), |r| multi_point_geom(r)),
            GeometryArrayBuilder::MultiLineString(b) => map_rows(
                b.rows(),
                |r| multi_line_string_geom(r),
            ),
            GeometryArrayBuilder::MultiPolygon(b) => map_rows(b.rows(), |r| multi_polygon_geom(r)),
            GeometryArrayBuilder::Mixed(b) => b.rows(),
        }
    }

    /// An empty builder for arrays of the same kind as `array_type`.
    pub fn new(capacity: usize, array_type: &GeometryArray) -> (r: GeometryArrayBuilder)
        ensures
            r.wf(),
            r.rows() == Seq::<Option<GeomModel>>::empty(),
            builder_shape(r) == array_shape(*array_type),
    {
        let r = match array_type {
            GeometryArray::Point(_) => GeometryArrayBuilder::Point(PointArrayBuilder::new(capacity)),
            GeometryArray::LineString(_) => GeometryArrayBuilder::LineString(
                LineStringArrayBuilder::new(capacity),
            ),
            GeometryArray::Polygon(_) => GeometryArrayBuilder::Polygon(
                PolygonArrayBuilder::new(capacity),
            ),
            GeometryArray::MultiPoint(_) => GeometryArrayBuilder::MultiPoint(
                MultiPointArrayBuilder::new(capacity),
            ),
            GeometryArray::MultiLineString(_) => GeometryArrayBuilder::MultiLineString(
                MultiLineStringArrayBuilder::new(capacity),
            ),
            GeometryArray::MultiPolygon(_) => GeometryArrayBuilder::MultiPolygon(
                MultiPolygonArrayBuilder::new(capacity),
            ),
            GeometryArray::Mixed(_) => GeometryArrayBuilder::Mixed(
                MixedGeometryArrayBuilder::new(capacity),
            ),
        };
        assert(r.rows() =~= Seq::<Option<GeomModel>>::empty());
        r
    }

    /// Appends a row; `None` appends a null row. A geometry of another shape
    /// than the builder's is refused and nothing is appended.
    pub fn push_geo_geometry(&mut self, geometry: Option<GeoGeometry>) -> (r: Result<(), GeoError>)
        requires
            old(self).wf(),
            *old(self) matches GeometryArrayBuilder::Mixed(b) ==> b.spec_len() < i32::MAX,
        ensures
            final(self).wf(),
            builder_shape(*final(self)) == builder_shape(*old(self)),
            r is Ok <==> match geometry {
                Some(g) => fits(builder_shape(*old(self)), g),
                None => true,
            },
            r is Ok ==> final(self).rows() == old(self).rows().push(opt_geom(geometry)),
            r matches Err(e) ==> e == GeoError::ShapeMismatch && *final(self) == *old(self),
    {
        let geometry = match geometry {
            None => {
                self.push_null();
                return Ok(());
            },
            Some(g) => g,
        };
        match self {
            GeometryArrayBuilder::Point(b) => match geometry {
                GeoGeometry::Point(p) => {
                    b.push_geo_point(Some(p));
                },
                _ => {
                    return Err(GeoError::ShapeMismatch);
                },
            },
            GeometryArrayBuilder::LineString(b) => match geometry {
                GeoGeometry::LineString(l) => {
                    b.push_geo_line_string(Some(l));
                },
                _ => {
                    return Err(GeoError::ShapeMismatch);
                },
            },
            GeometryArrayBuilder::Polygon(b) => match geometry {
                GeoGeometry::Polygon(p) => {
                    b.push_geo_polygon(Some(p));
                },
                _ => {
                    return Err(GeoError::ShapeMismatch);
                },
            },
            GeometryArrayBuilder::MultiPoint(b) => match geometry {
                GeoGeometry::MultiPoint(m) => {
                    b.push_geo_multipoint(Some(m));
                },
                _ => {
                    return Err(GeoError::ShapeMismatch);
                },
            },
            GeometryArrayBuilder::MultiLineString(b) => match geometry {
                GeoGeometry::MultiLineString(m) => {
                    b.push_geo_multi_line_string(Some(m));
                },
                _ => {
                    return Err(GeoError::ShapeMismatch);
                },
            },
            GeometryArrayBuilder::MultiPolygon(b) => match geometry {
                GeoGeometry::MultiPolygon(m) => {
                    b.push_geo_multi_polygon(Some(m));
                },
                _ => {
                    return Err(GeoError::ShapeMismatch);
                },
            },
            GeometryArrayBuilder::Mixed(b) => {
                b.push_geo_geometry(Some(geometry));
            },
        }
        assert(self.rows() =~= old(self).rows().push(opt_geom(Some(geometry))));
        Ok(())
    }

    /// Appends a null row.
    pub fn push_null(&mut self)
        requires
            old(self).wf(),
            *old(self) matches GeometryArrayBuilder::Mixed(b) ==> b.spec_len() < i32::MAX,
        ensures
            final(self).wf(),
            builder_shape(*final(self)) == builder_shape(*old(self)),
            final(self).rows() == old(self).rows().push(None),
    {
        match self {
            GeometryArrayBuilder::Point(b) => b.push_null(),
            GeometryArrayBuilder::LineString(b) => b.push_null(),
            GeometryArrayBuilder::Polygon(b) => b.push_null(),
            GeometryArrayBuilder::MultiPoint(b) => b.push_null(),
            GeometryArrayBuilder::MultiLineString(b) => b.push_null(),
            GeometryArrayBuilder::MultiPolygon(b) => b.push_null(),
            GeometryArrayBuilder::Mixed(b) => b.push_null(),
        }
        assert(self.rows() =~= old(self).rows().push(None));
    }

    /// Freezes the builder into an array with the same rows.
    pub fn build(self) -> (r: GeometryArray)
        requires
            self.wf(),
        ensures
            r.wf(),
            array_shape(r) == builder_shape(self),
            r.spec_len() == self.rows().len(),
            forall|i: int|
                0 <= i < self.rows().len() ==> #[trigger] r.row(i) == Ok::<
                    Option<GeomModel>,
                    GeoError,
                >(self.rows()[i]),
    {
        match self {
            GeometryArrayBuilder::Point(b) => GeometryArray::Point(b.build()),
            GeometryArrayBuilder::LineString(b) => GeometryArray::LineString(b.build()),
            GeometryArrayBuilder::Polygon(b) => GeometryArray::Polygon(b.build()),
            GeometryArrayBuilder::MultiPoint(b) => GeometryArray::MultiPoint(b.build()),
            GeometryArrayBuilder::MultiLineString(b) => GeometryArray::MultiLineString(b.build()),
            GeometryArrayBuilder::MultiPolygon(b) => GeometryArray::MultiPolygon(b.build()),
            GeometryArrayBuilder::Mixed(b) => GeometryArray::Mixed(b.build()),
        }
    }
}

/// Builds an array of the same kind as `array_type` from optional owned
/// geometries, one row each; fails if a geometry does not have that kind's
/// shape.
pub fn build_geometry_array_from_geo(data: Vec<Option<GeoGeometry>>, array_type: &GeometryArray) -> (r:
    Result<GeometryArray, GeoError>)
    requires
        array_shape(*array_type) is None ==> data@.len() < i32::MAX,
    ensures
        r is Ok <==> forall|k: int|
            0 <= k < data@.len() ==> (#[trigger] data@[k] matches Some(g) ==> fits(
                array_shape(*array_type),
                g,
            )),
        r matches Ok(a) ==> {
            &&& a.wf()
            &&& array_shape(a) == array_shape(*array_type)
            &&& a.spec_len() == data@.len()
            &&& forall|k: int|
                0 <= k < data@.len() ==> #[trigger] a.row(k) == Ok::<Option<GeomModel>, GeoError>(
                    opt_geom(data@[k]),
                )
        },
        r matches Err(e) ==> e == GeoError::ShapeMismatch,
{
    let mut builder = GeometryArrayBuilder::new(data.len(), array_type);
    let mut k: usize = 0;
    while k < data.len()
        invariant
            builder.wf(),
            builder_shape(builder) == array_shape(*array_type),
            k <= data@.len(),
            array_shape(*array_type) is None ==> data@.len() < i32::MAX,
            builder.rows().len() == k,
            forall|j: int| 0 <= j < k ==> builder.rows()[j] == opt_geom(#[trigger] data@[j]),
            forall|j: int|
                0 <= j < k ==> (#[trigger] data@[j] matches Some(g) ==> fits(
                    array_shape(*array_type),
                    g,
                )),
        decreases data@.len() - k,
    {
        let v = match &data[k] {
            Some(g) => Some(g.duplicate()),
            None => None,
        };
        let res = builder.push_geo_geometry(v);
        if res.is_err() {
            assert(data@[k as int] matches Some(g) && !fits(array_shape(*array_type), g));
            return Err(GeoError::ShapeMismatch);
        }
        k = k + 1;
    }
    Ok(builder.build())
}

/// Pushing a geometry, a null and another geometry to a fresh builder, then
/// building, gives an array whose rows are exactly those three: the first
/// geometry, nothing, the second geometry, and no fourth row.
pub proof fn lemma_round_trip(
    b0: GeometryArrayBuilder,
    b1: GeometryArrayBuilder,
    b2: GeometryArrayBuilder,
    b3: GeometryArrayBuilder,
    a: GeometryArray,
    g1: GeoGeometry,
    g2: GeoGeometry,
)
    requires
        b0.rows() == Seq::<Option<GeomModel>>::empty(),
        b1.rows() == b0.rows().push(opt_geom(Some(g1))),
        b2.rows() == b1.rows().push(None),
        b3.rows() == b2.rows().push(opt_geom(Some(g2))),
        a.spec_len() == b3.rows().len(),
        forall|i: int|
            0 <= i < b3.rows().len() ==> #[trigger] a.row(i) == Ok::<Option<GeomModel>, GeoError>(
                b3.rows()[i],
            ),
    ensures
        a.spec_len() == 3,
        a.row(0) == Ok::<Option<GeomModel>, GeoError>(Some(g1@)),
        a.row(1) == Ok::<Option<GeomModel>, GeoError>(None),
        a.row(2) == Ok::<Option<GeomModel>, GeoError>(Some(g2@)),
        a.row(3) == Err::<Option<GeomModel>, GeoError>(GeoError::OutOfRange),
{
    assert(a.row(0) == Ok::<Option<GeomModel>, GeoError>(b3.rows()[0]));
    assert(a.row(1) == Ok::<Option<GeomModel>, GeoError>(b3.rows()[1]));
    assert(a.row(2) == Ok::<Option<GeomModel>, GeoError>(b3.rows()[2]));
}

} // verus!
