use vstd::prelude::*;

use arrow_buffer::NullBuffer;

use crate::error::GeoError;
use crate::geometry::{GeoGeometry, GeomModel, opt_geom, shape_of};
use crate::geometry_type::{GeometryType, type_id_of, type_of_id};
use crate::linestring::{LineStringArray, LineStringArrayBuilder, line_string_geom};
use crate::multilinestring::{
    MultiLineStringArray, MultiLineStringArrayBuilder, multi_line_string_geom,
};
use crate::multipoint::{MultiPointArray, MultiPointArrayBuilder, multi_point_geom};
use crate::multipolygon::{MultiPolygonArray, MultiPolygonArrayBuilder, multi_polygon_geom};
use crate::offsets::{check_nulls, is_row_valid, null_buffer_from_bits, nulls_valid, validity_of};
use crate::point::{PointArray, PointArrayBuilder, point_geom};
use crate::polygon::{PolygonArray, PolygonArrayBuilder, polygon_geom};
use crate::scalar::GeometryScalar;

verus! {

/// What a sub-array holds at `off`: an error where it is absent or too short.
pub open spec fn arm_row<A>(
    arm: Option<A>,
    len: spec_fn(A) -> int,
    row: spec_fn(A, int) -> Option<GeomModel>,
    off: int,
) -> Result<Option<GeomModel>, GeoError> {
    match arm {
        None => Err(GeoError::MissingUnionArm),
        Some(a) => if 0 <= off < len(a) {
            Ok(row(a, off))
        } else {
            Err(GeoError::OutOfRange)
        },
    }
}

/// A column of mixed shapes: per row a type id that picks one of six typed
/// sub-arrays and an offset that picks a row of it.
#[derive(Debug, Clone)]
pub struct MixedGeometryArray {
    type_ids: Vec<i8>,
    offsets: Vec<i32>,
    nulls: Option<NullBuffer>,
    points: Option<PointArray>,
    line_strings: Option<LineStringArray>,
    polygons: Option<PolygonArray>,
    multi_points: Option<MultiPointArray>,
    multi_line_strings: Option<MultiLineStringArray>,
    multi_polygons: Option<MultiPolygonArray>,
}

impl MixedGeometryArray {
    pub closed spec fn type_id_seq(&self) -> Seq<i8> {
        self.type_ids@
    }

    pub closed spec fn offset_seq(&self) -> Seq<i32> {
        self.offsets@
    }

    pub closed spec fn null_buf(&self) -> Option<NullBuffer> {
        self.nulls
    }

    pub closed spec fn point_arm(&self) -> Option<PointArray> {
        self.points
    }

    pub closed spec fn line_string_arm(&self) -> Option<LineStringArray> {
        self.line_strings
    }

    pub closed spec fn polygon_arm(&self) -> Option<PolygonArray> {
        self.polygons
    }

    pub closed spec fn multi_point_arm(&self) -> Option<MultiPointArray> {
        self.multi_points
    }

    pub closed spec fn multi_line_string_arm(&self) -> Option<MultiLineStringArray> {
        self.multi_line_strings
    }

    pub closed spec fn multi_polygon_arm(&self) -> Option<MultiPolygonArray> {
        self.multi_polygons
    }

    pub open spec fn spec_len(&self) -> int {
        self.type_id_seq().len() as int
    }

    pub open spec fn wf(&self) -> bool {
        &&& self.type_id_seq().len() == self.offset_seq().len()
        &&& nulls_valid(self.null_buf(), self.spec_len())
        &&& (self.point_arm() matches Some(a) ==> a.wf())
        &&& (self.line_string_arm() matches Some(a) ==> a.wf())
        &&& (self.polygon_arm() matches Some(a) ==> a.wf())
        &&& (self.multi_point_arm() matches Some(a) ==> a.wf())
        &&& (self.multi_line_string_arm() matches Some(a) ==> a.wf())
        &&& (self.multi_polygon_arm() matches Some(a) ==> a.wf())
    }

    /// What row `off` of the sub-array for shape `t` holds.
    pub open spec fn arm_value(&self, t: GeometryType, off: int) -> Result<Option<GeomModel>, GeoError> {
        match t {
            GeometryType::Point => arm_row(
                self.point_arm(),
                |a: PointArray| a.spec_len(),
                |a: PointArray, k: int| point_geom(a.rows()[k]),
                off,
            ),
            GeometryType::LineString => arm_row(
                self.line_string_arm(),
                |a: LineStringArray| a.spec_len(),
                |a: LineStringArray, k: int| line_string_geom(a.rows()[k]),
                off,
            ),
            GeometryType::Polygon => arm_row(
                self.polygon_arm(),
                |a: PolygonArray| a.spec_len(),
                |a: PolygonArray, k: int| polygon_geom(a.rows()[k]),
                off,
            ),
            GeometryType::MultiPoint => arm_row(
                self.multi_point_arm(),
                |a: MultiPointArray| a.spec_len(),
                |a: MultiPointArray, k: int| multi_point_geom(a.rows()[k]),
                off,
            ),
            GeometryType::MultiLineString => arm_row(
                self.multi_line_string_arm(),
                |a: MultiLineStringArray| a.spec_len(),
                |a: MultiLineStringArray, k: int| multi_line_string_geom(a.rows()[k]),
                off,
            ),
            GeometryType::MultiPolygon => arm_row(
                self.multi_polygon_arm(),
                |a: MultiPolygonArray| a.spec_len(),
                |a: MultiPolygonArray, k: int| multi_polygon_geom(a.rows()[k]),
                off,
            ),
        }
    }

    /// What reading row `i` gives: an error past the end, nothing where the
    /// row is null, an error for an unknown type id, else the sub-array's row.
    pub open spec fn row(&self, i: int) -> Result<Option<GeomModel>, GeoError> {
        if !(0 <= i < self.spec_len()) {
            Err(GeoError::OutOfRange)
        } else if !validity_of(self.null_buf(), self.spec_len())[i] {
            Ok(None)
        } else {
            match type_of_id(self.type_id_seq()[i]) {
                None => Err(GeoError::InvalidTypeId),
                Some(t) => self.arm_value(t, self.offset_seq()[i] as int),
            }
        }
    }

    /// Checks that there is one offset per type id and one validity bit per row.
    pub fn try_new(
        type_ids: Vec<i8>,
        offsets: Vec<i32>,
        nulls: Option<NullBuffer>,
        points: Option<PointArray>,
        line_strings: Option<LineStringArray>,
        polygons: Option<PolygonArray>,
        multi_points: Option<MultiPointArray>,
        multi_line_strings: Option<MultiLineStringArray>,
        multi_polygons: Option<MultiPolygonArray>,
    ) -> (r: Result<MixedGeometryArray, GeoError>)
        requires
            points matches Some(a) ==> a.wf(),
            line_strings matches Some(a) ==> a.wf(),
            polygons matches Some(a) ==> a.wf(),
            multi_points matches Some(a) ==> a.wf(),
            multi_line_strings matches Some(a) ==> a.wf(),
            multi_polygons matches Some(a) ==> a.wf(),
        ensures
            r is Ok <==> type_ids@.len() == offsets@.len() && nulls_valid(nulls, type_ids@.len() as int),
            r matches Ok(a) ==> {
                &&& a.wf()
                &&& a.type_id_seq() == type_ids@
                &&& a.offset_seq() == offsets@
                &&& a.null_buf() == nulls
                &&& a.point_arm() == points
                &&& a.line_string_arm() == line_strings
                &&& a.polygon_arm() == polygons
                &&& a.multi_point_arm() == multi_points
                &&& a.multi_line_string_arm() == multi_line_strings
                &&& a.multi_polygon_arm() == multi_polygons
            },
            r matches Err(e) ==> e == GeoError::MalformedBuffer,
    {
        if type_ids.len() != offsets.len() {
            return Err(GeoError::MalformedBuffer);
        }
        check_nulls(&nulls, type_ids.len())?;
        Ok(
            MixedGeometryArray {
                type_ids,
                offsets,
                nulls,
                points,
                line_strings,
                polygons,
                multi_points,
                multi_line_strings,
                multi_polygons,
            },
        )
    }

    pub fn geo_type_id() -> (r: i8)
        ensures
            r == 8,
    {
        8
    }

    pub fn extension_name() -> (r: &'static str)
        ensures
            r@ == "geoarrow.geometry"@,
    {
        "geoarrow.geometry"
    }

    pub fn len(&self) -> (r: usize)
        requires
            self.wf(),
        ensures
            r == self.spec_len(),
    {
        self.type_ids.len()
    }

    pub fn nulls(&self) -> (r: Option<&NullBuffer>)
        ensures
            r == match self.null_buf() {
                Some(b) => Some(&b),
                None => None,
            },
    {
        self.nulls.as_ref()
    }

    /// Whether row `i` is null.
    pub fn is_null(&self, i: usize) -> (r: bool)
        requires
            self.wf(),
            i < self.spec_len(),
        ensures
            r == !validity_of(self.null_buf(), self.spec_len())[i as int],
    {
        !is_row_valid(&self.nulls, i)
    }

    /// A view of row `i`, read from the sub-array that its type id picks.
    pub fn value(&self, i: usize) -> (r: Result<Option<GeometryScalar<'_>>, GeoError>)
        requires
            self.wf(),
        ensures
            match r {
                Err(e) => self.row(i as int) == Err::<Option<GeomModel>, GeoError>(e),
                Ok(None) => self.row(i as int) == Ok::<Option<GeomModel>, GeoError>(None),
                Ok(Some(s)) => s.wf() && self.row(i as int) == Ok::<Option<GeomModel>, GeoError>(
                    Some(s.view()),
                ),
            },
    {
        if i >= self.type_ids.len() {
            return Err(GeoError::OutOfRange);
        }
        if self.is_null(i) {
            return Ok(None);
        }
        let shape = match GeometryType::find(self.type_ids[i]) {
            None => return Err(GeoError::InvalidTypeId),
            Some(t) => t,
        };
        let raw_offset = self.offsets[i];
        let offset: Option<usize> = if raw_offset < 0 {
            None
        } else {
            Some(raw_offset as usize)
        };
        match shape {
            GeometryType::Point => match (&self.points, offset) {
                (None, _) => Err(GeoError::MissingUnionArm),
                (Some(_), None) => Err(GeoError::OutOfRange),
                (Some(a), Some(o)) => match a.value(o)? {
                    Some(v) => Ok(Some(GeometryScalar::Point(v))),
                    None => Ok(None),
                },
            },
            GeometryType::LineString => match (&self.line_strings, offset) {
                (None, _) => Err(GeoError::MissingUnionArm),
                (Some(_), None) => Err(GeoError::OutOfRange),
                (Some(a), Some(o)) => match a.value(o)? {
                    Some(v) => Ok(Some(GeometryScalar::LineString(v))),
                    None => Ok(None),
                },
            },
            GeometryType::Polygon => match (&self.polygons, offset) {
                (None, _) => Err(GeoError::MissingUnionArm),
                (Some(_), None) => Err(GeoError::OutOfRange),
                (Some(a), Some(o)) => match a.value(o)? {
                    Some(v) => Ok(Some(GeometryScalar::Polygon(v))),
                    None => Ok(None),
                },
            },
            GeometryType::MultiPoint => match (&self.multi_points, offset) {
                (None, _) => Err(GeoError::MissingUnionArm),
                (Some(_), None) => Err(GeoError::OutOfRange),
                (Some(a), Some(o)) => match a.value(o)? {
                    Some(v) => Ok(Some(GeometryScalar::MultiPoint(v))),
                    None => Ok(None),
                },
            },
            GeometryType::MultiLineString => match (&self.multi_line_strings, offset) {
                (None, _) => Err(GeoError::MissingUnionArm),
                (Some(_), None) => Err(GeoError::OutOfRange),
                (Some(a), Some(o)) => match a.value(o)? {
                    Some(v) => Ok(Some(GeometryScalar::MultiLineString(v))),
                    None => Ok(None),
                },
            },
            GeometryType::MultiPolygon => match (&self.multi_polygons, offset) {
                (None, _) => Err(GeoError::MissingUnionArm),
                (Some(_), None) => Err(GeoError::OutOfRange),
                (Some(a), Some(o)) => match a.value(o)? {
                    Some(v) => Ok(Some(GeometryScalar::MultiPolygon(v))),
                    None => Ok(None),
                },
            },
        }
    }

    /// Row `i` as an owned geometry.
    pub fn value_as_geo(&self, i: usize) -> (r: Result<Option<GeoGeometry>, GeoError>)
        requires
            self.wf(),
        ensures
            match r {
                Err(e) => self.row(i as int) == Err::<Option<GeomModel>, GeoError>(e),
                Ok(g) => self.row(i as int) == Ok::<Option<GeomModel>, GeoError>(opt_geom(g)),
            },
    {
        match self.value(i)? {
            Some(s) => Ok(Some(s.to_geo())),
            None => Ok(None),
        }
    }
}

/// A row that can be read has the shape that its type id names.
pub proof fn lemma_mixed_dispatch(a: MixedGeometryArray, i: int)
    requires
        a.wf(),
        a.row(i) matches Ok(Some(_)),
    ensures
        a.row(i) matches Ok(Some(g)) && type_of_id(a.type_id_seq()[i]) == Some(shape_of(g))
            && a.type_id_seq()[i] == type_id_of(shape_of(g)),
{
}

/// What row `off` of the builder for shape `t` holds.
pub open spec fn builder_arm_value(b: MixedGeometryArrayBuilder, t: GeometryType, off: int) -> Option<
    GeomModel,
> {
    match t {
        GeometryType::Point => point_geom(b.point_arm().rows()[off]),
        GeometryType::LineString => line_string_geom(b.line_string_arm().rows()[off]),
        GeometryType::Polygon => polygon_geom(b.polygon_arm().rows()[off]),
        GeometryType::MultiPoint => multi_point_geom(b.multi_point_arm().rows()[off]),
        GeometryType::MultiLineString => multi_line_string_geom(
            b.multi_line_string_arm().rows()[off],
        ),
        GeometryType::MultiPolygon => multi_polygon_geom(b.multi_polygon_arm().rows()[off]),
    }
}

/// The number of rows pushed to the builder for shape `t`.
pub open spec fn builder_arm_len(b: MixedGeometryArrayBuilder, t: GeometryType) -> int {
    match t {
        GeometryType::Point => b.point_arm().rows().len() as int,
        GeometryType::LineString => b.line_string_arm().rows().len() as int,
        GeometryType::Polygon => b.polygon_arm().rows().len() as int,
        GeometryType::MultiPoint => b.multi_point_arm().rows().len() as int,
        GeometryType::MultiLineString => b.multi_line_string_arm().rows().len() as int,
        GeometryType::MultiPolygon => b.multi_polygon_arm().rows().len() as int,
    }
}

/// Row `i` of the builder names a known shape and a row that the builder of
/// that shape holds.
pub open spec fn slot_ok(b: MixedGeometryArrayBuilder, i: int) -> bool {
    match type_of_id(b.type_id_seq()[i]) {
        Some(u) => 0 <= b.offset_seq()[i] < builder_arm_len(b, u),
        None => false,
    }
}

/// An append-only builder of a mixed array: each geometry goes to the typed
/// builder of its shape, and the row records the shape's id and the row
/// index within that builder.
#[derive(Debug, Clone)]
pub struct MixedGeometryArrayBuilder {
    type_ids: Vec<i8>,
    offsets: Vec<i32>,
    validity: Vec<bool>,
    points: PointArrayBuilder,
    line_strings: LineStringArrayBuilder,
    polygons: PolygonArrayBuilder,
    multi_points: MultiPointArrayBuilder,
    multi_line_strings: MultiLineStringArrayBuilder,
    multi_polygons: MultiPolygonArrayBuilder,
}

impl MixedGeometryArrayBuilder {
    pub closed spec fn type_id_seq(&self) -> Seq<i8> {
        self.type_ids@
    }

    pub closed spec fn offset_seq(&self) -> Seq<i32> {
        self.offsets@
    }

    pub closed spec fn valid_bits(&self) -> Seq<bool> {
        self.validity@
    }

    pub closed spec fn point_arm(&self) -> PointArrayBuilder {
        self.points
    }

    pub closed spec fn line_string_arm(&self) -> LineStringArrayBuilder {
        self.line_strings
    }

    pub closed spec fn polygon_arm(&self) -> PolygonArrayBuilder {
        self.polygons
    }

    pub closed spec fn multi_point_arm(&self) -> MultiPointArrayBuilder {
        self.multi_points
    }

    pub closed spec fn multi_line_string_arm(&self) -> MultiLineStringArrayBuilder {
        self.multi_line_strings
    }

    pub closed spec fn multi_polygon_arm(&self) -> MultiPolygonArrayBuilder {
        self.multi_polygons
    }

    pub open spec fn spec_len(&self) -> int {
        self.type_id_seq().len() as int
    }

    pub open spec fn wf(&self) -> bool {
        &&& self.point_arm().wf()
        &&& self.line_string_arm().wf()
        &&& self.polygon_arm().wf()
        &&& self.multi_point_arm().wf()
        &&& self.multi_line_string_arm().wf()
        &&& self.multi_polygon_arm().wf()
        &&& self.offset_seq().len() == self.spec_len()
        &&& self.valid_bits().len() == self.spec_len()
        &&& forall|t: GeometryType| builder_arm_len(*self, t) <= self.spec_len()
        &&& forall|i: int| 0 <= i < self.spec_len() ==> #[trigger] slot_ok(*self, i)
    }

    /// The rows pushed so far.
    pub open spec fn rows(&self) -> Seq<Option<GeomModel>> {
        Seq::new(
            self.spec_len() as nat,
            |i: int|
                if !self.valid_bits()[i] {
                    None
                } else {
                    builder_arm_value(
                        *self,
                        type_of_id(self.type_id_seq()[i]).unwrap(),
                        self.offset_seq()[i] as int,
                    )
                },
        )
    }

    /// An empty builder with room for `capacity` rows.
    pub fn new(capacity: usize) -> (r: MixedGeometryArrayBuilder)
        ensures
            r.wf(),
            r.rows() == Seq::<Option<GeomModel>>::empty(),
    {
        let r = MixedGeometryArrayBuilder {
            type_ids: Vec::with_capacity(capacity),
            offsets: Vec::with_capacity(capacity),
            validity: Vec::with_capacity(capacity),
            points: PointArrayBuilder::new(0),
            line_strings: LineStringArrayBuilder::new(0),
            polygons: PolygonArrayBuilder::new(0),
            multi_points: MultiPointArrayBuilder::new(0),
            multi_line_strings: MultiLineStringArrayBuilder::new(0),
            multi_polygons: MultiPolygonArrayBuilder::new(0),
        };
        assert(r.rows() =~= Seq::<Option<GeomModel>>::empty());
        r
    }

    pub fn len(&self) -> (r: usize)
        requires
            self.wf(),
        ensures
            r == self.spec_len(),
    {
        self.type_ids.len()
    }

    /// Records a row of shape `t` at row `offset` of its builder, after that
    /// builder has grown by exactly that row.
    fn record(&mut self, t: GeometryType, offset: usize, valid: bool, Ghost(g): Ghost<Option<GeomModel>>)
        requires
            old(self).spec_len() < i32::MAX,
            old(self).offset_seq().len() == old(self).spec_len(),
            old(self).valid_bits().len() == old(self).spec_len(),
            old(self).point_arm().wf(),
            old(self).line_string_arm().wf(),
            old(self).polygon_arm().wf(),
            old(self).multi_point_arm().wf(),
            old(self).multi_line_string_arm().wf(),
            old(self).multi_polygon_arm().wf(),
            offset < builder_arm_len(*old(self), t),
            offset <= old(self).spec_len(),
            forall|u: GeometryType| builder_arm_len(*old(self), u) <= old(self).spec_len() + 1,
            forall|i: int| 0 <= i < old(self).spec_len() ==> #[trigger] slot_ok(*old(self), i),
            (if valid {
                builder_arm_value(*old(self), t, offset as int)
            } else {
                None
            }) == g,
        ensures
            final(self).wf(),
            final(self).rows() == old(self).rows().push(g),
            final(self).point_arm() == old(self).point_arm(),
            final(self).line_string_arm() == old(self).line_string_arm(),
            final(self).polygon_arm() == old(self).polygon_arm(),
            final(self).multi_point_arm() == old(self).multi_point_arm(),
            final(self).multi_line_string_arm() == old(self).multi_line_string_arm(),
            final(self).multi_polygon_arm() == old(self).multi_polygon_arm(),
    {
        proof {
            crate::geometry_type::lemma_type_id_round_trip(t);
        }
        self.type_ids.push(t.geo_type_id());
        self.offsets.push(offset as i32);
        self.validity.push(valid);
        assert forall|u: GeometryType| builder_arm_len(*self, u) <= self.spec_len() by {
            assert(builder_arm_len(*self, u) == builder_arm_len(*old(self), u));
        }
        assert forall|i: int| 0 <= i < self.spec_len() implies #[trigger] slot_ok(*self, i) by {
            if i < old(self).spec_len() {
                assert(slot_ok(*old(self), i));
                assert(builder_arm_len(*self, type_of_id(self.type_id_seq()[i]).unwrap())
                    == builder_arm_len(*old(self), type_of_id(self.type_id_seq()[i]).unwrap()));
            } else {
                assert(type_of_id(self.type_id_seq()[i]) == Some(t));
                assert(builder_arm_len(*self, t) == builder_arm_len(*old(self), t));
            }
        }
        assert(self.rows() =~= old(self).rows().push(g));
    }

    /// Appends a row to the builder of the geometry's shape; `None` appends
    /// a null row.
    pub fn push_geo_geometry(&mut self, value: Option<GeoGeometry>)
        requires
            old(self).wf(),
            old(self).spec_len() < i32::MAX,
        ensures
            final(self).wf(),
            final(self).rows() == old(self).rows().push(opt_geom(value)),
    {
        let ghost g = opt_geom(value);
        let ghost pre = *self;
        match value {
            None => self.push_null(),
            Some(GeoGeometry::Point(c)) => {
                let off = self.points.len();
                self.points.push_geo_point(Some(c));
                proof { self.lemma_arm_grew(pre, GeometryType::Point); }
                self.record(GeometryType::Point, off, true, Ghost(g));
            },
            Some(GeoGeometry::LineString(l)) => {
                let off = self.line_strings.len();
                self.line_strings.push_geo_line_string(Some(l));
                proof { self.lemma_arm_grew(pre, GeometryType::LineString); }
                self.record(GeometryType::LineString, off, true, Ghost(g));
            },
            Some(GeoGeometry::Polygon(p)) => {
                let off = self.polygons.len();
                self.polygons.push_geo_polygon(Some(p));
                proof { self.lemma_arm_grew(pre, GeometryType::Polygon); }
                self.record(GeometryType::Polygon, off, true, Ghost(g));
            },
            Some(GeoGeometry::MultiPoint(m)) => {
                let off = self.multi_points.len();
                self.multi_points.push_geo_multipoint(Some(m));
                proof { self.lemma_arm_grew(pre, GeometryType::MultiPoint); }
                self.record(GeometryType::MultiPoint, off, true, Ghost(g));
            },
            Some(GeoGeometry::MultiLineString(m)) => {
                let off = self.multi_line_strings.len();
                self.multi_line_strings.push_geo_multi_line_string(Some(m));
                proof { self.lemma_arm_grew(pre, GeometryType::MultiLineString); }
                self.record(GeometryType::MultiLineString, off, true, Ghost(g));
            },
            Some(GeoGeometry::MultiPolygon(m)) => {
                let off = self.multi_polygons.len();
                self.multi_polygons.push_geo_multi_polygon(Some(m));
                proof { self.lemma_arm_grew(pre, GeometryType::MultiPolygon); }
                self.record(GeometryType::MultiPolygon, off, true, Ghost(g));
            },
        }
    }

    /// Appends a null row, backed by a null row of the point builder.
    pub fn push_null(&mut self)
        requires
            old(self).wf(),
            old(self).spec_len() < i32::MAX,
        ensures
            final(self).wf(),
            final(self).rows() == old(self).rows().push(None),
    {
        let ghost pre = *self;
        let off = self.points.len();
        self.points.push_null();
        proof { self.lemma_arm_grew(pre, GeometryType::Point); }
        self.record(GeometryType::Point, off, false, Ghost(None));
    }

    /// After one typed builder grew by one row, every recorded row still
    /// reads the same and every builder is at most one row longer.
    proof fn lemma_arm_grew(&self, pre: MixedGeometryArrayBuilder, t: GeometryType)
        requires
            pre.wf(),
            self.type_id_seq() == pre.type_id_seq(),
            self.offset_seq() == pre.offset_seq(),
            self.valid_bits() == pre.valid_bits(),
            t != GeometryType::Point ==> self.point_arm() == pre.point_arm(),
            t != GeometryType::LineString ==> self.line_string_arm() == pre.line_string_arm(),
            t != GeometryType::Polygon ==> self.polygon_arm() == pre.polygon_arm(),
            t != GeometryType::MultiPoint ==> self.multi_point_arm() == pre.multi_point_arm(),
            t != GeometryType::MultiLineString ==> self.multi_line_string_arm()
                == pre.multi_line_string_arm(),
            t != GeometryType::MultiPolygon ==> self.multi_polygon_arm()
                == pre.multi_polygon_arm(),
            t == GeometryType::Point ==> self.point_arm().rows().len()
                == pre.point_arm().rows().len() + 1,
            t == GeometryType::Point ==> forall|k: int|
                0 <= k < pre.point_arm().rows().len()
                    ==> #[trigger] self.point_arm().rows()[k]
                    == pre.point_arm().rows()[k],
            t == GeometryType::LineString ==> self.line_string_arm().rows().len()
                == pre.line_string_arm().rows().len() + 1,
            t == GeometryType::LineString ==> forall|k: int|
                0 <= k < pre.line_string_arm().rows().len()
                    ==> #[trigger] self.line_string_arm().rows()[k]
                    == pre.line_string_arm().rows()[k],
            t == GeometryType::Polygon ==> self.polygon_arm().rows().len()
                == pre.polygon_arm().rows().len() + 1,
            t == GeometryType::Polygon ==> forall|k: int|
                0 <= k < pre.polygon_arm().rows().len()
                    ==> #[trigger] self.polygon_arm().rows()[k]
                    == pre.polygon_arm().rows()[k],
            t == GeometryType::MultiPoint ==> self.multi_point_arm().rows().len()
                == pre.multi_point_arm().rows().len() + 1,
            t == GeometryType::MultiPoint ==> forall|k: int|
                0 <= k < pre.multi_point_arm().rows().len()
                    ==> #[trigger] self.multi_point_arm().rows()[k]
                    == pre.multi_point_arm().rows()[k],
            t == GeometryType::MultiLineString ==> self.multi_line_string_arm().rows().len()
                == pre.multi_line_string_arm().rows().len() + 1,
            t == GeometryType::MultiLineString ==> forall|k: int|
                0 <= k < pre.multi_line_string_arm().rows().len()
                    ==> #[trigger] self.multi_line_string_arm().rows()[k]
                    == pre.multi_line_string_arm().rows()[k],
            t == GeometryType::MultiPolygon ==> self.multi_polygon_arm().rows().len()
                == pre.multi_polygon_arm().rows().len() + 1,
            t == GeometryType::MultiPolygon ==> forall|k: int|
                0 <= k < pre.multi_polygon_arm().rows().len()
                    ==> #[trigger] self.multi_polygon_arm().rows()[k]
                    == pre.multi_polygon_arm().rows()[k],
        ensures
            builder_arm_len(*self, t) == builder_arm_len(pre, t) + 1,
            forall|u: GeometryType| builder_arm_len(*self, u) <= self.spec_len() + 1,
            forall|i: int| 0 <= i < self.spec_len() ==> #[trigger] slot_ok(*self, i),
            self.rows() == pre.rows(),
    {
        assert forall|u: GeometryType| builder_arm_len(*self, u) <= self.spec_len() + 1 by {
            assert(builder_arm_len(pre, u) <= pre.spec_len());
        }
        assert forall|i: int| 0 <= i < self.spec_len() implies #[trigger] slot_ok(*self, i) by {
            assert(slot_ok(pre, i));
        }
        assert forall|i: int| 0 <= i < self.spec_len() implies #[trigger] self.rows()[i]
            == pre.rows()[i] by {
            assert(slot_ok(pre, i));
            let u = type_of_id(pre.type_id_seq()[i]).unwrap();
            let off = pre.offset_seq()[i] as int;
            assert(0 <= off < builder_arm_len(pre, u));
        }
        assert(self.rows() =~= pre.rows());
    }

    /// Freezes every typed builder and the row records into a mixed array
    /// with the same rows.
    pub fn build(self) -> (r: MixedGeometryArray)
        requires
            self.wf(),
        ensures
            r.wf(),
            r.spec_len() == self.spec_len(),
            forall|i: int|
                0 <= i < self.spec_len()
                    ==> #[trigger] r.row(i) == Ok::<Option<GeomModel>, GeoError>(
                    self.rows()[i],
                ),
    {
        let ghost pre = self;
        let MixedGeometryArrayBuilder {
            type_ids,
            offsets,
            validity,
            points,
            line_strings,
            polygons,
            multi_points,
            multi_line_strings,
            multi_polygons,
        } = self;
        let r = MixedGeometryArray {
            type_ids,
            offsets,
            nulls: Some(null_buffer_from_bits(validity)),
            points: Some(points.build()),
            line_strings: Some(line_strings.build()),
            polygons: Some(polygons.build()),
            multi_points: Some(multi_points.build()),
            multi_line_strings: Some(multi_line_strings.build()),
            multi_polygons: Some(multi_polygons.build()),
        };
        assert forall|i: int| 0 <= i < pre.spec_len() implies #[trigger] r.row(i) == Ok::<
            Option<GeomModel>,
            GeoError,
        >(pre.rows()[i]) by {
            assert(slot_ok(pre, i));
        }
        r
    }
}

impl MixedGeometryArray {
    /// Builds a mixed array from optional owned geometries, one row each.
    pub fn from_geo(values: &Vec<Option<GeoGeometry>>) -> (r: MixedGeometryArray)
        requires
            values@.len() < i32::MAX,
        ensures
            r.wf(),
            r.spec_len() == values@.len(),
            forall|k: int|
                0 <= k < values@.len() ==> r.row(k) == Ok::<Option<GeomModel>, GeoError>(
                    opt_geom(#[trigger] values@[k]),
                ),
    {
        let mut b = MixedGeometryArrayBuilder::new(values.len());
        let mut k: usize = 0;
        while k < values.len()
            invariant
                b.wf(),
                k <= values@.len() < i32::MAX,
                b.rows().len() == k,
                forall|j: int| 0 <= j < k ==> b.rows()[j] == opt_geom(#[trigger] values@[j]),
            decreases values@.len() - k,
        {
            let v = match &values[k] {
                Some(g) => Some(g.duplicate()),
                None => None,
            };
            b.push_geo_geometry(v);
            k = k + 1;
        }
        b.build()
    }
}

} // verus!
