use vstd::prelude::*;

use crate::geometry::{GeoGeometry, shape_of};

verus! {

/// The six geometry shapes that a typed array can hold.
#[derive(Debug, Clone, Copy, PartialEq, Eq, Structural)]
pub enum GeometryType {
    Point,
    LineString,
    Polygon,
    MultiPoint,
    MultiLineString,
    MultiPolygon,
}

/// The stable wire identifier of each shape.
pub open spec fn type_id_of(t: GeometryType) -> i8 {
    match t {
        GeometryType::Point => 1,
        GeometryType::LineString => 2,
        GeometryType::Polygon => 3,
        GeometryType::MultiPoint => 4,
        GeometryType::MultiLineString => 5,
        GeometryType::MultiPolygon => 6,
    }
}

/// The shape whose identifier is `id`, if any.
pub open spec fn type_of_id(id: i8) -> Option<GeometryType> {
    if id == 1 {
        Some(GeometryType::Point)
    } else if id == 2 {
        Some(GeometryType::LineString)
    } else if id == 3 {
        Some(GeometryType::Polygon)
    } else if id == 4 {
        Some(GeometryType::MultiPoint)
    } else if id == 5 {
        Some(GeometryType::MultiLineString)
    } else if id == 6 {
        Some(GeometryType::MultiPolygon)
    } else {
        None
    }
}

impl GeometryType {
    pub fn geo_type_id(&self) -> (r: i8)
        ensures
            r == type_id_of(*self),
    {
        match self {
            GeometryType::Point => 1,
            GeometryType::LineString => 2,
            GeometryType::Polygon => 3,
            GeometryType::MultiPoint => 4,
            GeometryType::MultiLineString => 5,
            GeometryType::MultiPolygon => 6,
        }
    }

    /// Looks the shape up by its wire identifier, trying the shapes in order.
    pub fn find(type_id: i8) -> (r: Option<GeometryType>)
        ensures
            r == type_of_id(type_id),
            r matches Some(t) ==> type_id_of(t) == type_id,
    {
        let all = [
            GeometryType::Point,
            GeometryType::LineString,
            GeometryType::Polygon,
            GeometryType::MultiPoint,
            GeometryType::MultiLineString,
            GeometryType::MultiPolygon,
        ];
        let mut i: usize = 0;
        while i < 6
            invariant
                0 <= i <= 6,
                all@ == seq![
                    GeometryType::Point,
                    GeometryType::LineString,
                    GeometryType::Polygon,
                    GeometryType::MultiPoint,
                    GeometryType::MultiLineString,
                    GeometryType::MultiPolygon,
                ],
                forall|k: int| 0 <= k < i ==> type_id_of(#[trigger] all@[k]) != type_id,
            decreases 6 - i,
        {
            if all[i].geo_type_id() == type_id {
                return Some(all[i]);
            }
            i = i + 1;
        }
        assert(type_id_of(all@[0]) != type_id && type_id_of(all@[1]) != type_id
            && type_id_of(all@[2]) != type_id && type_id_of(all@[3]) != type_id
            && type_id_of(all@[4]) != type_id && type_id_of(all@[5]) != type_id);
        None
    }
}

/// The SQL name of each shape.
pub open spec fn sql_type_name(t: GeometryType) -> Seq<char> {
    match t {
        GeometryType::Point => "ST_Point"@,
        GeometryType::LineString => "ST_LineString"@,
        GeometryType::Polygon => "ST_Polygon"@,
        GeometryType::MultiPoint => "ST_MultiPoint"@,
        GeometryType::MultiLineString => "ST_MultiLineString"@,
        GeometryType::MultiPolygon => "ST_MultiPolygon"@,
    }
}

/// The SQL name of the shape of `geom`.
pub fn geometry_type(geom: &GeoGeometry) -> (r: &'static str)
    ensures
        r@ == sql_type_name(shape_of(geom@)),
{
    match geom {
        GeoGeometry::Point(_) => "ST_Point",
        GeoGeometry::LineString(_) => "ST_LineString",
        GeoGeometry::Polygon(_) => "ST_Polygon",
        GeoGeometry::MultiPoint(_) => "ST_MultiPoint",
        GeoGeometry::MultiLineString(_) => "ST_MultiLineString",
        GeoGeometry::MultiPolygon(_) => "ST_MultiPolygon",
    }
}

/// Every shape's identifier leads back to that shape.
pub proof fn lemma_type_id_round_trip(t: GeometryType)
    ensures
        type_of_id(type_id_of(t)) == Some(t),
{
}

} // verus!
