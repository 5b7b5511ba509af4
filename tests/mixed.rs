use arrow_buffer::NullBuffer;
use geocolumn::array::GeometryArray;
use geocolumn::error::GeoError;
use geocolumn::geometry::{
    Coord, GeoGeometry, GeoLineString, GeoMultiLineString, GeoMultiPoint, GeoMultiPolygon,
    GeoPolygon,
};
use geocolumn::geometry_type::{geometry_type, GeometryType};
use geocolumn::linestring::LineStringArray;
use geocolumn::mixed::{MixedGeometryArray, MixedGeometryArrayBuilder};
use geocolumn::point::PointArray;
use geocolumn::scalar::GeometryScalar;

fn c(x: f64, y: f64) -> Coord {
    Coord::new(x.to_bits(), y.to_bits())
}

fn one_of_each() -> Vec<GeoGeometry> {
    let ring = vec![c(0., 0.), c(1., 0.), c(1., 1.), c(0., 0.)];
    let poly = GeoPolygon { exterior: Some(ring.clone()), interiors: vec![] };
    vec![
        GeoGeometry::Point(c(1., 2.)),
        GeoGeometry::LineString(GeoLineString { coords: vec![c(0., 1.), c(1., 2.)] }),
        GeoGeometry::Polygon(poly.clone()),
        GeoGeometry::MultiPoint(GeoMultiPoint { points: vec![c(3., 4.), c(5., 6.)] }),
        GeoGeometry::MultiLineString(GeoMultiLineString { lines: vec![ring.clone(), ring] }),
        GeoGeometry::MultiPolygon(GeoMultiPolygon { polygons: vec![poly.clone(), poly] }),
    ]
}

fn shape(s: &GeometryScalar) -> GeometryType {
    match s {
        GeometryScalar::Point(_) => GeometryType::Point,
        GeometryScalar::LineString(_) => GeometryType::LineString,
        GeometryScalar::Polygon(_) => GeometryType::Polygon,
        GeometryScalar::MultiPoint(_) => GeometryType::MultiPoint,
        GeometryScalar::MultiLineString(_) => GeometryType::MultiLineString,
        GeometryScalar::MultiPolygon(_) => GeometryType::MultiPolygon,
    }
}

#[test]
fn type_ids_are_stable() {
    assert_eq!(GeometryType::Point.geo_type_id(), 1);
    assert_eq!(GeometryType::LineString.geo_type_id(), 2);
    assert_eq!(GeometryType::Polygon.geo_type_id(), 3);
    assert_eq!(GeometryType::MultiPoint.geo_type_id(), 4);
    assert_eq!(GeometryType::MultiLineString.geo_type_id(), 5);
    assert_eq!(GeometryType::MultiPolygon.geo_type_id(), 6);
    assert_eq!(GeometryType::find(3), Some(GeometryType::Polygon));
    assert_eq!(GeometryType::find(6), Some(GeometryType::MultiPolygon));
    assert_eq!(GeometryType::find(0), None);
    assert_eq!(GeometryType::find(7), None);
    assert_eq!(MixedGeometryArray::extension_name(), "geoarrow.geometry");
}

#[test]
fn geometry_type_names() {
    let names: Vec<&str> = one_of_each().iter().map(geometry_type).collect();
    assert_eq!(
        names,
        vec![
            "ST_Point",
            "ST_LineString",
            "ST_Polygon",
            "ST_MultiPoint",
            "ST_MultiLineString",
            "ST_MultiPolygon"
        ]
    );
}

#[test]
fn mixed_dispatch_one_of_each() {
    let geoms = one_of_each();
    let values: Vec<Option<GeoGeometry>> = geoms.iter().cloned().map(Some).collect();
    let arr = MixedGeometryArray::from_geo(&values);
    assert_eq!(arr.len(), 6);
    let expected = [
        GeometryType::Point,
        GeometryType::LineString,
        GeometryType::Polygon,
        GeometryType::MultiPoint,
        GeometryType::MultiLineString,
        GeometryType::MultiPolygon,
    ];
    for i in 0..6 {
        let v = arr.value(i).unwrap().unwrap();
        assert_eq!(shape(&v), expected[i]);
        assert_eq!(v.to_geo(), geoms[i]);
        assert_eq!(arr.value_as_geo(i), Ok(Some(geoms[i].clone())));
    }
    assert_eq!(arr.value(6).err(), Some(GeoError::OutOfRange));
}

#[test]
fn mixed_nulls() {
    let mut b = MixedGeometryArrayBuilder::new(2);
    b.push_null();
    b.push_geo_geometry(Some(GeoGeometry::Point(c(4., 5.))));
    b.push_geo_geometry(None);
    let arr = b.build();
    assert_eq!(arr.len(), 3);
    assert!(arr.value(0).unwrap().is_none());
    assert!(arr.is_null(0));
    assert_eq!(arr.value_as_geo(1), Ok(Some(GeoGeometry::Point(c(4., 5.)))));
    assert!(arr.value(2).unwrap().is_none());
}

#[test]
fn mixed_errors() {
    let points = PointArray::from_geo(&vec![Some(c(1., 1.))]);
    let arr = MixedGeometryArray::try_new(
        vec![1, 2, 9, 1, 1],
        vec![0, 0, 0, 1, -1],
        None,
        Some(points),
        None,
        None,
        None,
        None,
        None,
    )
    .unwrap();
    assert!(matches!(arr.value(0), Ok(Some(GeometryScalar::Point(_)))));
    assert_eq!(arr.value(1).err(), Some(GeoError::MissingUnionArm));
    assert_eq!(arr.value(2).err(), Some(GeoError::InvalidTypeId));
    assert_eq!(arr.value(3).err(), Some(GeoError::OutOfRange));
    assert_eq!(arr.value(4).err(), Some(GeoError::OutOfRange));
    assert_eq!(arr.value(5).err(), Some(GeoError::OutOfRange));
}

#[test]
fn mixed_try_new_checks_lengths() {
    let lines = LineStringArray::from_geo(&vec![None]);
    let r = MixedGeometryArray::try_new(
        vec![2, 2],
        vec![0],
        None,
        None,
        Some(lines),
        None,
        None,
        None,
        None,
    );
    assert!(matches!(r, Err(GeoError::MalformedBuffer)));
    let r = MixedGeometryArray::try_new(
        vec![2],
        vec![0],
        Some(NullBuffer::from(vec![true, false])),
        None,
        None,
        None,
        None,
        None,
        None,
    );
    assert!(matches!(r, Err(GeoError::MalformedBuffer)));
}

#[test]
fn mixed_iteration_stops_at_first_error() {
    let points = PointArray::from_geo(&vec![Some(c(1., 1.))]);
    let arr = MixedGeometryArray::try_new(
        vec![1, 3],
        vec![0, 0],
        None,
        Some(points),
        None,
        None,
        None,
        None,
        None,
    )
    .unwrap();
    let wrapped = GeometryArray::Mixed(arr);
    assert_eq!(wrapped.len(), 2);
    assert_eq!(wrapped.iter_geo(), Err(GeoError::MissingUnionArm));
    assert_eq!(wrapped.value_as_geo(0), Ok(Some(GeoGeometry::Point(c(1., 1.)))));
}
