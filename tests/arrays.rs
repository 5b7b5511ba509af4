use arrow_buffer::NullBuffer;
use geocolumn::array::{build_geometry_array_from_geo, GeometryArray, GeometryArrayBuilder};
use geocolumn::buffer::CoordBuffer;
use geocolumn::error::GeoError;
use geocolumn::geometry::{
    Coord, GeoGeometry, GeoLineString, GeoMultiLineString, GeoMultiPoint, GeoMultiPolygon,
    GeoPolygon,
};
use geocolumn::linestring::{LineStringArray, LineStringArrayBuilder};
use geocolumn::multilinestring::{MultiLineStringArray, MultiLineStringArrayBuilder};
use geocolumn::multipoint::{MultiPointArray, MultiPointArrayBuilder};
use geocolumn::multipolygon::{MultiPolygonArray, MultiPolygonArrayBuilder};
use geocolumn::point::{PointArray, PointArrayBuilder};
use geocolumn::polygon::{PolygonArray, PolygonArrayBuilder};

fn c(x: f64, y: f64) -> Coord {
    Coord::new(x.to_bits(), y.to_bits())
}

fn line(points: &[(f64, f64)]) -> Vec<Coord> {
    points.iter().map(|&(x, y)| c(x, y)).collect()
}

fn square_polygon() -> GeoPolygon {
    GeoPolygon {
        exterior: Some(line(&[(-111., 45.), (-111., 41.), (-104., 41.), (-104., 45.), (-111., 45.)])),
        interiors: vec![],
    }
}

fn holed_polygon() -> GeoPolygon {
    GeoPolygon {
        exterior: Some(line(&[(-111., 45.), (-111., 41.), (-104., 41.), (-104., 45.), (-111., 45.)])),
        interiors: vec![line(&[
            (-110., 44.),
            (-110., 42.),
            (-105., 42.),
            (-105., 44.),
            (-110., 44.),
        ])],
    }
}

#[test]
fn test_line_string_array() {
    let ls0 = GeoLineString { coords: line(&[(0., 1.), (1., 2.)]) };
    let ls2 = GeoLineString { coords: line(&[(3., 4.), (5., 6.)]) };
    let arr: LineStringArray =
        LineStringArray::from_geo(&vec![Some(ls0.clone()), None, Some(ls2.clone())]);
    assert_eq!(arr.len(), 3);

    let mut iterator = arr.iter_geo().into_iter();
    assert_eq!(iterator.next(), Some(Some(GeoGeometry::LineString(ls0))));
    assert_eq!(iterator.next(), Some(None));
    assert_eq!(iterator.next(), Some(Some(GeoGeometry::LineString(ls2))));
    assert_eq!(iterator.next(), None);
}

#[test]
fn test_multipoint_array() {
    let mp0 = GeoMultiPoint { points: line(&[(0.0, 1.0), (2.0, 3.0)]) };
    let mp2 = GeoMultiPoint { points: line(&[(4.0, 5.0), (6.0, 7.0)]) };
    let arr: MultiPointArray =
        MultiPointArray::from_geo(&vec![Some(mp0.clone()), None, Some(mp2.clone())]);
    assert_eq!(arr.len(), 3);

    let mut iterator = arr.iter_geo().into_iter();
    assert_eq!(iterator.next(), Some(Some(GeoGeometry::MultiPoint(mp0))));
    assert_eq!(iterator.next(), Some(None));
    assert_eq!(iterator.next(), Some(Some(GeoGeometry::MultiPoint(mp2))));
    assert_eq!(iterator.next(), None);
}

#[test]
fn test_point_array() {
    let p0 = c(0.0, 1.0);
    let p2 = c(2.0, 3.0);
    let arr: PointArray = PointArray::from_geo(&vec![Some(p0), None, Some(p2)]);
    assert_eq!(arr.len(), 3);

    let mut iterator = arr.iter_geo().into_iter();
    assert_eq!(iterator.next(), Some(Some(GeoGeometry::Point(p0))));
    assert_eq!(iterator.next(), Some(None));
    assert_eq!(iterator.next(), Some(Some(GeoGeometry::Point(p2))));
    assert_eq!(iterator.next(), None);
}

#[test]
fn test_polygon_array() {
    let p0 = square_polygon();
    let p2 = holed_polygon();
    let arr: PolygonArray =
        PolygonArray::from_geo(&vec![Some(p0.clone()), None, Some(p2.clone())]);
    assert_eq!(arr.len(), 3);

    let mut iterator = arr.iter_geo().into_iter();
    assert_eq!(iterator.next(), Some(Some(GeoGeometry::Polygon(p0))));
    assert_eq!(iterator.next(), Some(None));
    assert_eq!(iterator.next(), Some(Some(GeoGeometry::Polygon(p2))));
    assert_eq!(iterator.next(), None);
}

#[test]
fn multi_line_string_round_trip() {
    let m0 = GeoMultiLineString {
        lines: vec![line(&[(0., 0.), (1., 1.)]), line(&[(2., 2.), (3., 3.), (4., 4.)])],
    };
    let m2 = GeoMultiLineString { lines: vec![line(&[(5., 5.), (6., 6.)])] };
    let arr: MultiLineStringArray =
        MultiLineStringArray::from_geo(&vec![Some(m0.clone()), None, Some(m2.clone())]);
    assert_eq!(arr.len(), 3);
    let rows = arr.iter_geo();
    assert_eq!(
        rows,
        vec![
            Some(GeoGeometry::MultiLineString(m0)),
            None,
            Some(GeoGeometry::MultiLineString(m2))
        ]
    );
}

#[test]
fn multi_polygon_round_trip() {
    let m0 = GeoMultiPolygon { polygons: vec![square_polygon(), holed_polygon()] };
    let m2 = GeoMultiPolygon { polygons: vec![holed_polygon()] };
    let arr: MultiPolygonArray =
        MultiPolygonArray::from_geo(&vec![Some(m0.clone()), None, Some(m2.clone())]);
    assert_eq!(arr.len(), 3);
    let rows = arr.iter_geo();
    assert_eq!(
        rows,
        vec![Some(GeoGeometry::MultiPolygon(m0.clone())), None, Some(GeoGeometry::MultiPolygon(m2))]
    );
    let view = arr.value(0).unwrap().unwrap();
    assert_eq!(view.num_polygons(), 2);
    let second = view.polygon(1).unwrap();
    assert_eq!(second.num_interiors(), 1);
    assert_eq!(second.interior(0).unwrap().num_coords(), 5);
    assert!(view.polygon(2).is_none());
}

#[test]
fn views_read_nested_elements() {
    let arr = PolygonArray::from_geo(&vec![Some(holed_polygon())]);
    let p = arr.value(0).unwrap().unwrap();
    assert_eq!(p.num_interiors(), 1);
    assert_eq!(p.exterior().unwrap().num_coords(), 5);
    assert_eq!(p.num_rings(), 2);
    let first = p.exterior().unwrap().coord(0).unwrap();
    assert_eq!(first.x(), (-111.0f64).to_bits());
    assert_eq!(first.y(), 45.0f64.to_bits());
    assert!(p.interior(1).is_none());
    assert_eq!(p.interiors().len(), 1);

    let ls = LineStringArray::from_geo(&vec![Some(GeoLineString {
        coords: line(&[(0., 1.), (1., 2.)]),
    })]);
    let l = ls.value(0).unwrap().unwrap();
    assert_eq!(l.num_coords(), 2);
    assert!(l.coord(2).is_none());
    assert_eq!(l.coords().len(), 2);
    assert_eq!(l.coord(1).unwrap().to_coord(), c(1., 2.));
}

#[test]
fn out_of_range_rows_are_errors() {
    let arr = LineStringArray::from_geo(&vec![None]);
    assert!(arr.value(0).unwrap().is_none());
    assert_eq!(arr.value(1).err(), Some(GeoError::OutOfRange));
    assert_eq!(arr.value_as_geo(5), Err(GeoError::OutOfRange));
    let points = PointArray::from_geo(&vec![Some(c(1., 2.))]);
    assert_eq!(points.value_as_geo(1), Err(GeoError::OutOfRange));
}

#[test]
fn empty_arrays_have_no_rows() {
    let arr = PolygonArrayBuilder::new(4).build();
    assert_eq!(arr.len(), 0);
    assert_eq!(arr.iter_geo(), vec![]);
    let mp = MultiPolygonArrayBuilder::new(0).build();
    assert_eq!(mp.len(), 0);
}

#[test]
fn empty_geometries_are_kept() {
    let empty = GeoLineString { coords: vec![] };
    let arr = LineStringArray::from_geo(&vec![Some(empty.clone()), None]);
    assert_eq!(arr.value_as_geo(0), Ok(Some(GeoGeometry::LineString(empty))));
    assert!(!arr.is_null(0));
    assert!(arr.is_null(1));
}

#[test]
fn null_rows_do_not_advance_offsets() {
    let mut b = LineStringArrayBuilder::new(2);
    b.push_geo_line_string(Some(GeoLineString { coords: line(&[(0., 0.), (1., 1.)]) }));
    b.push_null();
    b.push_null();
    let arr = b.build();
    let v = arr.value(0).unwrap().unwrap();
    assert_eq!(v.num_coords(), 2);
    assert!(arr.value(1).unwrap().is_none());
    assert!(arr.value(2).unwrap().is_none());
    let bits: Vec<bool> = arr.nulls().unwrap().iter().collect();
    assert_eq!(bits, vec![true, false, false]);
}

#[test]
fn polygon_rejects_ring_offsets_past_coords() {
    let coords = CoordBuffer::try_new(vec![0, 0, 1, 1, 2, 2, 0, 0]).unwrap();
    let r = PolygonArray::try_new(coords.clone(), vec![0, 1], vec![0, 3], None);
    assert!(matches!(r, Err(GeoError::MalformedBuffer)));
    let r = PolygonArray::try_new(coords.clone(), vec![0, 1], vec![0, 5], None);
    assert!(matches!(r, Err(GeoError::MalformedBuffer)));
    let ok = PolygonArray::try_new(coords, vec![0, 1], vec![0, 4], None);
    assert!(ok.is_ok());
}

#[test]
fn try_new_rejects_malformed_buffers() {
    let coords = CoordBuffer::try_new(vec![0, 0, 1, 1]).unwrap();
    assert!(matches!(
        LineStringArray::try_new(coords.clone(), vec![0, 2, 1], None),
        Err(GeoError::MalformedBuffer)
    ));
    assert!(matches!(
        LineStringArray::try_new(coords.clone(), vec![], None),
        Err(GeoError::MalformedBuffer)
    ));
    assert!(matches!(
        LineStringArray::try_new(coords.clone(), vec![0, 2], Some(NullBuffer::from(vec![true, true]))),
        Err(GeoError::MalformedBuffer)
    ));
    assert!(LineStringArray::try_new(coords.clone(), vec![0, 1, 2], Some(NullBuffer::from(vec![true, false]))).is_ok());
    assert!(matches!(
        PointArray::try_new(coords.clone(), Some(NullBuffer::from(vec![true]))),
        Err(GeoError::MalformedBuffer)
    ));
    assert!(matches!(
        MultiPolygonArray::try_new(coords.clone(), vec![0, 1], vec![0, 2], vec![0, 2], None),
        Err(GeoError::MalformedBuffer)
    ));
    assert!(MultiPolygonArray::try_new(coords.clone(), vec![0, 1], vec![0, 1], vec![0, 2], None)
        .is_ok());
    assert!(matches!(
        PolygonArray::try_new(coords, vec![0, 2], vec![0, 2], None),
        Err(GeoError::MalformedBuffer)
    ));
}

#[test]
fn extension_names_and_type_ids() {
    assert_eq!(PointArray::extension_name(), "geoarrow.point");
    assert_eq!(LineStringArray::extension_name(), "geoarrow.linestring");
    assert_eq!(PolygonArray::extension_name(), "geoarrow.polygon");
    assert_eq!(MultiPointArray::extension_name(), "geoarrow.multipoint");
    assert_eq!(MultiLineStringArray::extension_name(), "geoarrow.multilinestring");
    assert_eq!(MultiPolygonArray::extension_name(), "geoarrow.multipolygon");
    assert_eq!(PointArray::geo_type_id(), 1);
    assert_eq!(LineStringArray::geo_type_id(), 2);
    assert_eq!(PolygonArray::geo_type_id(), 3);
    assert_eq!(MultiPointArray::geo_type_id(), 4);
    assert_eq!(MultiLineStringArray::geo_type_id(), 5);
    assert_eq!(MultiPolygonArray::geo_type_id(), 6);
}

#[test]
fn generic_builder_rejects_other_shapes() {
    let template = GeometryArray::Point(PointArrayBuilder::new(0).build());
    let mut b = GeometryArrayBuilder::new(2, &template);
    assert_eq!(b.push_geo_geometry(Some(GeoGeometry::Point(c(1., 2.)))), Ok(()));
    let poly = GeoGeometry::Polygon(square_polygon());
    assert_eq!(b.push_geo_geometry(Some(poly)), Err(GeoError::ShapeMismatch));
    assert_eq!(b.push_geo_geometry(None), Ok(()));
    let arr = b.build();
    assert_eq!(arr.len(), 2);
    assert_eq!(arr.value_as_geo(0), Ok(Some(GeoGeometry::Point(c(1., 2.)))));
    assert_eq!(arr.value_as_geo(1), Ok(None));
    assert_eq!(arr.iter_geo(), Ok(vec![Some(GeoGeometry::Point(c(1., 2.))), None]));
}

#[test]
fn build_from_geo_checks_shapes() {
    let template = GeometryArray::LineString(LineStringArrayBuilder::new(0).build());
    let ls = GeoGeometry::LineString(GeoLineString { coords: line(&[(0., 1.), (1., 2.)]) });
    let arr = build_geometry_array_from_geo(vec![Some(ls.clone()), None], &template).unwrap();
    assert_eq!(arr.len(), 2);
    assert_eq!(arr.value_as_geo(0), Ok(Some(ls.clone())));
    let bad = build_geometry_array_from_geo(vec![Some(GeoGeometry::Point(c(0., 0.)))], &template);
    assert!(matches!(bad, Err(GeoError::ShapeMismatch)));
}

#[test]
fn empty_polygons_are_accepted() {
    let none = CoordBuffer::try_new(vec![]).unwrap();
    let arr = PolygonArray::try_new(none.clone(), vec![0, 0], vec![0], None).unwrap();
    assert_eq!(arr.len(), 1);
    let p = arr.value(0).unwrap().unwrap();
    assert_eq!(p.num_rings(), 0);
    assert_eq!(p.num_interiors(), 0);
    assert!(p.exterior().is_none());
    let empty = GeoPolygon { exterior: None, interiors: vec![] };
    assert_eq!(arr.value_as_geo(0), Ok(Some(GeoGeometry::Polygon(empty.clone()))));

    let mp = MultiPolygonArray::try_new(none, vec![0, 1], vec![0, 0], vec![0], None).unwrap();
    let v = mp.value(0).unwrap().unwrap();
    assert_eq!(v.num_polygons(), 1);
    assert_eq!(v.polygon(0).unwrap().num_rings(), 0);
    assert_eq!(
        mp.value_as_geo(0),
        Ok(Some(GeoGeometry::MultiPolygon(GeoMultiPolygon { polygons: vec![empty.clone()] })))
    );

    let built = PolygonArray::from_geo(&vec![Some(empty.clone()), Some(square_polygon())]);
    assert_eq!(built.value_as_geo(0), Ok(Some(GeoGeometry::Polygon(empty))));
    assert_eq!(built.value_as_geo(1), Ok(Some(GeoGeometry::Polygon(square_polygon()))));
}
