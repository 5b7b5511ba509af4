use geocolumn::wkb::{GeometryArrayBuilder, WkbArray, WkbDialect};
use geozero::wkb::FromWkb;
use geozero::{GeozeroGeometry, ToWkb};

fn gz_dialect(d: WkbDialect) -> geozero::wkb::WkbDialect {
    match d {
        WkbDialect::Wkb => geozero::wkb::WkbDialect::Wkb,
        WkbDialect::Ewkb => geozero::wkb::WkbDialect::Ewkb,
        WkbDialect::Geopackage => geozero::wkb::WkbDialect::Geopackage,
        WkbDialect::MySQL => geozero::wkb::WkbDialect::MySQL,
        WkbDialect::SpatiaLite => geozero::wkb::WkbDialect::SpatiaLite,
    }
}

fn builder_from(values: &[Option<geo::Geometry>]) -> GeometryArrayBuilder {
    let mut builder = GeometryArrayBuilder::new(WkbDialect::Wkb, values.len());
    for value in values {
        match value {
            Some(geom) => {
                let wkb = geom
                    .to_wkb_dialect(gz_dialect(WkbDialect::Wkb), geom.dims(), geom.srid(), vec![])
                    .unwrap();
                builder.append_wkb(Some(wkb.as_slice())).unwrap();
            }
            None => builder.append_wkb(None).unwrap(),
        }
    }
    builder
}

fn geo_value(
    arr: &WkbArray,
    i: usize,
) -> Result<Option<geo::Geometry>, geozero::error::GeozeroError> {
    let Some(wkb) = arr.wkb(i) else {
        return Ok(None);
    };
    let dialect = gz_dialect(arr.dialect().unwrap());
    let mut rdr = std::io::Cursor::new(wkb.as_slice());
    geo::Geometry::from_wkb(&mut rdr, dialect).map(Some)
}

fn ls(points: &[(f64, f64)]) -> geo::LineString {
    geo::LineString::from(points.to_vec())
}

fn outer() -> geo::LineString {
    ls(&[(-111., 45.), (-111., 41.), (-104., 41.), (-104., 45.)])
}

fn inner() -> geo::LineString {
    ls(&[(-110., 44.), (-110., 42.), (-105., 42.), (-105., 44.)])
}

#[test]
fn point_array() {
    let p0 = geo::Point::new(0f64, 1f64);
    let p2 = geo::Point::new(2f64, 3f64);
    let builder = builder_from(&[Some(p0.into()), None, Some(p2.into())]);
    let arr = builder.build();
    assert_eq!(arr.geom_len(), 3);

    assert_eq!(geo_value(&arr, 0).unwrap(), Some(geo::Geometry::Point(p0)));
    assert_eq!(geo_value(&arr, 1).unwrap(), None);
    assert_eq!(geo_value(&arr, 2).unwrap(), Some(geo::Geometry::Point(p2)));
    assert_eq!(geo_value(&arr, 3).unwrap(), None);
}

#[test]
fn linestring_array() {
    let ls0 = ls(&[(0., 1.), (1., 2.)]);
    let ls2 = ls(&[(3., 4.), (5., 6.)]);
    let builder = builder_from(&[Some(ls0.clone().into()), None, Some(ls2.clone().into())]);
    let arr = builder.build();
    assert_eq!(arr.geom_len(), 3);

    assert_eq!(geo_value(&arr, 0).unwrap(), Some(geo::Geometry::LineString(ls0)));
    assert_eq!(geo_value(&arr, 1).unwrap(), None);
    assert_eq!(geo_value(&arr, 2).unwrap(), Some(geo::Geometry::LineString(ls2)));
    assert_eq!(geo_value(&arr, 3).unwrap(), None);
}

#[test]
fn polygon_array() {
    let p0 = geo::Polygon::new(outer(), vec![]);
    let p2 = geo::Polygon::new(outer(), vec![inner()]);
    let builder = builder_from(&[Some(p0.clone().into()), None, Some(p2.clone().into())]);
    let arr = builder.build();
    assert_eq!(arr.geom_len(), 3);

    assert_eq!(geo_value(&arr, 0).unwrap(), Some(geo::Geometry::Polygon(p0)));
    assert_eq!(geo_value(&arr, 1).unwrap(), None);
    assert_eq!(geo_value(&arr, 2).unwrap(), Some(geo::Geometry::Polygon(p2)));
    assert_eq!(geo_value(&arr, 3).unwrap(), None);
}

#[test]
fn multi_point_array() {
    let mp0 = geo::MultiPoint::new(vec![geo::Point::new(0., 1.), geo::Point::new(1., 2.)]);
    let mp2 = geo::MultiPoint::new(vec![geo::Point::new(3., 4.), geo::Point::new(5., 6.)]);
    let builder = builder_from(&[Some(mp0.clone().into()), None, Some(mp2.clone().into())]);
    let arr = builder.build();
    assert_eq!(arr.geom_len(), 3);

    assert_eq!(geo_value(&arr, 0).unwrap(), Some(geo::Geometry::MultiPoint(mp0)));
    assert_eq!(geo_value(&arr, 1).unwrap(), None);
    assert_eq!(geo_value(&arr, 2).unwrap(), Some(geo::Geometry::MultiPoint(mp2)));
    assert_eq!(geo_value(&arr, 3).unwrap(), None);
}

#[test]
fn multi_line_string_array() {
    let ml0 = geo::MultiLineString::new(vec![outer()]);
    let ml2 = geo::MultiLineString::new(vec![outer(), inner()]);
    let builder = builder_from(&[Some(ml0.clone().into()), None, Some(ml2.clone().into())]);
    let arr = builder.build();
    assert_eq!(arr.geom_len(), 3);

    assert_eq!(geo_value(&arr, 0).unwrap(), Some(geo::Geometry::MultiLineString(ml0)));
    assert_eq!(geo_value(&arr, 1).unwrap(), None);
    assert_eq!(geo_value(&arr, 2).unwrap(), Some(geo::Geometry::MultiLineString(ml2)));
    assert_eq!(geo_value(&arr, 3).unwrap(), None);
}

#[test]
fn multi_polygon_array() {
    let mp0 = geo::MultiPolygon::new(vec![
        geo::Polygon::new(outer(), vec![]),
        geo::Polygon::new(outer(), vec![inner()]),
    ]);
    let mp2 = geo::MultiPolygon::new(vec![
        geo::Polygon::new(outer(), vec![]),
        geo::Polygon::new(inner(), vec![]),
    ]);
    let builder = builder_from(&[Some(mp0.clone().into()), None, Some(mp2.clone().into())]);
    let arr = builder.build();
    assert_eq!(arr.geom_len(), 3);

    assert_eq!(geo_value(&arr, 0).unwrap(), Some(geo::Geometry::MultiPolygon(mp0)));
    assert_eq!(geo_value(&arr, 1).unwrap(), None);
    assert_eq!(geo_value(&arr, 2).unwrap(), Some(geo::Geometry::MultiPolygon(mp2)));
    assert_eq!(geo_value(&arr, 3).unwrap(), None);
}
