use bytes::Bytes;
use arrow_buffer::NullBuffer;
use geocolumn::error::GeoError;
use geocolumn::wkb::{
    decode_wkb_dialect, wkb_type_id, Geometry, GeometryArrayBuilder, WkbArray, WkbBuffer,
    WkbDialect,
};

const POINT_WKB: [u8; 21] = [
    0x01, 0x01, 0x00, 0x00, 0x00, 0xcb, 0x49, 0x28, 0x7d, 0x21, 0xc4, 0x51, 0xc0, 0xf0, 0xbf, 0x95,
    0xec, 0xd8, 0x24, 0x45, 0x40,
];

#[test]
fn dialect_tags() {
    assert_eq!(wkb_type_id(WkbDialect::Wkb), 1);
    assert_eq!(wkb_type_id(WkbDialect::Ewkb), 2);
    assert_eq!(wkb_type_id(WkbDialect::Geopackage), 3);
    assert_eq!(wkb_type_id(WkbDialect::MySQL), 4);
    assert_eq!(wkb_type_id(WkbDialect::SpatiaLite), 5);
}

#[test]
fn dialect_round_trip() {
    for d in [
        WkbDialect::Wkb,
        WkbDialect::Ewkb,
        WkbDialect::Geopackage,
        WkbDialect::MySQL,
        WkbDialect::SpatiaLite,
    ] {
        assert_eq!(decode_wkb_dialect(wkb_type_id(d)), Ok(d));
    }
}

#[test]
fn unknown_dialect_tags_fail() {
    assert_eq!(decode_wkb_dialect(0), Err(GeoError::UnknownDialect));
    assert_eq!(decode_wkb_dialect(6), Err(GeoError::UnknownDialect));
    assert_eq!(decode_wkb_dialect(255), Err(GeoError::UnknownDialect));
}

#[test]
fn wkb_buffer_strips_tag() {
    let buf = WkbBuffer::try_new(Bytes::from(POINT_WKB.to_vec()), WkbDialect::Ewkb).unwrap();
    assert_eq!(buf.dialect(), Ok(WkbDialect::Ewkb));
    assert_eq!(buf.data().to_vec(), POINT_WKB.to_vec());
    assert_eq!(buf.len(), 21);
    let empty = WkbBuffer::try_new(Bytes::new(), WkbDialect::Wkb).unwrap();
    assert_eq!(empty.len(), 0);
    assert_eq!(empty.data().to_vec(), Vec::<u8>::new());
    assert_eq!(empty.dialect(), Ok(WkbDialect::Wkb));
}

const LINE_WKB: [u8; 41] = [
    0x01, 0x02, 0x00, 0x00, 0x00, 0x02, 0x00, 0x00, 0x00, 0x00, 0x00, 0x00, 0x00, 0x00, 0x00, 0x00,
    0x00, 0x00, 0x00, 0x00, 0x00, 0x00, 0x00, 0xf0, 0x3f, 0x00, 0x00, 0x00, 0x00, 0x00, 0x00, 0xf0,
    0x3f, 0x00, 0x00, 0x00, 0x00, 0x00, 0x00, 0x00, 0x40,
];

#[test]
fn wkb_builder_rows() {
    let mut b = GeometryArrayBuilder::new(WkbDialect::Wkb, 3);
    assert_eq!(b.dialect(), WkbDialect::Wkb);
    assert_eq!(b.append_wkb(Some(&POINT_WKB[..])), Ok(()));
    b.append_null();
    assert_eq!(b.append_wkb(Some(&LINE_WKB[..])), Ok(()));
    assert_eq!(b.append_wkb(None), Ok(()));
    let arr = b.build();
    assert_eq!(arr.geom_len(), 4);
    assert_eq!(arr.dialect(), Ok(WkbDialect::Wkb));
    assert_eq!(arr.wkb(0), Some(POINT_WKB.to_vec()));
    assert_eq!(arr.wkb(1), None);
    assert_eq!(arr.wkb(2), Some(LINE_WKB.to_vec()));
    assert_eq!(arr.wkb(3), None);
    assert_eq!(arr.wkb(4), None);
}

#[test]
fn wkb_builder_refuses_malformed_payloads() {
    let mut b = GeometryArrayBuilder::new(WkbDialect::Wkb, 2);
    assert_eq!(b.append_wkb(Some(&[9u8, 8, 7][..])), Err(GeoError::DecodeFailure));
    assert_eq!(b.append_wkb(Some(&POINT_WKB[..10])), Err(GeoError::DecodeFailure));
    assert_eq!(b.append_wkb(Some(&[][..])), Err(GeoError::DecodeFailure));
    assert_eq!(b.append_wkb(Some(&POINT_WKB[..])), Ok(()));
    let arr = b.build();
    assert_eq!(arr.geom_len(), 1);
    assert_eq!(arr.wkb(0), Some(POINT_WKB.to_vec()));
}

#[test]
fn wkb_array_try_new_checks() {
    let mut values = vec![1u8];
    values.extend_from_slice(&POINT_WKB);
    assert_eq!(WkbArray::try_new(vec![], vec![0], None).err(), Some(GeoError::MalformedBuffer));
    assert_eq!(
        WkbArray::try_new(values.clone(), vec![0, 22], None).err(),
        Some(GeoError::MalformedBuffer)
    );
    assert_eq!(
        WkbArray::try_new(values.clone(), vec![1, 23], None).err(),
        Some(GeoError::MalformedBuffer)
    );
    assert_eq!(
        WkbArray::try_new(values.clone(), vec![1, 22], Some(NullBuffer::from(vec![true, true])))
            .err(),
        Some(GeoError::MalformedBuffer)
    );
    let a = WkbArray::try_new(values.clone(), vec![1, 22], None).unwrap();
    assert_eq!(a.dialect(), Ok(WkbDialect::Wkb));
    assert_eq!(a.wkb(0), Some(POINT_WKB.to_vec()));
    let split = WkbArray::try_new(values.clone(), vec![1, 5, 22], None);
    assert_eq!(split.err(), Some(GeoError::DecodeFailure));
    let masked =
        WkbArray::try_new(values.clone(), vec![1, 5, 22], Some(NullBuffer::from(vec![false, false])))
            .unwrap();
    assert_eq!(masked.wkb(0), None);
    let mut bad_tag = values.clone();
    bad_tag[0] = 9;
    assert_eq!(
        WkbArray::try_new(bad_tag, vec![1, 22], None).err(),
        Some(GeoError::UnknownDialect)
    );
}

#[test]
fn wkb_geometry_view() {
    let buf = WkbBuffer::try_new(Bytes::from(vec![10, 11, 12, 13]), WkbDialect::MySQL).unwrap();
    let offsets = vec![0usize, 1, 4];
    let g = Geometry::try_new(&buf, &offsets, 1).unwrap();
    assert_eq!(g.wkb_bytes().to_vec(), vec![11, 12, 13]);
    assert_eq!(g.dialect(), Ok(WkbDialect::MySQL));
    assert!(matches!(Geometry::try_new(&buf, &offsets, 2), Err(GeoError::OutOfRange)));
}
