use geocolumn::buffer::{CoordBuffer, CoordBufferBuilder};
use geocolumn::error::GeoError;
use geocolumn::geometry::Coord;
use geocolumn::offsets::check_offsets;

fn c(x: f64, y: f64) -> Coord {
    Coord::new(x.to_bits(), y.to_bits())
}

#[test]
fn test_coord_buffer() {
    let c0 = c(0.0, 1.0);
    let c1 = c(1.0, 2.0);
    let c2 = c(2.0, 3.0);
    let buffer: CoordBuffer = CoordBuffer::from_coords(&vec![c0, c1, c2]);

    assert_eq!(buffer.x(1), Some(c1.x));
    assert_eq!(buffer.y(2), Some(c2.y));

    let sliced_buffer = buffer.slice(0, 2).unwrap();

    assert_eq!(sliced_buffer.x(0), Some(c0.x));
    assert_eq!(sliced_buffer.y(0), Some(c0.y));
    assert_eq!(sliced_buffer.x(1), Some(c1.x));
    assert_eq!(sliced_buffer.y(1), Some(c1.y));
}

#[test]
fn coord_buffer_rejects_odd_length() {
    assert_eq!(CoordBuffer::try_new(vec![1, 2, 3]).err(), Some(GeoError::MalformedBuffer));
    assert_eq!(CoordBuffer::try_new(vec![]).unwrap().len(), 0);
}

#[test]
fn coord_reads_past_end_are_none() {
    let b = CoordBuffer::from_coords(&vec![c(1.0, 2.0)]);
    assert_eq!(b.len(), 1);
    assert_eq!(b.x(1), None);
    assert_eq!(b.y(1), None);
    assert_eq!(b.x(usize::MAX), None);
}

#[test]
fn slice_bounds() {
    let b = CoordBuffer::from_coords(&vec![c(0., 0.), c(1., 1.), c(2., 2.)]);
    let mid = b.slice(1, 2).unwrap();
    assert_eq!(mid.len(), 2);
    assert_eq!(mid.x(0), Some(1.0f64.to_bits()));
    assert_eq!(mid.y(1), Some(2.0f64.to_bits()));
    assert_eq!(b.slice(2, 2).err(), Some(GeoError::MalformedBuffer));
    assert_eq!(b.slice(usize::MAX, 2).err(), Some(GeoError::MalformedBuffer));
    assert_eq!(b.slice(3, 0).unwrap().len(), 0);
}

#[test]
fn slice_prefix_matches_source() {
    let pts: Vec<Coord> = (0..6).map(|i| c(i as f64, (i * 10) as f64)).collect();
    let b = CoordBuffer::from_coords(&pts);
    for k in 0..=6usize {
        let s = b.slice(0, k).unwrap();
        assert_eq!(s.len(), k);
        for i in 0..k {
            assert_eq!(s.x(i), b.x(i));
            assert_eq!(s.y(i), b.y(i));
        }
    }
}

#[test]
fn builder_pushes_in_order() {
    let mut b = CoordBufferBuilder::new(2);
    b.push_xy(5, 6);
    b.push_geo_coord(&Coord::new(7, 8));
    assert_eq!(b.len(), 2);
    let buf = b.build();
    assert_eq!(buf.x(0), Some(5));
    assert_eq!(buf.y(1), Some(8));
    assert_eq!(buf.coord(1), Coord::new(7, 8));
}

#[test]
fn offsets_checks() {
    assert!(check_offsets(&vec![0, 1, 1, 3], 3));
    assert!(!check_offsets(&vec![0, 2, 1, 3], 3));
    assert!(!check_offsets(&vec![0, 1, 2], 3));
    assert!(!check_offsets(&vec![], 0));
    assert!(check_offsets(&vec![0], 0));
}
