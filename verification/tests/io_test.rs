use rust_3d::decimal::parse_decimal;
use rust_3d::decimal::DecPoint3D;
use rust_3d::decimal::Decimal;
use rust_3d::point_3d::Point3D;
use rust_3d::result::ErrorKind;
use rust_3d::result::PlyError;
use rust_3d::result::ToErrorKind;
use rust_3d::stl::is_ascii;
use rust_3d::stl::load_stl_mesh_duped;
use rust_3d::stl::load_stl_triplets;
use rust_3d::stl::DataReserve;
use rust_3d::stl::StlAsciiIterator;
use rust_3d::stl::StlBinaryIterator;
use rust_3d::stl::StlError;
use rust_3d::stl::StlFormat;
use rust_3d::stl::StlIterator;
use rust_3d::stl::StlPoint;
use rust_3d::xyz::load_xyz;
use rust_3d::xyz::save_xyz;
use rust_3d::xyz::XyzError;

fn dec(neg: bool, mant: u64, exp: i32) -> Decimal {
    Decimal { neg, mant, exp }
}

#[test]
fn parse_decimal_plain_and_fractional() {
    assert_eq!(parse_decimal(b"0"), Some(dec(false, 0, 0)));
    assert_eq!(parse_decimal(b"42"), Some(dec(false, 42, 0)));
    assert_eq!(parse_decimal(b"-7"), Some(dec(true, 7, 0)));
    assert_eq!(parse_decimal(b"+7"), Some(dec(false, 7, 0)));
    assert_eq!(parse_decimal(b"1.5"), Some(dec(false, 15, -1)));
    assert_eq!(parse_decimal(b"-3.25"), Some(dec(true, 325, -2)));
    assert_eq!(parse_decimal(b"2."), Some(dec(false, 2, 0)));
    assert_eq!(parse_decimal(b".5"), Some(dec(false, 5, -1)));
}

#[test]
fn parse_decimal_exponents() {
    assert_eq!(parse_decimal(b"1e3"), Some(dec(false, 1, 3)));
    assert_eq!(parse_decimal(b"1.5e2"), Some(dec(false, 15, 1)));
    assert_eq!(parse_decimal(b"-2E-4"), Some(dec(true, 2, -4)));
    assert_eq!(parse_decimal(b"1e+2"), Some(dec(false, 1, 2)));
    assert_eq!(parse_decimal(b"1e400"), Some(dec(false, 1, 400)));
}

#[test]
fn parse_decimal_rejects_bad_literals() {
    assert_eq!(parse_decimal(b""), None);
    assert_eq!(parse_decimal(b"."), None);
    assert_eq!(parse_decimal(b"-"), None);
    assert_eq!(parse_decimal(b"abc"), None);
    assert_eq!(parse_decimal(b"1.5x"), None);
    assert_eq!(parse_decimal(b"1e"), None);
    assert_eq!(parse_decimal(b"1e-"), None);
    assert_eq!(parse_decimal(b"1 2"), None);
    // an exponent beyond i32 is refused
    assert_eq!(parse_decimal(b"1e3000000000"), None);
}

#[test]
fn parse_decimal_truncates_long_mantissas() {
    // twenty-one digits: the last one no longer fits a u64 mantissa
    let d = parse_decimal(b"111111111111111111100").unwrap();
    assert_eq!(d.mant, 11111111111111111110);
    assert_eq!(d.exp, 1);
}

#[test]
fn load_xyz_space_delimited() {
    let pts = load_xyz(b"1.5 2 3\n4 5.25 6\n").unwrap();
    assert_eq!(pts.len(), 2);
    assert_eq!(
        pts[0],
        DecPoint3D { x: dec(false, 15, -1), y: dec(false, 2, 0), z: dec(false, 3, 0) }
    );
    assert_eq!(
        pts[1],
        DecPoint3D { x: dec(false, 4, 0), y: dec(false, 525, -2), z: dec(false, 6, 0) }
    );
}

#[test]
fn load_xyz_semicolon_delimited_and_no_trailing_newline() {
    let pts = load_xyz(b"1;2;3\n-4;5;6").unwrap();
    assert_eq!(pts.len(), 2);
    assert_eq!(
        pts[1],
        DecPoint3D { x: dec(true, 4, 0), y: dec(false, 5, 0), z: dec(false, 6, 0) }
    );
}

#[test]
fn load_xyz_empty_input_is_ok_and_empty() {
    assert_eq!(load_xyz(b"").unwrap().len(), 0);
}

#[test]
fn load_xyz_reports_first_bad_line() {
    let r = load_xyz(b"1 2 3\n4 x 6\n");
    assert!(matches!(r, Err(XyzError::LineParse(2))));
    let r = load_xyz(b"1 2\n");
    assert!(matches!(r, Err(XyzError::LineParse(1))));
}

#[test]
fn save_xyz_writes_plain_integer_lines() {
    let pts = vec![Point3D::new(1, 2, 3), Point3D::new(-4, 5, 6)];
    let out = save_xyz(&pts, b" ", b"\n");
    assert_eq!(out, b"1 2 3\n-4 5 6\n".to_vec());
}

#[test]
fn save_then_load_xyz_round_trips_integer_points() {
    let pts = vec![
        Point3D::new(10, -20, 30),
        Point3D::new(0, 7, i64::MIN),
    ];
    let out = save_xyz(&pts, b";", b"\n");
    let back = load_xyz(&out).unwrap();
    assert_eq!(back.len(), pts.len());
    assert_eq!(back[0].x, dec(false, 10, 0));
    assert_eq!(back[0].y, dec(true, 20, 0));
    assert_eq!(back[1].z, dec(true, 9223372036854775808, 0));
}

#[test]
fn is_ascii_detects_keyword_and_respects_override() {
    assert_eq!(is_ascii(b"solid thing\n", StlFormat::Auto), Ok(true));
    assert_eq!(is_ascii(b"random bytes", StlFormat::Auto), Ok(false));
    assert_eq!(is_ascii(b"random bytes", StlFormat::Ascii), Ok(true));
    assert_eq!(is_ascii(b"solid thing\n", StlFormat::Binary), Ok(false));
    assert_eq!(is_ascii(b"so", StlFormat::Auto), Err(StlError::AccessFile));
}

const ASCII_STL: &[u8] = b"solid example\n\
facet normal 0 0 1\n\
    outer loop\n\
        vertex 0 0 0\n\
        vertex 1 0 0\n\
        vertex 0 1.5 0\n\
    endloop\n\
endfacet\n\
endsolid example\n";

#[test]
fn ascii_stl_iterator_reads_one_facet() {
    let mut it = StlAsciiIterator::new(ASCII_STL.to_vec());
    let face = match it.next() {
        Some(Ok(DataReserve::Data(f))) => f,
        other => panic!("unexpected item: {:?}", other),
    };
    assert_eq!(face.a, DecPoint3D { x: dec(false, 0, 0), y: dec(false, 0, 0), z: dec(false, 0, 0) });
    assert_eq!(face.b, DecPoint3D { x: dec(false, 1, 0), y: dec(false, 0, 0), z: dec(false, 0, 0) });
    assert_eq!(
        face.c,
        DecPoint3D { x: dec(false, 0, 0), y: dec(false, 15, -1), z: dec(false, 0, 0) }
    );
    assert_eq!(face.n, DecPoint3D { x: dec(false, 0, 0), y: dec(false, 0, 0), z: dec(false, 1, 0) });
    assert!(it.next().is_none());
}

#[test]
fn ascii_stl_bad_facet_line_reports_error() {
    let text = b"solid x\nnot a facet\n".to_vec();
    let mut it = StlAsciiIterator::new(text);
    assert!(matches!(it.next(), Some(Err(StlError::Facet))));
}

#[test]
fn ascii_stl_bad_vertex_reports_error() {
    let text = b"solid x\nfacet normal 0 0 1\nouter loop\nvertex a b c\n".to_vec();
    let mut it = StlAsciiIterator::new(text);
    assert!(matches!(it.next(), Some(Err(StlError::Vertex))));
}

fn binary_stl_two_faces() -> Vec<u8> {
    let mut data = vec![0u8; 80];
    data.extend_from_slice(&2u32.to_le_bytes());
    for k in 0..2u32 {
        // normal, then three corners, each three little-endian f32 words
        for f in [
            0.0f32,
            0.0,
            1.0,
            k as f32,
            0.0,
            0.0,
            k as f32 + 1.0,
            0.0,
            0.0,
            k as f32,
            1.0,
            0.0,
        ] {
            data.extend_from_slice(&f.to_bits().to_le_bytes());
        }
        data.extend_from_slice(&[0u8; 2]);
    }
    data
}

#[test]
fn binary_stl_iterator_reads_count_then_faces() {
    let mut it = StlBinaryIterator::new(binary_stl_two_faces());
    assert!(matches!(it.next(), Some(Ok(DataReserve::Reserve(2)))));
    let f0 = match it.next() {
        Some(Ok(DataReserve::Data(f))) => f,
        other => panic!("unexpected item: {:?}", other),
    };
    assert_eq!(f0.n.z, 1.0f32.to_bits());
    assert_eq!(f0.a.x, 0.0f32.to_bits());
    assert_eq!(f0.b.x, 1.0f32.to_bits());
    assert_eq!(f0.c.y, 1.0f32.to_bits());
    let f1 = match it.next() {
        Some(Ok(DataReserve::Data(f))) => f,
        other => panic!("unexpected item: {:?}", other),
    };
    assert_eq!(f1.a.x, 1.0f32.to_bits());
    assert_eq!(f1.b.x, 2.0f32.to_bits());
    assert!(it.next().is_none());
}

#[test]
fn binary_stl_truncated_data_reports_error() {
    let mut data = binary_stl_two_faces();
    data.truncate(100);
    let mut it = StlBinaryIterator::new(data);
    assert!(matches!(it.next(), Some(Ok(DataReserve::Reserve(2)))));
    assert!(matches!(it.next(), Some(Err(StlError::AccessFile))));
}

#[test]
fn binary_stl_short_header_reports_error() {
    let mut it = StlBinaryIterator::new(vec![0u8; 10]);
    assert!(matches!(it.next(), Some(Err(StlError::AccessFile))));
}

#[test]
fn stl_iterator_auto_detects_ascii() {
    let mut it = StlIterator::new(ASCII_STL.to_vec(), StlFormat::Auto).unwrap();
    match it.next() {
        Some(Ok(DataReserve::Data(f))) => match f.a {
            StlPoint::Text(_) => {}
            other => panic!("expected text vertices, got {:?}", other),
        },
        other => panic!("unexpected item: {:?}", other),
    }
}

#[test]
fn load_stl_triplets_ascii() {
    let (points, normals) = load_stl_triplets(ASCII_STL.to_vec(), StlFormat::Auto).unwrap();
    assert_eq!(points.len(), 3);
    assert_eq!(normals.len(), 1);
    assert_eq!(
        points[1],
        StlPoint::Text(DecPoint3D {
            x: dec(false, 1, 0),
            y: dec(false, 0, 0),
            z: dec(false, 0, 0)
        })
    );
}

#[test]
fn load_stl_triplets_binary() {
    let (points, normals) =
        load_stl_triplets(binary_stl_two_faces(), StlFormat::Auto).unwrap();
    assert_eq!(points.len(), 6);
    assert_eq!(normals.len(), 2);
    match points[0] {
        StlPoint::Bits(v) => assert_eq!(v.x, 0.0f32.to_bits()),
        other => panic!("expected bit vertices, got {:?}", other),
    }
}

#[test]
fn load_stl_mesh_duped_builds_one_face_per_facet() {
    let (vertices, faces, normals) =
        load_stl_mesh_duped(binary_stl_two_faces(), StlFormat::Auto).unwrap();
    assert_eq!(vertices.len(), 6);
    assert_eq!(normals.len(), 2);
    assert_eq!(faces, vec![(0, 1, 2), (3, 4, 5)]);
}

#[test]
fn binary_stl_oversized_face_count_is_rejected() {
    let mut data = vec![0u8; 80];
    data.extend_from_slice(&2_000_000_000u32.to_le_bytes());
    let mut it = StlBinaryIterator::new(data);
    assert!(matches!(it.next(), Some(Err(StlError::InvalidFaceCount))));
}

#[test]
fn ascii_stl_missing_outer_loop_reports_error() {
    let text = b"solid x\nfacet normal 0 0 1\nnot a loop\n".to_vec();
    let mut it = StlAsciiIterator::new(text);
    assert!(matches!(it.next(), Some(Err(StlError::Loop))));
}

#[test]
fn error_kind_readable_text() {
    assert_eq!(
        ErrorKind::MinMaxSwapped.as_str(),
        "Passed min/max values are swapped (min > max)"
    );
    assert_eq!(ErrorKind::BoundingBoxMissing.as_str(), "Bounding box is missing for the operation");
    assert_eq!(
        ErrorKind::PlyError(PlyError::LoadError).as_str(),
        "Error while loading .ply"
    );
    assert_eq!(PlyError::LoadHeaderEndNotFound.as_str(), "End of header definition of .ply not found");
}

#[test]
fn ply_error_converts_to_error_kind() {
    let e = PlyError::LoadFormatNotFound;
    assert_eq!(e.to_error_kind(), ErrorKind::PlyError(PlyError::LoadFormatNotFound));
}
