use pendulum::obj::{parse_obj, ObjErrorKind, ObjText};

fn floats(words: &[String]) -> [f32; 3] {
    let v: Vec<f32> = words.iter().map(|w| w.parse::<f32>().unwrap()).collect();
    [v[0], v[1], v[2]]
}

/// The (position, normal) pairs of the vertices, as coordinates.
fn vertex_coords(t: &ObjText) -> Vec<([f32; 3], [f32; 3])> {
    t.vertices
        .iter()
        .map(|&(p, n)| (floats(&t.positions[p].words), floats(&t.normals[n].words)))
        .collect()
}

fn error_of(data: &str) -> (usize, ObjErrorKind, String, Vec<String>) {
    let e = parse_obj(data).error.expect("an error");
    (e.line, e.kind, e.item, e.words)
}

#[test]
fn test_parse_obj() {
    let data = r#"# Test data
v 1 2 3
v 2 3 4
v 4 5 6
vn 0 1 2
vn 3 2 1
f 1//1 2//1 3//1
f 2//1 3//2 1//1
"#;
    let t = parse_obj(data);
    assert!(t.error.is_none());
    assert_eq!(
        vertex_coords(&t),
        vec![
            ([1.0, 2.0, 3.0], [0.0, 1.0, 2.0]),
            ([2.0, 3.0, 4.0], [0.0, 1.0, 2.0]),
            ([4.0, 5.0, 6.0], [0.0, 1.0, 2.0]),
            ([4.0, 5.0, 6.0], [3.0, 2.0, 1.0]),
        ],
    );
    assert_eq!(t.elements, vec![0, 1, 2, 1, 3, 0]);
}

#[test]
fn coordinates_keep_their_lines_and_words() {
    let t = parse_obj("v 1 2 3\n\nvn -0.5 1e3 +2 extra\r\nv 7 8 9");
    assert_eq!(t.positions.len(), 2);
    assert_eq!(t.positions[0].line, 0);
    assert_eq!(t.positions[0].words, vec!["1", "2", "3"]);
    assert_eq!(t.positions[1].line, 3);
    assert_eq!(t.normals.len(), 1);
    assert_eq!(t.normals[0].line, 2);
    assert_eq!(t.normals[0].words, vec!["-0.5", "1e3", "+2"]);
    assert!(t.vertices.is_empty());
    assert!(t.error.is_none());
}

#[test]
fn comments_and_blank_lines_are_skipped() {
    let t = parse_obj("#v 1 2\n   \n\t\n# f 1 2 3\n");
    assert!(t.positions.is_empty() && t.normals.is_empty() && t.elements.is_empty());
    assert!(t.error.is_none());
    assert!(parse_obj("").error.is_none());
}

#[test]
fn texture_piece_is_skipped() {
    let t = parse_obj("v 0 0 0\nv 1 0 0\nvn 0 0 1\nf 1/9/1 2/8/1 +1/7/1");
    assert!(t.error.is_none());
    assert_eq!(t.vertices, vec![(0, 0), (1, 0)]);
    assert_eq!(t.elements, vec![0, 1, 0]);
}

#[test]
fn missing_coordinate() {
    assert_eq!(
        error_of("v 1 2 3\nv 1 2"),
        (1, ObjErrorKind::NoValue, "v".to_string(), vec!["1".to_string(), "2".to_string()])
    );
    assert_eq!(error_of("vn"), (0, ObjErrorKind::NoValue, "vn".to_string(), vec![]));
}

#[test]
fn missing_normal_index() {
    assert_eq!(
        error_of("v 0 0 0\nvn 0 0 1\nf 1 1 1"),
        (2, ObjErrorKind::NoValue, "face n".to_string(), vec![])
    );
    assert_eq!(
        error_of("v 0 0 0\nvn 0 0 1\nf 1/1 1//1 1//1"),
        (2, ObjErrorKind::NoValue, "face n".to_string(), vec![])
    );
}

#[test]
fn bad_indices() {
    assert_eq!(
        error_of("f x//1 1//1 1//1"),
        (0, ObjErrorKind::BadIndex, "face v".to_string(), vec!["x".to_string()])
    );
    assert_eq!(
        error_of("f //1 1//1 1//1"),
        (0, ObjErrorKind::BadIndex, "face v".to_string(), vec!["".to_string()])
    );
    assert_eq!(
        error_of("v 0 0 0\nf 1//-1 1//1 1//1"),
        (1, ObjErrorKind::BadIndex, "face n".to_string(), vec!["-1".to_string()])
    );
}

#[test]
fn faces_must_be_triangles() {
    assert_eq!(error_of("f 1//1 2//1"), (0, ObjErrorKind::NotTriangle, String::new(), vec![]));
    assert_eq!(
        error_of("v 0 0 0\n f 1//1 1//1 1//1 1//1"),
        (1, ObjErrorKind::NotTriangle, String::new(), vec![])
    );
}

#[test]
fn unknown_statement_type() {
    assert_eq!(
        error_of("v 0 0 0\nvt 0 0\nf 1 2 3"),
        (1, ObjErrorKind::UnsupportedType, "vt".to_string(), vec![])
    );
}

#[test]
fn face_needs_data_read_before_it() {
    assert_eq!(
        error_of("vn 0 0 1\nf 1//1 1//1 1//1\nv 0 0 0"),
        (1, ObjErrorKind::MissingVertexData, String::new(), vec![])
    );
    assert_eq!(
        error_of("v 0 0 0\nvn 0 0 1\nf 0//1 1//1 1//1"),
        (2, ObjErrorKind::MissingVertexData, String::new(), vec![])
    );
}

#[test]
fn reading_stops_at_first_error() {
    let t = parse_obj("v 1 1 1\nq\nv 2 2 2\nz");
    assert_eq!(t.positions.len(), 1);
    let e = t.error.unwrap();
    assert_eq!((e.line, e.kind, e.item), (1, ObjErrorKind::UnsupportedType, "q".to_string()));
}

#[test]
fn repeated_corners_share_a_vertex() {
    let t = parse_obj("v 0 0 0\nv 1 0 0\nv 0 1 0\nvn 0 0 1\nvn 0 0 -1\nf 1//1 2//1 3//1\nf 3//2 2//2 1//2\nf 2//1 3//1 1//1");
    assert!(t.error.is_none());
    assert_eq!(t.vertices, vec![(0, 0), (1, 0), (2, 0), (2, 1), (1, 1), (0, 1)]);
    assert_eq!(t.elements, vec![0, 1, 2, 3, 4, 5, 1, 2, 0]);
}
