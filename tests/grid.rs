use pendulum::grid::{make_grid, GridPoint};

fn p(i0: u32, i1: u32, color: u8) -> GridPoint {
    GridPoint { i0, i1, color }
}

#[test]
fn single_cell() {
    let (points, elements) = make_grid(1, 1);
    assert_eq!(points, vec![p(0, 0, 0), p(1, 0, 0), p(0, 1, 0), p(1, 1, 0)]);
    assert_eq!(elements, vec![0, 1, 2, 1, 3, 2]);
}

#[test]
fn neighbouring_cells_alternate_colours() {
    let (points, elements) = make_grid(1, 2);
    assert_eq!(
        points,
        vec![
            p(0, 0, 0),
            p(1, 0, 0),
            p(0, 1, 0),
            p(1, 1, 0),
            p(0, 1, 1),
            p(1, 1, 1),
            p(0, 2, 1),
            p(1, 2, 1),
        ]
    );
    assert_eq!(elements, vec![0, 1, 2, 1, 3, 2, 4, 5, 6, 5, 7, 6]);
}

#[test]
fn corners_of_one_colour_are_shared() {
    let (points, elements) = make_grid(2, 2);
    assert_eq!(points.len(), 12);
    assert_eq!(&elements[12..], &[1, 8, 3, 8, 9, 3, 5, 10, 7, 10, 11, 7]);
    assert_eq!(points[8], p(2, 0, 0));
    assert_eq!(points[11], p(2, 2, 1));
}

#[test]
fn empty_grid() {
    let (points, elements) = make_grid(0, 7);
    assert!(points.is_empty());
    assert!(elements.is_empty());
}

#[test]
fn floor_sized_grid() {
    let (points, elements) = make_grid(51, 51);
    assert_eq!(elements.len(), 6 * 51 * 51);
    assert!(elements.iter().all(|&e| (e as usize) < points.len()));
    // every element names the corner it stands for
    for (m, &e) in elements.iter().enumerate() {
        let cell = m / 6;
        let (i0, i1) = ((cell / 51) as u32, (cell % 51) as u32);
        let (k0, k1) = [(0, 0), (1, 0), (0, 1), (1, 0), (1, 1), (0, 1)][m % 6];
        assert_eq!(points[e as usize], p(i0 + k0, i1 + k1, (cell % 2) as u8));
    }
}
