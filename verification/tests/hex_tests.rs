use rgj_core::hex::{hex_distance, hex_line, AxialCoordinates};

fn ax(q: u16, r: u16) -> AxialCoordinates {
    AxialCoordinates::new(q, r)
}

fn adjacent_or_equal(a: AxialCoordinates, b: AxialCoordinates) -> bool {
    let dq = b.column_q as i32 - a.column_q as i32;
    let dr = b.row_r as i32 - a.row_r as i32;
    matches!(
        (dq, dr),
        (0, 0) | (1, 0) | (-1, 0) | (0, 1) | (0, -1) | (1, -1) | (-1, 1)
    )
}

#[test]
fn new_stores_coordinates() {
    let c = AxialCoordinates::new(3, 9);
    assert_eq!(c.column_q, 3);
    assert_eq!(c.row_r, 9);
}

#[test]
fn distance_to_self_is_zero() {
    assert_eq!(hex_distance(ax(5, 5), ax(5, 5)), 0);
}

#[test]
fn distance_formula_values() {
    // |dq| + |dq + dr| + |dr| / 2
    assert_eq!(hex_distance(ax(0, 0), ax(1, 0)), 2);
    assert_eq!(hex_distance(ax(0, 0), ax(0, 1)), 1);
    assert_eq!(hex_distance(ax(0, 0), ax(2, 1)), 5);
    assert_eq!(hex_distance(ax(5, 5), ax(7, 5)), 4);
    assert_eq!(hex_distance(ax(7, 5), ax(5, 5)), 4);
    assert_eq!(hex_distance(ax(3, 4), ax(1, 6)), 3);
}

#[test]
fn line_has_distance_plus_one_points() {
    for (a, b) in [
        (ax(0, 0), ax(3, 0)),
        (ax(5, 5), ax(7, 5)),
        (ax(2, 9), ax(2, 1)),
        (ax(4, 4), ax(4, 4)),
        (ax(9, 0), ax(0, 9)),
    ] {
        let line = hex_line(a, b);
        assert_eq!(line.len() as u32, hex_distance(a, b) + 1);
        assert_eq!(line[0], a);
        assert_eq!(*line.last().unwrap(), b);
    }
}

#[test]
fn line_steps_are_adjacent_when_deltas_oppose() {
    // Deltas with opposite signs (or one zero) keep every consecutive
    // pair hex-adjacent or equal.
    for (a, b) in [(ax(0, 0), ax(4, 0)), (ax(3, 3), ax(3, 8)), (ax(9, 0), ax(0, 9))] {
        let line = hex_line(a, b);
        for w in line.windows(2) {
            assert!(adjacent_or_equal(w[0], w[1]), "{:?} -> {:?}", w[0], w[1]);
        }
    }
}

#[test]
fn line_steps_never_exceed_one_per_axis() {
    for (a, b) in [(ax(0, 0), ax(1, 1)), (ax(2, 2), ax(7, 9)), (ax(8, 1), ax(1, 8))] {
        let line = hex_line(a, b);
        for w in line.windows(2) {
            let dq = (w[1].column_q as i32 - w[0].column_q as i32).abs();
            let dr = (w[1].row_r as i32 - w[0].row_r as i32).abs();
            assert!(dq <= 1 && dr <= 1);
        }
    }
}

#[test]
fn line_between_equal_points_is_single_point() {
    let line = hex_line(ax(6, 2), ax(6, 2));
    assert_eq!(line, vec![ax(6, 2)]);
}
