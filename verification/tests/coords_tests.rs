use mine_rpg::coords::{adjacent, down, left, pos, right, up};

#[test]
fn wrap_roundtrip_interior() {
    assert_eq!(left(right(5, 16), 16), 5);
    assert_eq!(right(left(5, 16), 16), 5);
    assert_eq!(up(down(7, 25), 25), 7);
    assert_eq!(down(up(7, 25), 25), 7);
}

#[test]
fn wrap_roundtrip_edges() {
    assert_eq!(left(0, 16), 15);
    assert_eq!(right(15, 16), 0);
    assert_eq!(up(0, 16), 15);
    assert_eq!(down(15, 16), 0);
    assert_eq!(left(right(15, 16), 16), 15);
    assert_eq!(up(down(15, 16), 16), 15);
}

#[test]
fn pos_is_row_major() {
    assert_eq!(pos(0, 0, 16), 0);
    assert_eq!(pos(3, 2, 16), 35);
    assert_eq!(pos(15, 15, 16), 255);
}

#[test]
fn adjacent_corner_wraps_toroidally() {
    let a = adjacent(0, 0, 16, 16);
    assert_eq!(
        a,
        [
            (15, 15),
            (0, 15),
            (1, 15),
            (15, 0),
            (1, 0),
            (15, 1),
            (0, 1),
            (1, 1),
        ]
    );
}

#[test]
fn adjacent_distinct_when_at_least_three_wide() {
    let a = adjacent(4, 9, 16, 16);
    for i in 0..8 {
        for j in 0..8 {
            if i != j {
                assert_ne!(a[i], a[j]);
            }
        }
    }
}

#[test]
fn adjacent_on_width_two_grid_duplicates() {
    // Boundary case: on a grid only two cells wide, the left and the right
    // neighbor coincide, so the eight entries are not distinct.
    let a = adjacent(0, 0, 2, 2);
    assert_eq!(left(0, 2), right(0, 2));
    assert_eq!(a[0], a[2]);
    assert_eq!(a[3], a[4]);
}
