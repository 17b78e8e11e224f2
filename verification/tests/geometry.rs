use pictura::geometry::{is_overlapping, normalize, Point, Rectangle};

#[test]
fn normalize_is_order_independent() {
    let a = Point { x: 300, y: 250 };
    let b = Point { x: 100, y: 100 };
    let r1 = normalize(a, b);
    let r2 = normalize(b, a);
    assert_eq!(r1, r2);
    assert_eq!(r1.tl, Point { x: 100, y: 100 });
    assert_eq!(r1.br, Point { x: 300, y: 250 });
}

#[test]
fn normalize_handles_mixed_corners() {
    // Bottom-left and top-right corners still yield the canonical rectangle.
    let bl = Point { x: 100, y: 250 };
    let tr = Point { x: 300, y: 100 };
    let r = normalize(bl, tr);
    assert_eq!(r.tl, Point { x: 100, y: 100 });
    assert_eq!(r.br, Point { x: 300, y: 250 });
    assert!(r.tl.x <= r.br.x && r.tl.y <= r.br.y);
}

#[test]
fn normalize_degenerate_selection() {
    let p = Point { x: -7, y: 42 };
    let r = normalize(p, p);
    assert_eq!(r.tl, p);
    assert_eq!(r.br, p);
}

#[test]
fn normalize_negative_coordinates() {
    let a = Point { x: -300, y: 50 };
    let b = Point { x: -100, y: -20 };
    let r = normalize(a, b);
    assert_eq!(r.tl, Point { x: -300, y: -20 });
    assert_eq!(r.br, Point { x: -100, y: 50 });
    assert_eq!(r, normalize(b, a));
}

#[test]
fn into_rectangle_gives_width_height_form() {
    let tl = Point { x: 100, y: 100 };
    let br = Point { x: 300, y: 250 };
    assert_eq!(tl.into_rectangle(&br), (100, 100, 200, 150));
}

#[test]
fn rectangle_forms_are_interconvertible() {
    let r = Rectangle {
        tl: Point { x: -5, y: 10 },
        br: Point { x: 20, y: 11 },
    };
    let parts = r.to_parts();
    assert_eq!(parts, (-5, 10, 25, 1));
    assert_eq!(Rectangle::from_parts(parts), r);
}

#[test]
fn shared_edge_is_not_overlap() {
    // Two rectangles that only share an edge are non-overlapping under the
    // edge-exclusive policy.
    let a = (0, 0, 100, 100);
    let b = (100, 0, 100, 100);
    assert!(!is_overlapping(a, b));
    assert!(!is_overlapping(b, a));
}

#[test]
fn overlap_is_symmetric() {
    let pairs = [
        ((0, 0, 1920, 1080), (1900, 100, 50, 100)),
        ((1920, 0, 1920, 1080), (1900, 100, 50, 100)),
        ((0, 0, 100, 100), (100, 0, 100, 100)),
        ((0, 0, 10, 10), (50, 50, 10, 10)),
        ((3, 4, 7, 9), (5, 5, 7, 20)),
    ];
    for (a, b) in pairs {
        assert_eq!(is_overlapping(a, b), is_overlapping(b, a));
    }
}

#[test]
fn genuine_intersection_overlaps() {
    assert!(is_overlapping((0, 0, 1920, 1080), (1900, 100, 50, 100)));
    assert!(is_overlapping((1920, 0, 1920, 1080), (1900, 100, 50, 100)));
}

#[test]
fn separated_rectangles_do_not_overlap() {
    assert!(!is_overlapping((0, 0, 10, 10), (50, 50, 10, 10)));
    assert!(!is_overlapping((0, 0, 10, 10), (0, 50, 10, 10)));
}

#[test]
fn far_edge_meeting_near_edge_is_not_overlap() {
    // One rectangle's far edge lands exactly on the other's near edge: they
    // only touch along the line x = 10.
    let a = (10, 5, 5, 5);
    let b = (0, 3, 10, 4);
    assert!(!is_overlapping(a, b));
    assert!(!is_overlapping(b, a));
}

#[test]
fn equal_boundary_coordinates_exclude_overlap() {
    // Equal near x edges.
    assert!(!is_overlapping((5, 0, 10, 10), (5, 3, 3, 3)));
    // Equal far y edges.
    assert!(!is_overlapping((0, 0, 10, 10), (2, 2, 3, 8)));
}
