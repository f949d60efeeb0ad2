use wlral::geometry::{Point, Rectangle, Size, TDisplacement, TPoint};

fn rect(x: i32, y: i32, width: i32, height: i32) -> Rectangle {
    Rectangle { top_left: Point { x, y }, size: Size { width, height } }
}

#[test]
fn test_rectangle_overlaps() {
    let rect1 = Rectangle { top_left: Point { x: 0, y: 0 }, size: Size { width: 1, height: 1 } };
    let rect2 = Rectangle { top_left: Point { x: 1, y: 1 }, size: Size { width: 1, height: 1 } };
    let rect3 = Rectangle { top_left: Point { x: 0, y: 0 }, size: Size { width: 2, height: 2 } };
    let rect4 = Rectangle { top_left: Point { x: -1, y: -1 }, size: Size { width: 2, height: 2 } };
    let rect_empty =
        Rectangle { top_left: Point { x: 0, y: 0 }, size: Size { width: 0, height: 0 } };

    assert!(!rect_empty.overlaps(&rect_empty));
    assert!(!rect_empty.overlaps(&rect1));
    assert!(!rect_empty.overlaps(&rect4));

    assert!(!rect1.overlaps(&rect2));
    assert!(!rect2.overlaps(&rect1));
    assert!(!rect4.overlaps(&rect2));
    assert!(!rect2.overlaps(&rect4));

    assert!(rect1.overlaps(&rect1));
    assert!(rect4.overlaps(&rect4));

    assert!(rect3.overlaps(&rect1));
    assert!(rect1.overlaps(&rect3));
    assert!(rect3.overlaps(&rect2));
    assert!(rect2.overlaps(&rect3));

    assert!(rect4.overlaps(&rect1));
    assert!(rect1.overlaps(&rect4));
    assert!(rect4.overlaps(&rect3));
    assert!(rect3.overlaps(&rect3));
}

#[test]
fn rectangle_edges_and_center() {
    let r = rect(10, 20, 30, 41);
    assert_eq!(r.left(), 10);
    assert_eq!(r.top(), 20);
    assert_eq!(r.right(), 40);
    assert_eq!(r.bottom(), 61);
    assert_eq!(r.center_x(), 25);
    assert_eq!(r.center_y(), 40);
    assert_eq!(r.bottom_right(), Point { x: 40, y: 61 });
    assert_eq!(r.size(), Size { width: 30, height: 41 });
    assert_eq!(r.top_left(), Point { x: 10, y: 20 });
    // halving rounds toward zero for negative sizes too
    assert_eq!(rect(0, 0, -3, -5).center_x(), -1);
    assert_eq!(rect(0, 0, -3, -5).center_y(), -2);
    assert_eq!(Size { width: -3, height: 7 }.half(), Size { width: -1, height: 3 });
}

#[test]
fn rectangle_contains_is_half_open() {
    let r = rect(0, 0, 10, 10);
    assert!(r.contains(&Point { x: 0, y: 0 }));
    assert!(r.contains(&Point { x: 9, y: 9 }));
    assert!(!r.contains(&Point { x: 10, y: 5 }));
    assert!(!r.contains(&Point { x: 5, y: 10 }));
    assert!(!r.contains(&Point { x: -1, y: 5 }));
    assert!(!rect(0, 0, 0, 0).contains(&Point { x: 0, y: 0 }));
}

#[test]
fn touching_rectangles_do_not_overlap() {
    let a = rect(0, 0, 10, 10);
    let b = rect(10, 0, 10, 10);
    assert!(!a.overlaps(&b));
    assert!(!b.overlaps(&a));
    let c = rect(9, 9, 10, 10);
    assert!(a.overlaps(&c));
    assert!(c.overlaps(&a));
}

#[test]
fn self_overlap_needs_positive_area() {
    assert!(rect(5, 5, 3, 4).overlaps(&rect(5, 5, 3, 4)));
    assert!(!rect(5, 5, 0, 4).overlaps(&rect(5, 5, 0, 4)));
    assert!(!rect(5, 5, 3, 0).overlaps(&rect(5, 5, 3, 0)));
}

#[test]
fn point_size_and_displacement_arithmetic() {
    let p = Point { x: 3, y: -4 };
    let d = TDisplacement { dx: 10, dy: 20 };
    assert_eq!(p.x(), 3);
    assert_eq!(p.y(), -4);
    assert_eq!(p.as_displacement(), TDisplacement { dx: 3, dy: -4 });
    assert_eq!(p.add_displacement(&d), Point { x: 13, y: 16 });
    assert_eq!(p.sub_displacement(&d), Point { x: -7, y: -24 });
    assert_eq!(Point { x: 13, y: 16 }.displacement_from(&p), d);
    assert_eq!(d.delta_x(), 10);
    assert_eq!(d.delta_y(), 20);
    assert_eq!(d.add(&TDisplacement { dx: 1, dy: 2 }), TDisplacement { dx: 11, dy: 22 });
    assert_eq!(d.sub(&TDisplacement { dx: 1, dy: 2 }), TDisplacement { dx: 9, dy: 18 });
    let s = Size { width: 4, height: 6 };
    assert_eq!(s.width(), 4);
    assert_eq!(s.height(), 6);
    assert_eq!(s.with_width(9), Size { width: 9, height: 6 });
    assert_eq!(s.with_height(9), Size { width: 4, height: 9 });
    assert_eq!(s.as_displacement(), TDisplacement { dx: 4, dy: 6 });
    assert_eq!(s.add(&Size { width: 1, height: 1 }), Size { width: 5, height: 7 });
    assert_eq!(s.sub(&Size { width: 1, height: 1 }), Size { width: 3, height: 5 });
    let moved = rect(1, 2, 3, 4).translate(&d);
    assert_eq!(moved, rect(11, 22, 3, 4));
    assert_eq!(TPoint::<i32>::zero(), Point { x: 0, y: 0 });
    assert_eq!(Rectangle::zero(), rect(0, 0, 0, 0));
}

#[test]
fn representability_of_edges() {
    assert!(rect(0, 0, 10, 10).is_representable());
    assert!(!rect(i32::MAX, 0, 1, 10).is_representable());
    assert!(!rect(0, i32::MIN, 10, -1).is_representable());
}
