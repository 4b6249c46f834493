use glass::data_types::Rect;

#[test]
fn rect_new_stores_fields() {
    let r = Rect::new(3isize, -4isize, 10isize, 0isize);
    assert_eq!(r.x, 3);
    assert_eq!(r.y, -4);
    assert_eq!(r.width, 10);
    assert_eq!(r.height, 0);
}

#[test]
fn rect_new_is_generic() {
    let r = Rect::new(1u32, 2u32, 3u32, 4u32);
    assert_eq!(r.x, 1);
    assert_eq!(r.width, 3);
}

#[test]
fn clamp_inside_bounds() {
    let r = Rect::new(5isize, 5isize, 10isize, 10isize);
    let o = Rect::new(0isize, 0isize, 8isize, 8isize);
    let c = r.clamp(o);
    assert_eq!(c.x, 5);
    assert_eq!(c.y, 5);
    // width: clamp(min(8 + 0 + 0 - 5, 10 - 5), 0, 8) = 3
    assert_eq!(c.width, 3);
    assert_eq!(c.height, 3);
}

#[test]
fn clamp_far_corner_within() {
    let r = Rect::new(2isize, 2isize, 4isize, 4isize);
    let o = Rect::new(0isize, 0isize, 8isize, 8isize);
    let c = r.clamp(o);
    assert_eq!(c.x, 2);
    assert_eq!(c.y, 2);
    // width: clamp(min(8 + 0 + 0 - 2, 4 - 2), 0, 8) = 2
    assert_eq!(c.width, 2);
    assert_eq!(c.height, 2);
}

#[test]
fn clamp_origin_below_bounds() {
    let r = Rect::new(-3isize, -3isize, 4isize, 4isize);
    let o = Rect::new(0isize, 0isize, 8isize, 8isize);
    let c = r.clamp(o);
    assert_eq!(c.x, 0);
    assert_eq!(c.y, 0);
    // width: clamp(min(8 + 0 + 3, 4 + 3), 0, 8) = 7
    assert_eq!(c.width, 7);
    assert_eq!(c.height, 7);
}

#[test]
fn distance_to_border_low_side() {
    let r = Rect::new(-3isize, 2isize, 4isize, 4isize);
    let o = Rect::new(0isize, 0isize, 8isize, 8isize);
    let (dx, dy) = r.distance_to_border(o);
    assert_eq!(dx, -3);
    assert_eq!(dy, 0);
}

#[test]
fn distance_to_border_high_side() {
    let r = Rect::new(9isize, -1isize, 4isize, 4isize);
    let o = Rect::new(0isize, 0isize, 8isize, 8isize);
    let (dx, dy) = r.distance_to_border(o);
    assert_eq!(dx, 1);
    assert_eq!(dy, -1);
}

#[test]
fn distance_to_border_contained_is_zero() {
    let r = Rect::new(1isize, 1isize, 3isize, 3isize);
    let o = Rect::new(0isize, 0isize, 8isize, 8isize);
    assert_eq!(r.distance_to_border(o), (0, 0));
}

#[test]
fn far_corners() {
    let r = Rect::new(3isize, -4isize, 10isize, 2isize);
    assert_eq!(r.x2(), 13);
    assert_eq!(r.y2(), -2);
}
