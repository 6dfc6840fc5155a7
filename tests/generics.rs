use worker_pool::generics::{get_two_2, Point};

#[test]
fn get_two_entries() {
    let mut items = [0, 1, 2, 3, 4];
    assert_eq!(get_two_2(&mut items, 1, 2), Some((&mut 1, &mut 2)));
    assert_eq!(get_two_2(&mut items, 0, 4), Some((&mut 0, &mut 4)));
    assert_eq!(get_two_2(&mut items, 4, 0), Some((&mut 4, &mut 0)));
    assert_eq!(get_two_2(&mut items, 4, 6), None);
    assert_eq!(get_two_2(&mut items, 2, 2), None);
    if let Some((a, b)) = get_two_2(&mut items, 3, 1) {
        *a = 30;
        *b = 10;
    }
    assert_eq!(items, [0, 10, 2, 30, 4]);
}

#[test]
fn mixed_points() {
    let p3 = Point { x: 89, y: 64 };
    let p4 = Point { x: "八九", y: "六四" };
    let p5 = p3.mixup(p4);
    assert_eq!(*p5.get_x(), "八九");
    assert_eq!(p5.y, 64);
}

#[test]
fn test_get_two() {
    let mut items = [0, 1, 2, 3, 4];
    assert_eq!(worker_pool::generics::get_two_1(&mut items, 1, 2), Some((&mut 1, &mut 2)));
    assert_eq!(worker_pool::generics::get_two_1(&mut items, 0, 4), Some((&mut 0, &mut 4)));
    // out of order is no good
    assert_eq!(worker_pool::generics::get_two_1(&mut items, 4, 0), None);
    // out of bounds is no good
    assert_eq!(worker_pool::generics::get_two_1(&mut items, 4, 6), None);
}
