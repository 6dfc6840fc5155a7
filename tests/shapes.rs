use worker_pool::shapes::{build_user, Rectangle};

#[test]
fn area_is_correct() {
    let larger = Rectangle {
        width: 8,
        height: 9,
    };
    let smaller = Rectangle {
        width: 6,
        height: 4,
    };

    assert_eq!(72, larger.area());
    assert_ne!(larger.area(), smaller.area());
}

#[test]
fn larger_can_hold_smaller() {
    let larger = Rectangle {
        width: 8,
        height: 9,
    };
    let smaller = Rectangle {
        width: 6,
        height: 4,
    };

    assert!(larger.can_hold(&smaller), "Wrong implement of can_hold!");
}

#[test]
fn smaller_cannot_hold_larger_or_equal() {
    let a = Rectangle { width: 8, height: 9 };
    let b = Rectangle { width: 6, height: 4 };
    assert!(!b.can_hold(&a));
    assert!(!a.can_hold(&a));
}

#[test]
fn square_has_equal_sides() {
    let sq = Rectangle::square(64);
    assert_eq!(sq, Rectangle { width: 64, height: 64 });
    assert_eq!(sq.area(), 4096);
}

#[test]
fn new_user_is_inactive() {
    let u = build_user(String::from("hehe"), String::from("hehe@ust.hk"));
    assert_eq!(u.username, "hehe");
    assert_eq!(u.email, "hehe@ust.hk");
    assert_eq!(u.sign_in_count, 0);
    assert!(!u.active);
}
