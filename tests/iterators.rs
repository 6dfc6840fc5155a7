use worker_pool::iteration::{
    generate_workout_using_closure, shoes_in_my_size, Cache, Counter, Shoe, Workout,
};

#[test]
fn demo_iter_next() {
    let v1 = vec![1, 2, 3];

    let mut v1_iter = v1.iter();
    assert_eq!(v1_iter.next(), Some(&1));
    assert_eq!(v1_iter.next(), Some(&2));
    assert_eq!(v1_iter.next(), Some(&3));
    assert_eq!(v1_iter.next(), None);

    let mut v1_iter = v1.into_iter();
    assert_eq!(v1_iter.next(), Some(1));
    assert_eq!(v1_iter.next(), Some(2));
    assert_eq!(v1_iter.next(), Some(3));
    assert_eq!(v1_iter.next(), None);
}

#[test]
fn demo_consuming_adaptor() {
    let v1 = vec![1, 2, 3];
    let v1_iter = v1.iter();
    assert_eq!(v1_iter.sum::<i32>(), 6);
}

#[test]
fn demo_adaptor() {
    let v1 = vec![1, 2, 3];
    let v2: Vec<_> = v1.iter().map(|x| x + 1).collect();
    assert_eq!(v2, vec![2, 3, 4]);
}

#[test]
fn filters_by_size() {
    let shoes = vec![
        Shoe {
            size: 39,
            style: String::from("sneaker"),
        },
        Shoe {
            size: 42,
            style: String::from("sandal"),
        },
        Shoe {
            size: 43,
            style: String::from("boot"),
        },
    ];

    let in_my_size = shoes_in_my_size(shoes, 43);
    assert_eq!(
        in_my_size,
        vec![Shoe {
            size: 43,
            style: String::from("boot"),
        }]
    );
}

#[test]
fn demo_our_own_iterator() {
    let mut counter = Counter::new();

    assert_eq!(counter.next(), Some(1));
    assert_eq!(counter.next(), Some(2));
    assert_eq!(counter.next(), Some(3));
    assert_eq!(counter.next(), Some(4));
    assert_eq!(counter.next(), Some(5));
    assert_eq!(counter.next(), None);
}

#[test]
fn using_other_iterator_trait_methods() {
    assert_eq!(
        18,
        Counter::new()
            .values()
            .into_iter()
            .zip(Counter::new().values().into_iter().skip(1))
            .map(|(a, b)| a * b)
            .filter(|x| x % 3 == 0)
            .sum::<u32>()
    );
}

#[test]
fn counter_values_after_two_steps() {
    let mut c = Counter::new();
    c.next();
    c.next();
    assert_eq!(c.values(), vec![3, 4, 5]);
}

#[test]
fn cache_runs_calculation_once() {
    let mut cache = Cache::new(|n: u32| n * 2);
    assert_eq!(cache.value(21), 42);
    assert_eq!(cache.value(5), 42);
}

#[test]
fn workout_plans() {
    assert_eq!(
        generate_workout_using_closure(10, 8, |n: u32| n),
        Workout::Strength {
            pushups: 10,
            situps: 10
        }
    );
    assert_eq!(generate_workout_using_closure(30, 3, |n: u32| n), Workout::Rest);
    assert_eq!(
        generate_workout_using_closure(30, 7, |n: u32| n + 1),
        Workout::Run { minutes: 31 }
    );
}
