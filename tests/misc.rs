use worker_pool::basics::{
    calculate_length_with_ref, demo_default_type_parameter, demo_deref, demo_destructing_assignment,
    demo_match, demo_operator_overloading, demo_string_append, demo_string_basics, demo_vectors,
    first_word_without_slice, get_largest, longer_str, Meters, Millimeters, MyBox, Point,
};
use worker_pool::post::{demo_state_pattern, Post};
use worker_pool::restaurant::{eat_at_restaurant, Breakfast};
use worker_pool::sorting::{partition, quick_sort, sort_array};
use worker_pool::summary::{read_more, NewsArticle, Summary, Tweet};

#[test]
fn post_is_shown_once_approved() {
    let mut post = Post::new();
    post.add_text("I ate a salad for lunch today");
    assert_eq!("", post.content());
    post.approve();
    assert_eq!("", post.content());
    post.request_review();
    assert_eq!("", post.content());
    post.approve();
    assert_eq!("I ate a salad for lunch today", post.content());
    post.request_review();
    assert_eq!("I ate a salad for lunch today", post.content());
    let d = Post::default();
    assert_eq!("", d.content());
}

#[test]
fn demos_run() {
    demo_state_pattern();
    eat_at_restaurant();
    demo_operator_overloading();
    demo_default_type_parameter();
    demo_deref();
    demo_string_append();
    demo_string_basics();
    demo_vectors();
    demo_destructing_assignment();
}

#[test]
fn summer_breakfast_keeps_toast() {
    let meal = Breakfast::summer("Rye");
    assert_eq!(meal.toast, "Rye");
}

#[test]
fn summaries() {
    let article = NewsArticle {
        author: String::from("John"),
        headline: String::from("The Sky is Falling!"),
        content: String::from("The sky is not actually falling."),
    };
    assert_eq!(article.summarize(), "(Read more from John...)");
    let tweet = Tweet {
        username: String::from("john"),
        content: String::from("hello, world"),
        reply: false,
        retweet: false,
    };
    assert_eq!(tweet.summarize_author(), "@john");
    assert_eq!(tweet.summarize(), "@john: hello, world");
    assert_eq!(read_more("x"), "(Read more from x...)");
}

#[test]
fn largest_number() {
    assert_eq!(get_largest(vec![19, 89, 64, 100, 30]), 100);
    assert_eq!(get_largest(vec![-3]), -3);
}

#[test]
fn words_and_lengths() {
    assert_eq!(first_word_without_slice(&String::from("hello world")), 5);
    assert_eq!(first_word_without_slice(&String::from("hello")), 5);
    assert_eq!(calculate_length_with_ref(&String::from("héllo")), 6);
    assert_eq!(longer_str("abc", "de"), "abc");
    assert_eq!(longer_str("ab", "de"), "de");
    assert_eq!(demo_match(Some(5)), Some(6));
    assert_eq!(demo_match(None), None);
}

#[test]
fn operators() {
    assert_eq!(
        Point { x: 1, y: 0 }.plus(Point { x: 2, y: 3 }),
        Point { x: 3, y: 3 }
    );
    assert_eq!(Millimeters(1000).plus_meters(Meters(1)), Millimeters(2000));
    assert_eq!(*MyBox::new(5).get(), 5);
}

#[test]
fn quick_sort_sorts_a_range() {
    let mut arr = [5, 3, 9, 1, 1, 7, 2];
    let n = arr.len();
    quick_sort(&mut arr, 0, n - 1);
    assert_eq!(arr, [1, 1, 2, 3, 5, 7, 9]);
    let mut part = [9, 8, 7, 6, 5];
    quick_sort(&mut part, 1, 3);
    assert_eq!(part, [9, 6, 7, 8, 5]);
}

#[test]
fn partition_around_pivot() {
    let mut arr = [4, 8, 1, 6, 3];
    let p = partition(&mut arr, 0, 4, 0);
    assert_eq!(arr[p], 4);
    assert!(arr[..p].iter().all(|&x| x <= 4));
    assert!(arr[p + 1..].iter().all(|&x| x > 4));
}

#[test]
fn sort_array_descending() {
    let mut v = vec![3, 10, -1, 7, 7];
    let r = sort_array(&mut v);
    assert_eq!(r, vec![10, 7, 7, 3, -1]);
    assert_eq!(v, r);
    let mut e: Vec<i32> = vec![];
    assert!(sort_array(&mut e).is_empty());
}
