use worker_pool::grep::{contain_substring, count_substring, search, search_case_insensitive, Config};

#[test]
fn case_sensitive() {
    let query = "duct";
    let contents = "\
Rust:
safe, fast, productive.
Pick three.
Duct tape.";

    assert_eq!(vec!["safe, fast, productive."], search(query, contents));
}

#[test]
fn case_insensitive() {
    let query = "rUsT";
    let contents = "\
Rust:
safe, fast, productive.
Pick three.
Trust me.";

    assert_eq!(
        vec!["Rust:", "Trust me."],
        search_case_insensitive(query, contents)
    );
}

#[test]
fn search_handles_crlf_and_no_match() {
    assert_eq!(search("a", "ab\r\ncd\r\nba"), vec!["ab", "ba"]);
    assert!(search("zz", "ab\ncd").is_empty());
    assert!(search("a", "").is_empty());
}

#[test]
fn config_needs_two_arguments() {
    let none = vec![String::from("minigrep")];
    assert!(matches!(Config::new(none, true), Err("No query provided!")));
    let one = vec![String::from("minigrep"), String::from("to")];
    assert!(matches!(Config::new(one, true), Err("No filename provided!")));
    let two = vec![
        String::from("minigrep"),
        String::from("to"),
        String::from("poem.txt"),
    ];
    let c = Config::new(two, false).unwrap();
    assert_eq!(c.query, "to");
    assert_eq!(c.filename, "poem.txt");
    assert!(!c.case_sensitive);
}

#[test]
fn substrings_ignoring_case() {
    assert!(contain_substring("Hello World", "WORLD"));
    assert!(!contain_substring("Hello", "planet"));
    assert_eq!(count_substring("Banana BANANA", "ana"), 2);
    assert_eq!(count_substring("aaaa", "AA"), 2);
}

#[test]
fn filter_given_lines() {
    let lines = vec!["alpha", "beta", "gamma", "delta"];
    assert_eq!(
        worker_pool::grep::lines_containing(&lines, "ta"),
        vec!["beta", "delta"]
    );
}
