use minigrep::search;
use minigrep::search_case_insensitive;

#[test]
fn case_sensitive() {
    let query = "duct";
    let contents = "\
Rust:
safe, fast, productive.
Pick three.";

    assert_eq!(vec!["safe, fast, productive."], search(query, contents));
}

#[test]
fn case_insensitive() {
    let query = "rUsT";
    let contents = "\
Rust:
safe, fast, productive.
Pick three.
Trust me.";

    assert_eq!(vec!["Rust:", "Trust me."], search_case_insensitive(query, contents));
}

#[test]
fn empty_query_returns_every_line() {
    let contents = "Rust:\nsafe, fast, productive.\nPick three.";
    assert_eq!(
        vec!["Rust:", "safe, fast, productive.", "Pick three."],
        search("", contents)
    );
}

#[test]
fn empty_contents_yield_no_lines() {
    assert_eq!(Vec::<&str>::new(), search("anything", ""));
    assert_eq!(Vec::<&str>::new(), search("", ""));
}

#[test]
fn query_longer_than_line_never_matches() {
    assert_eq!(Vec::<&str>::new(), search("abcdef", "abc\nab"));
}

#[test]
fn no_match_is_not_an_error() {
    assert_eq!(Vec::<&str>::new(), search("zebra", "Rust:\nPick three."));
}

#[test]
fn results_keep_file_order() {
    let contents = "one apple\ntwo pears\napple pie\nnothing\napple cart";
    assert_eq!(
        vec!["one apple", "apple pie", "apple cart"],
        search("apple", contents)
    );
}

#[test]
fn search_is_idempotent() {
    let query = "st";
    let contents = "Rust:\nsafe, fast, productive.\nPick three.\nTrust me.";
    assert_eq!(search(query, contents), search(query, contents));
    assert_eq!(
        search_case_insensitive(query, contents),
        search_case_insensitive(query, contents)
    );
}

#[test]
fn insensitive_finds_at_least_as_much() {
    let query = "rust";
    let contents = "Rust:\nrust is great\nTrust me.\nnothing here";
    let exact = search(query, contents);
    let folded = search_case_insensitive(query, contents);
    assert!(folded.len() >= exact.len());
    assert_eq!(vec!["rust is great", "Trust me."], exact);
    assert_eq!(vec!["Rust:", "rust is great", "Trust me."], folded);
}

#[test]
fn insensitive_keeps_original_casing() {
    assert_eq!(
        vec!["SHOUTING LINE"],
        search_case_insensitive("shouting", "SHOUTING LINE\nquiet line")
    );
}

#[test]
fn insensitive_folds_beyond_ascii() {
    assert_eq!(vec!["BÄR"], search_case_insensitive("bär", "BÄR\nBAR"));
}

#[test]
fn carriage_returns_before_newlines_are_stripped() {
    let contents = "foo\r\nbar\n\nbaz\r";
    assert_eq!(vec!["foo", "bar", "", "baz\r"], search("", contents));
    assert_eq!(vec!["foo"], search("foo", contents));
}

#[test]
fn trailing_newline_opens_no_line() {
    assert_eq!(vec!["a", "b"], search("", "a\nb\n"));
}
