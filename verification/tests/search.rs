use worker_pool::search::select_lines;
use worker_pool::Config;

fn args(words: &[&str]) -> std::vec::IntoIter<String> {
    words.iter().map(|word| word.to_string()).collect::<Vec<String>>().into_iter()
}

#[test]
fn test_search_case_sensitive() {
    let query = "duct";
    let contents = "\
Rust:
Safe, Fast, Productive.
Select 3.";
    assert_eq!(vec!["Safe, Fast, Productive."], Config::search_case_sensitive(query, contents));
}

#[test]
fn test_search_case_insensitive() {
    let query = "dUcT";
    let contents = "\
Rust:
Safe, Fast, Productive.
Select 3.";
    assert_eq!(vec!["Safe, Fast, Productive."], Config::search_case_insensitive(query, contents));
}

#[test]
fn case_sensitive_search_minds_case() {
    let contents = "Rust:\nsafe, fast, productive.\nPick three.\nTrust me.";
    assert_eq!(vec!["Rust:"], Config::search_case_sensitive("Rust", contents));
    assert_eq!(vec!["Trust me."], Config::search_case_sensitive("rust", contents));
    assert_eq!(Vec::<&str>::new(), Config::search_case_sensitive("RUST", contents));
}

#[test]
fn case_insensitive_search_folds_both_sides() {
    let contents = "Rust:\nsafe, fast, productive.\nPick three.\nTrust me.";
    assert_eq!(vec!["Rust:", "Trust me."], Config::search_case_insensitive("rUsT", contents));
    assert_eq!(vec!["Rust:", "Trust me."], Config::search_case_insensitive("RUST", contents));
}

#[test]
fn matching_lines_keep_their_order_and_repeat() {
    let contents = "b a\na b\nc\nb a";
    assert_eq!(vec!["b a", "a b", "b a"], Config::search_case_sensitive("a", contents));
}

#[test]
fn empty_query_matches_every_line() {
    assert_eq!(vec!["one", "", "three"], Config::search_case_sensitive("", "one\n\nthree\n"));
}

#[test]
fn empty_text_has_no_lines() {
    assert_eq!(Vec::<&str>::new(), Config::search_case_sensitive("", ""));
    assert_eq!(Vec::<&str>::new(), Config::search_case_insensitive("", ""));
}

#[test]
fn a_lone_line_feed_is_one_empty_line() {
    assert_eq!(vec![""], Config::search_case_sensitive("", "\n"));
}

#[test]
fn final_line_ending_is_optional() {
    assert_eq!(vec!["ab", "cb"], Config::search_case_sensitive("b", "ab\ncb\n"));
    assert_eq!(vec!["ab", "cb"], Config::search_case_sensitive("b", "ab\ncb"));
}

#[test]
fn carriage_return_before_line_feed_is_dropped() {
    assert_eq!(vec!["ab", "cb"], Config::search_case_sensitive("b", "ab\r\ncb\r\n"));
}

#[test]
fn only_one_carriage_return_is_dropped() {
    assert_eq!(vec!["ab\r"], Config::search_case_sensitive("b", "ab\r\r\nc"));
}

#[test]
fn carriage_return_without_line_feed_stays() {
    assert_eq!(vec!["ab\r"], Config::search_case_sensitive("b", "ab\r"));
    assert_eq!(vec!["a\rb"], Config::search_case_sensitive("b", "a\rb\nc"));
}

#[test]
fn query_must_stand_in_one_piece() {
    assert_eq!(vec!["xaby"], Config::search_case_sensitive("ab", "a b\nxaby\nba\na\nb"));
}

#[test]
fn query_longer_than_line_does_not_match() {
    assert_eq!(Vec::<&str>::new(), Config::search_case_sensitive("abcd", "abc\nbcd"));
}

#[test]
fn search_works_beyond_ascii() {
    let contents = "Grüße aus Köln\nGRÜSSE\nkein Treffer";
    assert_eq!(vec!["Grüße aus Köln"], Config::search_case_sensitive("üße", contents));
    assert_eq!(vec!["Grüße aus Köln"], Config::search_case_insensitive("KÖLN", contents));
}

#[test]
fn select_lines_goes_by_the_keys() {
    let lines = vec!["One", "Two", "Three"];
    let keys = vec!["x".to_string(), "y".to_string(), "xy".to_string()];
    assert_eq!(vec!["One", "Three"], select_lines("x", &lines, &keys));
    assert_eq!(vec!["Two", "Three"], select_lines("y", &lines, &keys));
    assert_eq!(Vec::<&str>::new(), select_lines("One", &lines, &keys));
}

#[test]
fn select_lines_leaves_out_lines_without_key() {
    let lines = vec!["One", "Two", "Three"];
    let keys = vec!["a".to_string()];
    assert_eq!(vec!["One"], select_lines("", &lines, &keys));
    assert_eq!(Vec::<&str>::new(), select_lines("", &lines, &Vec::new()));
}

#[test]
fn build_reads_query_and_path() {
    let config = Config::build(args(&["minigrep", "needle", "haystack.txt"]), None).unwrap();
    assert_eq!("needle", config.query());
    assert_eq!("haystack.txt", config.path());
    assert!(!config.case_insensitive());
}

#[test]
fn build_ignores_further_arguments() {
    let config = Config::build(args(&["minigrep", "q", "p", "more", "still more"]), None).unwrap();
    assert_eq!("q", config.query());
    assert_eq!("p", config.path());
}

#[test]
fn build_misses_the_query() {
    assert_eq!(Some("Did not get a query string"), Config::build(args(&[]), None).err());
    assert_eq!(Some("Did not get a query string"), Config::build(args(&["minigrep"]), None).err());
}

#[test]
fn build_misses_the_path() {
    assert_eq!(
        Some("Did not get a path string"),
        Config::build(args(&["minigrep", "needle"]), Some("1".to_string())).err()
    );
}

#[test]
fn switch_is_on_for_one_only() {
    assert!(Config::switch(&Some("1".to_string())));
    assert!(!Config::switch(&Some("0".to_string())));
    assert!(!Config::switch(&Some("".to_string())));
    assert!(!Config::switch(&Some("11".to_string())));
    assert!(!Config::switch(&Some("true".to_string())));
    assert!(!Config::switch(&None));
}

#[test]
fn new_reads_the_switch() {
    let on = Config::new(args(&["minigrep", "q", "p"]), Some("1".to_string()));
    assert!(on.case_insensitive());
    assert_eq!("q", on.query());
    assert_eq!("p", on.path());
    let off = Config::new(args(&["minigrep", "q", "p"]), Some("yes".to_string()));
    assert!(!off.case_insensitive());
}

#[test]
fn run_searches_as_configured() {
    let contents = "Rust:\nsafe, fast, productive.\nPick three.\nTrust me.";
    let exact = Config::build(args(&["minigrep", "rUsT", "poem.txt"]), None).unwrap();
    assert_eq!(Vec::<&str>::new(), exact.run(contents));
    let folded =
        Config::build(args(&["minigrep", "rUsT", "poem.txt"]), Some("1".to_string())).unwrap();
    assert_eq!(vec!["Rust:", "Trust me."], folded.run(contents));
}
