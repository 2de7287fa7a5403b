use workbook::minigrep::{run, search, search_case_insensitive, Config};

#[test]
fn case_sensitive() {
    let query = "duct";
    let contents = "\
Rust:
safe, fast, productive.
Pick three.
Duct tape.";
    assert_eq!(vec!["safe, fast, productive."], search(query, contents));
}

#[test]
fn case_insensitive() {
    let query = "rUsT";
    let contents = "\
Rust:
safe, fast, productive.
Pick three.
Trust me.";
    assert_eq!(
        vec!["Rust:", "Trust me."],
        search_case_insensitive(query, contents)
    );
}

fn args(words: &[&str]) -> Vec<String> {
    words.iter().map(|word| word.to_string()).collect()
}

#[test]
fn build_takes_query_and_path() {
    let config = Config::build(args(&["minigrep", "needle", "haystack.txt"]), false).unwrap();
    assert_eq!(config.query, "needle");
    assert_eq!(config.file_path, "haystack.txt");
    assert!(!config.ignore_case);
}

#[test]
fn build_ignores_case_on_a_further_argument() {
    let config = Config::build(args(&["minigrep", "q", "f", "anything"]), false).unwrap();
    assert!(config.ignore_case);
    let config = Config::build(args(&["minigrep", "q", "f", "a", "b", "c"]), false).unwrap();
    assert!(config.ignore_case);
    assert_eq!(config.query, "q");
    assert_eq!(config.file_path, "f");
}

#[test]
fn build_ignores_case_when_the_environment_says_so() {
    let config = Config::build(args(&["minigrep", "q", "f"]), true).unwrap();
    assert!(config.ignore_case);
    let config = Config::build(args(&["minigrep", "q", "f", "x"]), true).unwrap();
    assert!(config.ignore_case);
}

#[test]
fn build_misses_the_query() {
    assert_eq!(
        Config::build(args(&[]), false).err(),
        Some("Search string is not defined in params")
    );
    assert_eq!(
        Config::build(args(&["minigrep"]), true).err(),
        Some("Search string is not defined in params")
    );
}

#[test]
fn build_misses_the_file_path() {
    assert_eq!(
        Config::build(args(&["minigrep", "needle"]), false).err(),
        Some("File path is not defined in params")
    );
}

#[test]
fn search_keeps_the_order_of_the_lines() {
    let contents = "one\ntwo\nthree\nfour one\n";
    assert_eq!(search("o", contents), vec!["one", "two", "four one"]);
    assert_eq!(search("e", contents), vec!["one", "three", "four one"]);
}

#[test]
fn search_with_an_empty_query_finds_every_line() {
    assert_eq!(search("", "a\n\nb"), vec!["a", "", "b"]);
    assert_eq!(search_case_insensitive("", "a\n\nb"), vec!["a", "", "b"]);
}

#[test]
fn search_finds_nothing_in_an_empty_text() {
    assert!(search("x", "").is_empty());
    assert!(search("", "").is_empty());
    assert!(search_case_insensitive("x", "").is_empty());
}

#[test]
fn search_does_not_see_line_endings() {
    assert_eq!(search("a", "a\r\nb\r\nca\r\n"), vec!["a", "ca"]);
    assert!(search("\n", "a\nb").is_empty());
    assert!(search("\r", "a\r\nb").is_empty());
}

#[test]
fn search_is_exact_about_case() {
    assert!(search("RUST", "rust\nRust").is_empty());
    assert_eq!(search("Rust", "rust\nRust"), vec!["Rust"]);
}

#[test]
fn search_case_insensitive_folds_both_sides() {
    assert_eq!(
        search_case_insensitive("STRASSE", "Strasse\nstrasse\nSTRASSE\nweg"),
        vec!["Strasse", "strasse", "STRASSE"]
    );
    assert_eq!(
        search_case_insensitive("\u{c9}COLE", "\u{e9}cole\nEcole"),
        vec!["\u{e9}cole"]
    );
    assert_eq!(search_case_insensitive("abc", "xABCx\nxabx"), vec!["xABCx"]);
}

#[test]
fn run_follows_the_configuration() {
    let contents = "Rust:\nsafe, fast, productive.\nTrust me.";
    let exact = Config {
        query: String::from("rust"),
        file_path: String::from("poem.txt"),
        ignore_case: false,
    };
    assert_eq!(run(&exact, contents), vec!["Trust me."]);
    let loose = Config {
        query: String::from("rust"),
        file_path: String::from("poem.txt"),
        ignore_case: true,
    };
    assert_eq!(run(&loose, contents), vec!["Rust:", "Trust me."]);
}
