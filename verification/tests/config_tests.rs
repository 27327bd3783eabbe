use minigrep::Config;

fn args(list: &[&str]) -> Vec<String> {
    list.iter().map(|s| s.to_string()).collect()
}

#[test]
fn test_build() {
    let args = vec!["minigrep".to_string(), "test".to_string(), "test.txt".to_string()];
    let config = Config::build(args, None).unwrap();
    assert_eq!(config.query, "test");
    assert_eq!(config.file_path, "test.txt");
}

#[test]
fn build_without_query() {
    assert_eq!(Config::build(args(&["minigrep"]), None).err(), Some("Missing query argument"));
    assert_eq!(Config::build(args(&[]), None).err(), Some("Missing query argument"));
}

#[test]
fn build_without_file() {
    assert_eq!(Config::build(args(&["minigrep", "to"]), None).err(), Some("Missing file argument"));
}

#[test]
fn build_ignore_case_from_flag() {
    let c = Config::build(args(&["minigrep", "to", "poem.txt", "-i"]), None).unwrap();
    assert!(c.ignore_case);
    let c = Config::build(args(&["minigrep", "to", "poem.txt", "-x"]), None).unwrap();
    assert!(!c.ignore_case);
    let c = Config::build(args(&["minigrep", "to", "poem.txt"]), None).unwrap();
    assert!(!c.ignore_case);
}

#[test]
fn build_ignore_case_from_variable() {
    let c = Config::build(args(&["minigrep", "to", "poem.txt"]), Some("1".to_string())).unwrap();
    assert!(c.ignore_case);
    // A set variable decides, even against the flag.
    let c = Config::build(args(&["minigrep", "to", "poem.txt", "-i"]), Some("0".to_string())).unwrap();
    assert!(!c.ignore_case);
}

fn config(query: &str, ignore_case: bool) -> Config {
    Config { query: query.to_string(), file_path: String::new(), ignore_case }
}

#[test]
fn search_case_sensitive() {
    let contents = "\
Rust:
safe, fast, productive.
Pick three.
Duct tape.";
    assert_eq!(config("duct", false).search(contents), vec!["safe, fast, productive."]);
}

#[test]
fn search_case_insensitive() {
    let contents = "\
Rust:
safe, fast, productive.
Pick three.
Trust me.";
    assert_eq!(config("rUsT", true).search(contents), vec!["Rust:", "Trust me."]);
    assert_eq!(config("rUsT", false).search(contents), Vec::<String>::new());
    // Ignoring case, queries that lowercase alike find the same lines.
    assert_eq!(config("RUST", true).search(contents), config("rust", true).search(contents));
}

#[test]
fn search_trims_and_handles_line_endings() {
    let contents = "  to be\r\n\tnot\r\nor not to be  \n\nto\r";
    assert_eq!(config("to", false).search(contents), vec!["to be", "or not to be", "to"]);
}

#[test]
fn search_empty_query_matches_every_line() {
    let contents = "a\n\n b \n";
    assert_eq!(config("", false).search(contents), vec!["a", "", "b"]);
    assert_eq!(config("x", false).search(""), Vec::<String>::new());
}

#[test]
fn search_lowercases_beyond_ascii() {
    let contents = "ÉCOLE\nécole\nschool";
    assert_eq!(config("École", true).search(contents), vec!["ÉCOLE", "école"]);
}

#[test]
fn ignoring_case_keeps_exact_matches_for_ascii() {
    let contents = "Rust:\nsafe, fast, productive.\nPick three.\nTrust me.\nrust";
    for query in ["rust", "Rust", "st", "t", "Pick", "xyz"] {
        let exact = config(query, false).search(contents);
        let loose = config(query, true).search(contents);
        for line in &exact {
            assert!(loose.contains(line), "{:?} {:?}", query, line);
        }
    }
    assert_eq!(config("Rust", false).search(contents), vec!["Rust:"]);
    assert_eq!(config("Rust", true).search(contents), vec!["Rust:", "Trust me.", "rust"]);
}

#[test]
fn case_sensitive_results_are_an_ordered_part_of_ignoring_case() {
    let contents = "Rust:\n  trust  \nRUSTY\nnothing\nrust";
    let exact = config("rust", false).search(contents);
    let loose = config("rust", true).search(contents);
    assert_eq!(exact, vec!["trust", "rust"]);
    assert_eq!(loose, vec!["Rust:", "trust", "RUSTY", "rust"]);
    let mut it = loose.iter();
    for line in &exact {
        assert!(it.any(|l| l == line), "{:?}", line);
    }
}

#[test]
fn letterless_query_ignores_case_setting() {
    let contents = "a.b\nA.B\n1, 2\nx: 3.\n";
    for query in [".", ", ", ":", "", "3."] {
        assert_eq!(config(query, false).search(contents), config(query, true).search(contents), "{:?}", query);
    }
}
