use minigrep::{run, search, search_case_insensitive, select_lines, Config};

const POEM: &str = "\
Rust:
safe, fast, productive.
Pick three.";

#[test]
fn one_result() {
    let query = "duct";
    let contents = "\
Rust:
safe, fast, productive.
Pick three.";

    assert_eq!(vec!["safe, fast, productive."], search(query, contents));
}

#[test]
fn multiple_results() {
    let query = "u";
    let contents = "\
Rust:
safe, fast, productive.
Pick three.";

    assert_eq!(
        vec!["Rust:", "safe, fast, productive."],
        search(query, contents)
    );
}

#[test]
fn case_insensitive() {
    let query = "RuSt";
    let contents = "\
Rust:
safe, fast, productive.
Pick three.,
Trust me.";

    assert_eq!(
        vec!["Rust:", "Trust me."],
        search_case_insensitive(query, contents)
    );
}

#[test]
fn case_sensitive_search_minds_case() {
    let contents = "\
Rust:
safe, fast, productive.
Pick three.,
Trust me.";
    assert_eq!(search("RuSt", contents), Vec::<&str>::new());
    assert_eq!(search("rust", contents), vec!["Trust me."]);
    assert_eq!(search("Rust", contents), vec!["Rust:"]);
}

#[test]
fn empty_query_returns_every_line() {
    let all = vec!["Rust:", "safe, fast, productive.", "Pick three."];
    assert_eq!(search("", POEM), all);
    assert_eq!(search_case_insensitive("", POEM), all);
}

#[test]
fn empty_query_keeps_empty_lines() {
    assert_eq!(search("", "a\n\nb\n"), vec!["a", "", "b"]);
    assert_eq!(search_case_insensitive("", "A\n\nB\n"), vec!["A", "", "B"]);
}

#[test]
fn absent_query_returns_nothing() {
    assert_eq!(search("monomorphization", POEM), Vec::<&str>::new());
    assert_eq!(
        search_case_insensitive("monomorphization", POEM),
        Vec::<&str>::new()
    );
}

#[test]
fn empty_contents_have_no_lines() {
    assert_eq!(search("", ""), Vec::<&str>::new());
    assert_eq!(search("a", ""), Vec::<&str>::new());
    assert_eq!(search_case_insensitive("", ""), Vec::<&str>::new());
}

#[test]
fn final_line_feed_adds_no_line() {
    assert_eq!(search("", "one\ntwo\n"), vec!["one", "two"]);
    assert_eq!(search("", "one\ntwo"), vec!["one", "two"]);
    assert_eq!(search("", "\n"), vec![""]);
    assert_eq!(search("", "\n\n"), vec!["", ""]);
}

#[test]
fn carriage_return_belongs_to_the_terminator() {
    assert_eq!(search("", "one\r\ntwo\r\n"), vec!["one", "two"]);
    assert_eq!(search("o", "one\r\ntwo\r\nthree"), vec!["one", "two"]);
    assert_eq!(search("\r", "one\r\ntwo"), Vec::<&str>::new());
    assert_eq!(search("", "\r\n"), vec![""]);
}

#[test]
fn lone_carriage_return_ends_no_line() {
    assert_eq!(search("", "one\rtwo"), vec!["one\rtwo"]);
    assert_eq!(search("", "one\ntwo\r"), vec!["one", "two\r"]);
    assert_eq!(search("", "one\r\r\ntwo"), vec!["one\r", "two"]);
    assert_eq!(search("\r", "one\r\r\ntwo"), vec!["one\r"]);
}

#[test]
fn query_across_a_line_break_matches_no_line() {
    assert_eq!(search("t:\nsafe", POEM), Vec::<&str>::new());
    assert_eq!(search("\n", POEM), Vec::<&str>::new());
}

#[test]
fn a_line_is_returned_once() {
    assert_eq!(search("a", "banana\nkiwi\nbanana"), vec!["banana", "banana"]);
    assert_eq!(search("ana", "banana"), vec!["banana"]);
}

#[test]
fn whitespace_is_not_trimmed() {
    assert_eq!(search(" x", "x\n x\n  x "), vec![" x", "  x "]);
    assert_eq!(search("x ", "x\n x\n  x "), vec!["  x "]);
}

#[test]
fn whole_line_and_longer_queries() {
    assert_eq!(search("Rust:", POEM), vec!["Rust:"]);
    assert_eq!(search("Rust::", POEM), Vec::<&str>::new());
    assert_eq!(search("Pick three.", POEM), vec!["Pick three."]);
}

#[test]
fn every_result_contains_the_query_and_no_match_is_left_out() {
    let contents = "alpha\nbeta\ngamma\ndelta\nepsilon\n";
    let found = search("l", contents);
    assert_eq!(found, vec!["alpha", "delta", "epsilon"]);
    for line in contents.lines() {
        assert_eq!(found.contains(&line), line.contains("l"));
    }
}

#[test]
fn folded_search_returns_lines_in_their_own_casing() {
    let contents = "HELLO World\nhello again\nGoodbye";
    assert_eq!(
        search_case_insensitive("hElLo", contents),
        vec!["HELLO World", "hello again"]
    );
}

#[test]
fn searches_count_characters_not_bytes() {
    let contents = "Grüße aus Köln\nÄpfel und Birnen\nnaïve café";
    assert_eq!(search("üße", contents), vec!["Grüße aus Köln"]);
    assert_eq!(search("é", contents), vec!["naïve café"]);
    assert_eq!(search("Ä", contents), vec!["Äpfel und Birnen"]);
    assert_eq!(search("ä", contents), Vec::<&str>::new());
    assert_eq!(
        search_case_insensitive("äPFEL", contents),
        vec!["Äpfel und Birnen"]
    );
    assert_eq!(
        search_case_insensitive("KÖLN", contents),
        vec!["Grüße aus Köln"]
    );
}

#[test]
fn select_lines_goes_by_the_keys() {
    let lines = vec!["One", "Two", "Three", "Four"];
    let keys = vec![
        String::from("x"),
        String::from("needle"),
        String::from(""),
        String::from("a needle here"),
    ];
    assert_eq!(select_lines(&lines, &keys, "needle"), vec!["Two", "Four"]);
    assert_eq!(select_lines(&lines, &keys, "x"), vec!["One"]);
    assert_eq!(select_lines(&lines, &keys, ""), lines);
    assert_eq!(select_lines(&lines, &keys, "One"), Vec::<&str>::new());
}

#[test]
fn select_lines_of_nothing_is_nothing() {
    let lines: Vec<&str> = Vec::new();
    let keys: Vec<String> = Vec::new();
    assert_eq!(select_lines(&lines, &keys, ""), Vec::<&str>::new());
}

#[test]
fn run_follows_the_case_setting() {
    let contents = "\
Rust:
safe, fast, productive.
Pick three.,
Trust me.";
    let exact = Config {
        query: String::from("rUsT"),
        filename: String::from("poem.txt"),
        case_sensitive: true,
    };
    assert_eq!(run(&exact, contents), Vec::<&str>::new());
    let loose = Config {
        query: String::from("rUsT"),
        filename: String::from("poem.txt"),
        case_sensitive: false,
    };
    assert_eq!(run(&loose, contents), vec!["Rust:", "Trust me."]);
    let plain = Config {
        query: String::from("rust"),
        filename: String::from("poem.txt"),
        case_sensitive: true,
    };
    assert_eq!(run(&plain, contents), vec!["Trust me."]);
}

#[test]
fn no_line_holds_a_line_feed() {
    let contents = "a\nb\r\n\nc\rd\n\n";
    let lines = search("", contents);
    assert_eq!(lines, vec!["a", "b", "", "c\rd", ""]);
    for line in lines {
        assert!(!line.contains('\n'));
    }
}

#[test]
fn folding_may_change_the_length() {
    let contents = "İstanbul\nistanbul\nISTANBUL";
    assert_eq!(
        search_case_insensitive("i\u{307}stanbul", contents),
        vec!["İstanbul"]
    );
    assert_eq!(
        search_case_insensitive("STANBUL", contents),
        vec!["İstanbul", "istanbul", "ISTANBUL"]
    );
}
