use worktrunk::command::{gh_not_started, gh_reply, Reply};
use worktrunk::fault::Fault;
use worktrunk::text::{
    can_shorten, contains, decimal_text, find_last_number, parse_number, quoted_list,
    short_commit, trim, NumberError,
};

#[test]
fn trimming_is_that_of_the_standard_library() {
    for s in [
        "",
        " ",
        "a",
        " a b ",
        "\t\n\u{b}\u{c}\r x \u{85}\u{a0}",
        "\u{1680}\u{2000}\u{200a}y\u{2028}\u{2029}\u{202f}\u{205f}\u{3000}",
        "\u{200b}z\u{feff}",
        "\u{180e}q\u{1f}",
        "ü — ü\n",
    ] {
        assert_eq!(trim(s), s.trim());
    }
}

#[test]
fn a_search_is_that_of_the_standard_library() {
    for hay in ["", "a", "ab", "gh: HTTP 422", "4 422", "Reference does not exist", "üb422"] {
        for needle in ["", "422", "Reference does not exist", "ü", "ab"] {
            assert_eq!(contains(hay, needle), hay.contains(needle));
        }
    }
}

#[test]
fn numbers_are_read_as_the_standard_library_reads_them() {
    for s in [
        "", "0", "7", "+7", "+", "-1", "007", "4294967295", "4294967296", "99999999999", "1 ",
        " 1", "1a", "a1", "99999999999x", "+4294967295", "++1",
    ] {
        assert_eq!(parse_number(s).ok(), s.parse::<u32>().ok(), "{s:?}");
    }
    assert_eq!(parse_number(""), Err(NumberError::Empty));
    assert_eq!(parse_number("1x"), Err(NumberError::InvalidDigit));
    assert_eq!(parse_number("4294967296"), Err(NumberError::TooLarge));
}

#[test]
fn decimals_are_those_of_the_standard_library() {
    for n in [0, 1, 9, 10, 99, 704, 4294967295, 18446744073709551615] {
        assert_eq!(decimal_text(n), n.to_string());
    }
}

#[test]
fn a_decimal_reads_back() {
    for n in [0u32, 10, 704, 4294967295] {
        assert_eq!(parse_number(&decimal_text(n as u64)), Ok(n));
    }
}

#[test]
fn the_last_number_between_slashes_is_found() {
    assert_eq!(find_last_number("https://github.com/o/r/pull/704"), Some(704));
    assert_eq!(find_last_number("https://github.com/o/r/pull/704/files"), Some(704));
    assert_eq!(find_last_number("1/2/x"), Some(2));
    assert_eq!(find_last_number("a/b/"), None);
    assert_eq!(find_last_number(""), None);
}

#[test]
fn a_commit_is_shortened_to_seven_bytes() {
    assert_eq!(short_commit("0123456789abcdef"), Some("0123456".to_string()));
    assert_eq!(short_commit("0123456"), Some("0123456".to_string()));
    assert_eq!(short_commit("012345"), None);
    assert_eq!(short_commit(""), None);
    assert!(can_shorten("012345ü"[..].trim_end_matches('ü')));
    assert!(!can_shorten("012345ü"));
}

#[test]
fn arguments_are_shown_as_a_debug_print_shows_them() {
    let args: Vec<String> =
        vec!["api".to_string(), "a\"b".to_string(), "tab\tü".to_string(), String::new()];
    assert_eq!(quoted_list(&args), format!("{args:?}"));
    assert_eq!(quoted_list(&vec![]), "[]");
    assert_eq!(quoted_list(&vec!["one".to_string()]), "[\"one\"]");
}

#[test]
fn an_unsuccessful_gh_shows_its_arguments_and_its_complaint() {
    let args = vec!["pr".to_string(), "list".to_string()];
    assert_eq!(
        gh_reply(&args, false, "ignored".to_string(), " no auth\n"),
        Reply::Failure {
            fault: Fault {
                message: "gh [\"pr\", \"list\"] failed: no auth".to_string(),
                causes: vec![],
            },
            complaint: "no auth".to_string(),
        }
    );
    assert_eq!(
        gh_reply(&args, true, "7\n".to_string(), "warning"),
        Reply::Output("7\n".to_string())
    );
}

#[test]
fn a_gh_that_cannot_be_started_is_reported() {
    let cause = Fault { message: "not found".to_string(), causes: vec!["os".to_string()] };
    assert_eq!(
        gh_not_started(cause),
        Reply::Failure {
            fault: Fault {
                message: "failed to spawn gh; is the GitHub CLI installed?".to_string(),
                causes: vec!["not found".to_string(), "os".to_string()],
            },
            complaint: String::new(),
        }
    );
}
