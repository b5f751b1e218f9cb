use gist_service::names::{compare_names, sorted_names};
use gist_service::text::{
    contains_char, decimal_text, is_space_char, last_index_of_char, next_word, same_text,
    trim_end_str, trim_line_breaks_str, trim_str,
};
use gist_service::{GistSummary, GitHubGist};

fn strings(items: &[&str]) -> Vec<String> {
    items.iter().map(|s| s.to_string()).collect()
}

#[test]
fn white_space_is_unicode_white_space() {
    for c in ['\t', '\n', '\u{b}', '\u{c}', '\r', ' ', '\u{85}', '\u{a0}', '\u{2003}', '\u{3000}'] {
        assert!(is_space_char(c), "{:?}", c);
        assert_eq!(is_space_char(c), c.is_whitespace());
    }
    for c in ['a', '0', '/', '\u{200b}', '\u{0}'] {
        assert!(!is_space_char(c), "{:?}", c);
        assert_eq!(is_space_char(c), c.is_whitespace());
    }
}

#[test]
fn trimming_matches_std() {
    for s in ["", "  a b  ", "\u{3000}x\r\n", "\n\n", "abc", " \t"] {
        assert_eq!(trim_str(s), s.trim());
        assert_eq!(trim_end_str(s), s.trim_end());
        assert_eq!(trim_line_breaks_str(s), s.trim_end_matches(['\r', '\n']));
    }
    assert_eq!(trim_line_breaks_str("a \r\n"), "a ");
}

#[test]
fn last_index_counts_characters() {
    assert_eq!(last_index_of_char("é\nx\ny", '\n'), Some(3));
    assert_eq!(last_index_of_char("abc", '\n'), None);
    assert!(contains_char("a/b", '/'));
    assert!(!contains_char("ab", '/'));
    assert!(same_text("GET", "GET"));
    assert!(!same_text("GET", "GETS"));
    assert!(!same_text("GET", "get"));
}

#[test]
fn next_word_skips_white_space() {
    let line = "  GET \t/octocat";
    let n = line.chars().count();
    assert_eq!(next_word(line, n, 0), Some((2, 5)));
    assert_eq!(next_word(line, n, 5), Some((7, 15)));
    assert_eq!(next_word(line, n, 15), None);
    assert_eq!(next_word("   ", 3, 0), None);
}

#[test]
fn decimal_text_writes_numbers() {
    assert_eq!(decimal_text(0), "0");
    assert_eq!(decimal_text(7), "7");
    assert_eq!(decimal_text(404), "404");
    assert_eq!(decimal_text(65535), "65535");
    assert_eq!(decimal_text(u64::MAX), u64::MAX.to_string());
}

#[test]
fn names_compare_by_bytes() {
    assert!(compare_names("alpha.txt", "zeta.txt") < 0);
    assert!(compare_names("zeta.txt", "alpha.txt") > 0);
    assert_eq!(compare_names("a", "a"), 0);
    assert!(compare_names("B", "a") < 0);
    assert!(compare_names("a", "ab") < 0);
    assert!(compare_names("z", "é") < 0);
}

#[test]
fn sorted_names_sorts_and_drops_repeats() {
    let names = strings(&["zeta.txt", "alpha.txt", "zeta.txt", "B.md", "é.txt", "a"]);
    assert_eq!(sorted_names(&names), strings(&["B.md", "a", "alpha.txt", "zeta.txt", "é.txt"]));
    assert_eq!(sorted_names(&vec![]), Vec::<String>::new());
}

#[test]
fn summary_files_do_not_depend_on_their_order() {
    let gist = |files: &[&str]| GitHubGist {
        id: "1".to_string(),
        description: None,
        html_url: "u".to_string(),
        files: strings(files),
    };
    let one = GistSummary::from_gist(gist(&["c", "a", "b"]));
    let two = GistSummary::from_gist(gist(&["b", "c", "a", "a"]));
    assert_eq!(one, two);
    assert_eq!(one.files, strings(&["a", "b", "c"]));
    assert_eq!(one.description, None);
}
