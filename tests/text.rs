use towny_map::fetch::{next_fetch_action, FetchAction};
use towny_map::profiles::u64_to_hex_string;
use towny_map::text::{eq_ignore_ascii_case, split_commas_trimmed, trim_chars, unescape_html_unicode};

fn chars(s: &str) -> Vec<char> {
    s.chars().collect()
}

#[test]
fn unescape_replaces_the_six_escapes() {
    let s = r"\u003cbold\u003e a\u003db \u0026 \u0027q\u0027 \u0022w\u0022 \u003c/bold\u003e";
    assert_eq!(unescape_html_unicode(s), "<bold> a=b & 'q' \"w\" </bold>");
}

#[test]
fn unescape_keeps_other_text() {
    assert_eq!(unescape_html_unicode(r"caf\u00e9 \u003C \u003"), r"caf\u00e9 \u003C \u003");
    assert_eq!(unescape_html_unicode("plain <b>"), "plain <b>");
    assert_eq!(unescape_html_unicode(""), "");
}

#[test]
fn unescape_twice_is_unescape_once() {
    for s in [r"\\u003c", r"\u003c", r"a<>\", r"\u005cu0026u0026"] {
        let once = unescape_html_unicode(s);
        assert_eq!(unescape_html_unicode(&once), once);
    }
    assert_eq!(unescape_html_unicode(r"\\u003c"), r"\<");
}

#[test]
fn trim_removes_unicode_whitespace() {
    let t: String = trim_chars(&chars("\u{3000} \t a b \n\u{a0}")).into_iter().collect();
    assert_eq!(t, "a b");
    assert!(trim_chars(&chars("   ")).is_empty());
}

#[test]
fn split_on_commas_trims_pieces() {
    assert_eq!(split_commas_trimmed(&chars(" Mara, Jon ,Ada")), vec!["Mara", "Jon", "Ada"]);
    assert_eq!(split_commas_trimmed(&chars("")), vec![""]);
    assert_eq!(split_commas_trimmed(&chars("a,")), vec!["a", ""]);
}

#[test]
fn ascii_case_is_ignored() {
    assert!(eq_ignore_ascii_case(&chars("NoNe"), "none"));
    assert!(!eq_ignore_ascii_case(&chars("non"), "none"));
    assert!(!eq_ignore_ascii_case(&chars("nonf"), "none"));
}

#[test]
fn hex_string_has_32_digits() {
    assert_eq!(u64_to_hex_string(255), "000000000000000000000000000000ff");
    assert_eq!(u64_to_hex_string(u64::MAX), "0000000000000000ffffffffffffffff");
    assert_eq!(u64_to_hex_string(0).len(), 32);
}

#[test]
fn fetch_reads_success_and_retries_otherwise() {
    assert_eq!(next_fetch_action(true), FetchAction::ReadBody);
    assert_eq!(next_fetch_action(false), FetchAction::Retry { delay_secs: 1 });
}
