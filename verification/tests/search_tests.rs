use blinker_core::chars::chars_of;
use blinker_core::search::{cut, is_space_char, search_lowered, search_page, search_pages, RenderSearchMatch, CONTEXT};

fn found(text: &str, query: &str, limit: usize, trim: bool) -> Vec<(usize, String)> {
    let mut out: Vec<RenderSearchMatch> = vec![];
    search_page(text, query, 1, limit, trim, &mut out);
    out.into_iter().map(|m| (m.page, m.text)).collect()
}

#[test]
fn context_is_fifty_characters() {
    assert_eq!(CONTEXT, 50);
}

#[test]
fn an_empty_query_matches_nowhere() {
    assert!(found("some text", "", 10, true).is_empty());
    assert!(found("", "", 10, true).is_empty());
    assert!(found("", "", 0, false).is_empty());
}

#[test]
fn a_limit_of_zero_gives_nothing() {
    assert!(found("aaa", "a", 0, true).is_empty());
}

#[test]
fn matches_ignore_letter_case() {
    let r = found("Hello World", "WORLD", 10, true);
    assert_eq!(r, vec![(1, "Hello World".to_string())]);
    let r = found("HELLO", "hello", 10, true);
    assert_eq!(r.len(), 1);
}

#[test]
fn every_occurrence_is_found_in_order() {
    let r = found("one two one two one", "one", 10, true);
    assert_eq!(r.len(), 3);
    assert!(r.iter().all(|m| m.0 == 1 && m.1 == "one two one two one"));
}

#[test]
fn overlapping_occurrences_count() {
    assert_eq!(found("aaaa", "aa", 10, true).len(), 3);
}

#[test]
fn the_limit_cuts_the_search_short() {
    assert_eq!(found("a a a a a a", "a", 4, true).len(), 4);
    assert_eq!(found("a a a a a a", "a", 1, true).len(), 1);
    assert_eq!(found("a a a a a a", "a", 6, true).len(), 6);
    assert_eq!(found("a a a a a a", "a", 7, true).len(), 6);
}

#[test]
fn the_window_is_cut_at_fifty_on_each_side() {
    let text = format!("{}needle{}", "x".repeat(60), "y".repeat(70));
    let r = found(&text, "needle", 10, false);
    assert_eq!(r, vec![(1, format!("{}needle{}", "x".repeat(50), "y".repeat(50)))]);
}

#[test]
fn the_window_stops_at_the_ends_of_the_text() {
    let text = format!("{}needle{}", "x".repeat(3), "y".repeat(4));
    let r = found(&text, "needle", 10, false);
    assert_eq!(r, vec![(1, text.clone())]);
}

#[test]
fn the_window_is_trimmed_on_request() {
    let text = format!("  \t{}needle {}\n ", "x".repeat(3), "y".repeat(4));
    let r = found(&text, "needle", 10, true);
    assert_eq!(r, vec![(1, "xxxneedle yyyy".to_string())]);
    let r = found(&text, "needle", 10, false);
    assert_eq!(r, vec![(1, text.clone())]);
}

#[test]
fn the_window_counts_characters() {
    let text = format!("{}é{}", "ä".repeat(55), "ö".repeat(55));
    let r = found(&text, "É", 10, false);
    assert_eq!(r, vec![(1, format!("{}é{}", "ä".repeat(50), "ö".repeat(50)))]);
}

#[test]
fn a_window_of_white_space_trims_to_nothing() {
    let mut out = vec![];
    let text = chars_of("   ");
    let needle = chars_of(" ");
    search_lowered(&text, &text, &needle, 1, 3, 1, true, &mut out);
    assert_eq!(out.len(), 1);
    assert_eq!(out[0].page, 3);
    assert_eq!(out[0].text, "");
}

#[test]
fn earlier_matches_count_against_the_limit() {
    let mut out = vec![RenderSearchMatch { page: 1, text: "before".to_string() }];
    search_page("a a a", "a", 2, 2, true, &mut out);
    assert_eq!(out.len(), 2);
    assert_eq!(out[0].text, "before");
    assert_eq!(out[1].page, 2);
    search_page("a a a", "a", 3, 2, true, &mut out);
    assert_eq!(out.len(), 2);
    search_page("a a a", "a", 3, 1, true, &mut out);
    assert_eq!(out.len(), 2);
}

#[test]
fn pages_are_searched_in_order() {
    let pages = vec![
        Some("alpha beta".to_string()),
        None,
        Some("Beta gamma beta".to_string()),
        Some("beta".to_string()),
    ];
    let r = search_pages(&pages, "beta", 3, true);
    let got: Vec<(usize, String)> = r.into_iter().map(|m| (m.page, m.text)).collect();
    assert_eq!(
        got,
        vec![
            (1, "alpha beta".to_string()),
            (3, "Beta gamma beta".to_string()),
            (3, "Beta gamma beta".to_string()),
        ]
    );
    assert_eq!(search_pages(&pages, "beta", 100, true).len(), 4);
    assert_eq!(search_pages(&pages, "", 100, true).len(), 0);
    assert_eq!(search_pages(&pages, "beta", 0, true).len(), 0);
    assert_eq!(search_pages(&pages, "delta", 5, true).len(), 0);
}

#[test]
fn white_space_is_what_unicode_says() {
    for c in ['\t', '\n', '\u{0B}', '\u{0C}', '\r', ' ', '\u{85}', '\u{A0}', '\u{1680}', '\u{2000}',
        '\u{200A}', '\u{2028}', '\u{2029}', '\u{202F}', '\u{205F}', '\u{3000}']
    {
        assert!(is_space_char(c));
    }
    for c in ['a', '0', '\u{200B}', '\u{FEFF}', '\u{180E}', '\u{1C}', '_'] {
        assert!(!is_space_char(c));
    }
    let mut c = 0u32;
    while c < 0x11000 {
        if let Some(ch) = char::from_u32(c) {
            assert_eq!(is_space_char(ch), ch.is_whitespace(), "U+{:04X}", c);
        }
        c += 1;
    }
}

#[test]
fn cutting_agrees_with_trim() {
    for s in ["", " ", "  a  ", "a", "\t a b \n", "\u{3000}x\u{A0}", "   "] {
        let chars = chars_of(s);
        assert_eq!(cut(&chars, 0, chars.len(), true), s.trim());
        assert_eq!(cut(&chars, 0, chars.len(), false), s);
    }
    let chars = chars_of("ab  cd  ef");
    assert_eq!(cut(&chars, 2, 8, true), "cd");
    assert_eq!(cut(&chars, 2, 8, false), "  cd  ");
    assert_eq!(cut(&chars, 3, 3, true), "");
}
