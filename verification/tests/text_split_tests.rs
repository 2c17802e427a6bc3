use pi_hal::font::text_split::{get_type_id, is_arabic_char, split, text_split, SplitChar2};

fn all_units(text: &str, word_split: bool, merge_whitespace: bool) -> Vec<String> {
    let mut s = split(text, word_split, merge_whitespace);
    let mut out = Vec::new();
    while let Some(r) = s.next() {
        out.push(format!("{:?}", r));
    }
    out
}

#[test]
fn split_one_unit_per_char() {
    assert_eq!(all_units("a b", false, false), vec!["Word(0, 'a')", "Whitespace(1)", "Word(2, 'b')"]);
}

#[test]
fn split_newline() {
    assert_eq!(all_units("a\nb", false, false), vec!["Word(0, 'a')", "Newline(1)", "Word(2, 'b')"]);
}

#[test]
fn split_words_and_merged_whitespace() {
    assert_eq!(
        all_units("ab  c", true, true),
        vec![
            "WordStart(0, 'a')",
            "WordNext(1, 'b')",
            "WordEnd(-1)",
            "Whitespace(3)",
            "WordStart(4, 'c')",
            "WordEnd(-1)",
        ]
    );
}

#[test]
fn split_unmerged_whitespace() {
    assert_eq!(
        all_units("a  b", false, false),
        vec!["Word(0, 'a')", "Whitespace(1)", "Whitespace(2)", "Word(3, 'b')"]
    );
}

#[test]
fn split_number_with_point_and_percent() {
    assert_eq!(
        all_units("3.5%", true, false),
        vec!["WordStart(0, '3')", "WordNext(1, '.')", "WordNext(2, '5')", "WordNext(3, '%')", "WordEnd(-1)"]
    );
}

#[test]
fn split_cjk_chars_are_single_words() {
    assert_eq!(all_units("中文", true, false), vec!["Word(0, '中')", "Word(1, '文')"]);
}

#[test]
fn split_empty_text() {
    assert!(all_units("", true, true).is_empty());
}

#[test]
fn split_ends_and_stays_ended() {
    let mut s = split("x", false, false);
    assert!(s.next().is_some());
    assert!(s.next().is_none());
    assert!(s.next().is_none());
}

#[test]
fn type_ids() {
    assert_eq!(get_type_id('a', '\0'), 1);
    assert_eq!(get_type_id('Z', '\0'), 1);
    assert_eq!(get_type_id('7', '\0'), usize::MAX);
    assert_eq!(get_type_id('.', '3'), usize::MAX);
    assert_eq!(get_type_id('.', 'a'), 0);
    assert_eq!(get_type_id('\'', 'a'), 1);
    assert_eq!(get_type_id('\'', '1'), 0);
    assert_eq!(get_type_id(' ', 'a'), 0);
    assert_eq!(get_type_id('\u{060C}', '\0'), 2 + 0x060C);
    assert_eq!(get_type_id('س', '\0'), 2 + 'س' as usize);
    assert_eq!(get_type_id('α', '\0'), pi_ucd::get_type_id('α'));
    assert_eq!(get_type_id('ж', '\0'), pi_ucd::get_type_id('ж'));
    assert_eq!(get_type_id('中', '\0'), 0);
}

#[test]
fn arabic_blocks() {
    assert!(is_arabic_char('\u{0600}'));
    assert!(is_arabic_char('\u{FEFF}'));
    assert!(!is_arabic_char('a'));
    assert!(!is_arabic_char('\u{0780}'));
}

#[test]
fn text_split_keeps_text_without_reversing() {
    assert_eq!(text_split("hello, world 42", false), "hello, world 42");
    assert_eq!(text_split("ab سلام cd", false), "ab سلام cd");
}

#[test]
fn text_split_reverses_runs_between_arabic_words() {
    assert_eq!(text_split("ab cd", true), "cd ab");
    assert_eq!(text_split("ab سلام cd", true), " abسلامcd ");
    assert_eq!(text_split("", true), "");
}

#[test]
fn split2_carries_glyph_ids() {
    let text = "ab c";
    let chars: Vec<char> = text.chars().collect();
    let mut s = SplitChar2::new(text, chars, vec![None; 4], true, false);
    let mut out = Vec::new();
    while let Some(r) = s.next() {
        out.push(format!("{:?}", r));
    }
    assert_eq!(
        out,
        vec![
            "WordStart(0, 'a', None)",
            "WordNext(1, 'b', None)",
            "WordEnd(-1)",
            "Whitespace(2, None)",
            "WordStart(3, 'c', None)",
            "WordEnd(-1)",
        ]
    );
}

fn unit_position(u: &str) -> Option<i64> {
    if u.starts_with("WordEnd") {
        return None;
    }
    let open = u.find('(').unwrap();
    let rest = &u[open + 1..];
    let end = rest.find(|c: char| c == ',' || c == ')').unwrap();
    Some(rest[..end].parse().unwrap())
}

#[test]
fn split_reports_each_position_once() {
    for word_split in [false, true] {
        let text = "ab 12.5%\n x'y  中文";
        let units = all_units(text, word_split, false);
        let positions: Vec<i64> = units.iter().filter_map(|u| unit_position(u)).collect();
        let expected: Vec<i64> = (0..text.chars().count() as i64).collect();
        assert_eq!(positions, expected);
    }
}

#[test]
fn split_words_are_bracketed() {
    for merge in [false, true] {
        let units = all_units("hello, 42 wörld\tab", true, merge);
        let mut in_word = false;
        for u in &units {
            if u.starts_with("WordStart") {
                assert!(!in_word);
                in_word = true;
            } else if u.starts_with("WordNext") {
                assert!(in_word);
            } else if u.starts_with("WordEnd") {
                assert!(in_word);
                in_word = false;
            } else {
                assert!(!in_word);
            }
        }
        assert!(!in_word);
    }
}

#[test]
fn text_split_keeps_characters_and_arabic_order() {
    let text = "ab مرحبا cd 12 سلام ef";
    let out = text_split(text, true);
    let mut a: Vec<char> = text.chars().collect();
    let mut b: Vec<char> = out.chars().collect();
    a.sort();
    b.sort();
    assert_eq!(a, b);
    let first = out.find("مرحبا").unwrap();
    let second = out.find("سلام").unwrap();
    assert!(first < second);
}
