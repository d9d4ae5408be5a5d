use idealx::chunk::split_message;

fn joined(pieces: &[String]) -> String {
    pieces.concat()
}

#[test]
fn short_text_is_returned_whole() {
    assert_eq!(split_message("hello", 10), vec!["hello".to_string()]);
    assert_eq!(split_message("hello", 5), vec!["hello".to_string()]);
}

#[test]
fn empty_text_gives_one_empty_piece() {
    assert_eq!(split_message("", 5), vec![String::new()]);
}

#[test]
fn cuts_after_sentence_terminator() {
    assert_eq!(
        split_message("A. B. C.", 5),
        vec!["A. B.".to_string(), " C.".to_string()]
    );
}

#[test]
fn hard_cut_when_window_has_no_terminator() {
    let pieces = split_message("Hi! How are you? Fine", 12);
    // the second window, " How are you", holds no terminator
    assert_eq!(pieces, vec!["Hi!".to_string(), " How are you".to_string(), "? Fine".to_string()]);
}

#[test]
fn prefers_last_terminator_in_window() {
    let pieces = split_message("One. Two! Three? Four", 17);
    assert_eq!(pieces, vec!["One. Two! Three?".to_string(), " Four".to_string()]);
}

#[test]
fn newline_is_a_terminator() {
    let pieces = split_message("line one\nline two", 12);
    assert_eq!(pieces, vec!["line one\n".to_string(), "line two".to_string()]);
}

#[test]
fn hard_cut_without_terminator() {
    let pieces = split_message("abcdefghij", 4);
    assert_eq!(pieces, vec!["abcd".to_string(), "efgh".to_string(), "ij".to_string()]);
}

#[test]
fn never_cuts_inside_a_character() {
    // each of these characters takes three bytes
    let pieces = split_message("あいうえお", 7);
    assert_eq!(pieces, vec!["あい".to_string(), "うえ".to_string(), "お".to_string()]);
}

#[test]
fn ideographic_full_stop_ends_a_piece() {
    let text = "今日は。晴れです";
    let pieces = split_message(text, 14);
    assert_eq!(pieces, vec!["今日は。".to_string(), "晴れです".to_string()]);
}

#[test]
fn character_wider_than_limit_stands_alone() {
    let pieces = split_message("aあb", 2);
    assert_eq!(pieces, vec!["a".to_string(), "あ".to_string(), "b".to_string()]);
    assert_eq!(split_message("abあ", 2), vec!["ab".to_string(), "あ".to_string()]);
    assert_eq!(split_message("ab", 0), vec!["a".to_string(), "b".to_string()]);
}

#[test]
fn pieces_join_to_text_and_fit_limit() {
    let text = "Rust は安全です。Verus は証明します! Does it? Yes.\nNew line without end 終わり";
    for limit in 1..40usize {
        let pieces = split_message(text, limit);
        assert_eq!(joined(&pieces), text);
        for p in &pieces {
            assert!(!p.is_empty());
            if limit >= 4 {
                assert!(p.len() <= limit, "piece {:?} over {}", p, limit);
            }
        }
    }
}

#[test]
fn text_at_limit_is_one_piece() {
    let text = "x".repeat(1950);
    assert_eq!(split_message(&text, 1950), vec![text.clone()]);
    let longer = "x".repeat(1951);
    let pieces = split_message(&longer, 1950);
    assert_eq!(pieces.len(), 2);
    assert_eq!(pieces[1], "x");
}
