use transcription_core::{clean_qwen_asr_output, remove_text_overlap, trim_whitespace};

#[test]
fn removes_overlap_larger_than_half_of_current() {
    let previous = "let's review the roadmap for q2 and q3";
    let current = "roadmap for q2 and q3 plus hiring plan";
    assert_eq!(remove_text_overlap(previous, current), "plus hiring plan");
}

#[test]
fn removes_full_duplicate_segment() {
    let previous = "we should align on launch timeline";
    let current = "launch timeline";
    assert_eq!(remove_text_overlap(previous, current), "");
}

#[test]
fn keeps_text_when_no_overlap() {
    let previous = "budget approved yesterday";
    let current = "design review starts tomorrow";
    assert_eq!(
        remove_text_overlap(previous, current),
        "design review starts tomorrow"
    );
}

#[test]
fn overlap_shorter_than_four_code_points_is_kept() {
    assert_eq!(remove_text_overlap("we did it", "it works"), "it works");
}

#[test]
fn overlap_counts_code_points_not_bytes() {
    assert_eq!(remove_text_overlap("会议开始了吗", "开始了吗没有"), "没有");
}

#[test]
fn overlap_with_empty_previous_left_trims_current() {
    assert_eq!(remove_text_overlap("   ", "  hello there"), "hello there");
    assert_eq!(remove_text_overlap("previous", "   "), "");
}

#[test]
fn trim_removes_unicode_white_space() {
    assert_eq!(trim_whitespace("\u{3000} hello\t\n"), "hello");
    assert_eq!(trim_whitespace(""), "");
    assert_eq!(trim_whitespace("a b"), "a b");
}

#[test]
fn qwen_language_prefix_is_removed() {
    assert_eq!(
        clean_qwen_asr_output("language EnglishWhat's your name?"),
        "What's your name?"
    );
}

#[test]
fn qwen_language_tag_after_sentence_is_removed() {
    assert_eq!(
        clean_qwen_asr_output("Hi.language Chinese吃吃吃。"),
        "Hi.吃吃吃。"
    );
}

#[test]
fn qwen_repeated_sentence_tags_are_removed() {
    assert_eq!(
        clean_qwen_asr_output("One. language English Two! language None Three"),
        "One. Two! Three"
    );
}

#[test]
fn qwen_cleaning_collapses_spaces_and_keeps_plain_text() {
    assert_eq!(clean_qwen_asr_output("  a  \t b  "), "a b");
    assert_eq!(
        clean_qwen_asr_output("the language barrier"),
        "the language barrier"
    );
    assert_eq!(clean_qwen_asr_output("   "), "");
}

#[test]
fn qwen_tag_is_case_insensitive_with_colon() {
    assert_eq!(clean_qwen_asr_output("LANGUAGE english: Hello"), "Hello");
}
