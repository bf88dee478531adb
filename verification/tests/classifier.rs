use promptgen::classify::analyze_tone;

#[test]
fn empty_text_gets_no_labels() {
    let r = analyze_tone("");
    assert!(r.is_empty());
}

#[test]
fn lone_question_mark_is_interrogative() {
    let r = analyze_tone("?");
    assert_eq!(r, vec!["interrogative".to_string()]);
}

#[test]
fn question_sentence_is_interrogative() {
    let r = analyze_tone("Will it rain tomorrow?");
    assert_eq!(r, vec!["interrogative".to_string()]);
}

#[test]
fn repeated_question_marks_count_once() {
    let r = analyze_tone("??");
    assert_eq!(r, vec!["interrogative".to_string()]);
}

#[test]
fn phrase_keywords_match_across_spaces() {
    let r = analyze_tone("Show me how to do this");
    assert_eq!(r, vec!["instructional".to_string()]);
}

#[test]
fn two_urgency_words_still_one_label() {
    let r = analyze_tone("urgent asap");
    assert_eq!(r, vec!["urgent".to_string()]);
}

#[test]
fn single_generic_keyword_is_below_threshold() {
    assert!(analyze_tone("api").is_empty());
    assert!(analyze_tone("explain").is_empty());
    assert!(analyze_tone("database").is_empty());
}

#[test]
fn urgency_words_count_double() {
    // one urgency word alone clears the threshold, a generic one does not
    let r = analyze_tone("hurry");
    assert_eq!(r, vec!["urgent".to_string()]);
}

#[test]
fn tied_categories_keep_declaration_order() {
    let r = analyze_tone("api debug hey cool");
    assert_eq!(r, vec!["casual".to_string(), "technical".to_string()]);
}

#[test]
fn result_is_capped_at_three_labels() {
    let r = analyze_tone("api debug hey cool imagine create analyze compare");
    assert_eq!(
        r,
        vec![
            "casual".to_string(),
            "technical".to_string(),
            "creative".to_string()
        ]
    );
    assert!(r.len() <= 3);
}

#[test]
fn labels_are_never_repeated() {
    let r = analyze_tone("Please kindly help me now?");
    assert_eq!(
        r,
        vec![
            "professional".to_string(),
            "interrogative".to_string(),
            "urgent".to_string()
        ]
    );
    for i in 0..r.len() {
        for j in 0..r.len() {
            if i != j {
                assert_ne!(r[i], r[j]);
            }
        }
    }
}

#[test]
fn higher_score_outranks_declaration_order() {
    let r = analyze_tone("urgent asap api debug");
    assert_eq!(r, vec!["urgent".to_string(), "technical".to_string()]);
}

#[test]
fn matching_is_case_insensitive() {
    let r = analyze_tone("URGENT!!! ASAP");
    assert_eq!(r, vec!["urgent".to_string()]);
}

#[test]
fn matching_is_by_substring() {
    // "know" hides the urgency word "now"
    let r = analyze_tone("I know");
    assert_eq!(r, vec!["urgent".to_string()]);
}

#[test]
fn two_professional_words_qualify() {
    let r = analyze_tone("Please proceed accordingly.");
    assert_eq!(r, vec!["professional".to_string()]);
}

#[test]
fn plain_text_gets_no_labels() {
    assert!(analyze_tone("The weather is nice today.").is_empty());
}
