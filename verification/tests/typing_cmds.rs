use dictation_core::typing::{
    choose_input_method, effective_delay, text_is_blank, typing_gate, InputMethod, TypeResult,
};

#[test]
fn blank_text_is_detected() {
    assert!(text_is_blank(&String::from("")));
    assert!(text_is_blank(&String::from("   ")));
    assert!(text_is_blank(&String::from(" \t\r\n")));
    // The whole Unicode White_Space set counts as blank.
    assert!(text_is_blank(&String::from("\u{00A0}")));
    assert!(text_is_blank(&String::from("\u{2003}\u{3000}\u{0085}")));
    assert!(!text_is_blank(&String::from("hi")));
    assert!(!text_is_blank(&String::from("  x  ")));
    assert!(!text_is_blank(&String::from("\u{00A0}x")));
}

#[test]
fn blank_requests_are_refused_before_typing() {
    let refusal = typing_gate(&String::from("  \t")).expect("blank text must be refused");
    assert!(!refusal.success);
    assert!(refusal.method.is_none());
    assert_eq!(refusal.error.as_deref(), Some("Empty text"));
    assert!(refusal.message.is_none());
    assert!(typing_gate(&String::from("hello")).is_none());
    let refusal = typing_gate(&String::from("\u{00A0}")).expect("a no-break space is blank");
    assert_eq!(refusal.error.as_deref(), Some("Empty text"));
}

#[test]
fn input_method_names_select_their_methods() {
    assert!(matches!(choose_input_method(&String::from("paste")), InputMethod::Paste));
    assert!(matches!(
        choose_input_method(&String::from("type_delayed")),
        InputMethod::TypeDelayed
    ));
    assert!(matches!(choose_input_method(&String::from("type")), InputMethod::TypeFast));
    assert!(matches!(choose_input_method(&String::from("")), InputMethod::TypeFast));
}

#[test]
fn missing_delay_defaults_to_20_ms() {
    assert_eq!(effective_delay(None), 20);
    assert_eq!(effective_delay(Some(5)), 5);
    assert_eq!(effective_delay(Some(0)), 0);
}

#[test]
fn type_results_report_method_or_error() {
    let ok = TypeResult::succeeded(String::from("enigo"));
    assert!(ok.success);
    assert_eq!(ok.method.as_deref(), Some("enigo"));
    assert!(ok.error.is_none());
    let bad = TypeResult::failed(String::from("no display"));
    assert!(!bad.success);
    assert_eq!(bad.error.as_deref(), Some("no display"));
    assert!(bad.method.is_none());
}
