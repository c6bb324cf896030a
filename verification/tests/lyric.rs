use osai_core::lyric::{
    build_prompt, choose_text, create_lyric, emotion_parameters, fallback, lyric_line, render,
    PARAMETER_COUNT,
};
use osai_core::notifier::NotifierError;

#[test]
fn prompt_embeds_name_and_label() {
    assert_eq!(
        build_prompt("会議", "14時30分"),
        "タスク: 会議 が14時30分にあります。このタスクの内容を要約し、実行5分前であることを含めて、私に親切に教えてください。"
    );
    assert_eq!(
        build_prompt("", ""),
        "タスク:  がにあります。このタスクの内容を要約し、実行5分前であることを含めて、私に親切に教えてください。"
    );
}

#[test]
fn fallback_holds_label_and_name_verbatim() {
    let sentence = fallback("call: Bob, 3pm", "08時00分");
    assert_eq!(sentence, "08時00分にcall: Bob, 3pmがあります。5分前です。起きるです。");
    assert!(sentence.starts_with("08時00分"));
    assert!(sentence.contains("call: Bob, 3pm"));
    assert_eq!(fallback("x", "y"), fallback("x", "y"));
}

#[test]
fn generated_text_is_used_verbatim() {
    assert_eq!(choose_text(Ok("  as it came,\n".to_string()), "n", "l"), "  as it came,\n");
    assert_eq!(choose_text(Ok(String::new()), "n", "l"), "");
}

#[test]
fn every_failure_yields_the_same_fallback() {
    let expected = "08時00分にwake upがあります。5分前です。起きるです。";
    for error in [
        NotifierError::MissingCredential,
        NotifierError::MalformedResponse,
        NotifierError::Exhausted("Gemini API failed after 3 attempts. Status: 500".to_string()),
        NotifierError::Exhausted(String::new()),
    ] {
        assert_eq!(choose_text(Err(error), "wake up", "08時00分"), expected);
    }
}

#[test]
fn there_are_fourteen_standard_parameters() {
    assert_eq!(PARAMETER_COUNT, 14);
    assert_eq!(emotion_parameters(), [5u8; 14]);
}

#[test]
fn line_is_text_comma_parameters() {
    let parameters = [0u8, 1, 9, 10, 11, 99, 100, 101, 199, 200, 254, 255, 5, 42];
    assert_eq!(lyric_line("la", &parameters), "la,0,1,9,10,11,99,100,101,199,200,254,255,5,42");
    assert_eq!(lyric_line("", &[7u8; 14]), ",7,7,7,7,7,7,7,7,7,7,7,7,7,7");
    assert_eq!(lyric_line("a,b", &[0u8; 14]), "a,b,0,0,0,0,0,0,0,0,0,0,0,0,0,0");
}

#[test]
fn hand_off_content_is_the_single_line_without_a_line_feed() {
    let parameters = [1u8, 2, 3, 4, 5, 6, 7, 8, 9, 10, 11, 12, 13, 14];
    assert_eq!(create_lyric("la", parameters), "la,1,2,3,4,5,6,7,8,9,10,11,12,13,14");
    assert_eq!(create_lyric("こんにちは", parameters), "こんにちは,1,2,3,4,5,6,7,8,9,10,11,12,13,14");
    assert!(!create_lyric("la", parameters).contains('\n'));
    assert_eq!(create_lyric("la", parameters), lyric_line("la", &parameters));
}

#[test]
fn renders_generated_text_with_the_standard_parameters() {
    assert_eq!(
        render("wake up", "08時00分", Ok("起きて！".to_string())),
        "起きて！,5,5,5,5,5,5,5,5,5,5,5,5,5,5"
    );
}

#[test]
fn renders_the_fallback_when_the_service_fails() {
    let line = render("wake up", "08時00分", Err(NotifierError::MalformedResponse));
    assert_eq!(line, "08時00分にwake upがあります。5分前です。起きるです。,5,5,5,5,5,5,5,5,5,5,5,5,5,5");
    let parts: Vec<&str> = line.split(',').collect();
    assert_eq!(parts.len(), 15);
    assert!(parts[1..].iter().all(|p| *p == "5"));
}
