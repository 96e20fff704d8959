use caseboard::demand_letter::{
    check_cloud_api_key, completion_content, completion_shape, extract_json_object, prepare_export, validate_input,
    DemandLetterInput,
};
use caseboard::json::JsonValue;

fn intake() -> DemandLetterInput {
    DemandLetterInput {
        letter_type: "履行催告".into(),
        sender: "甲公司".into(),
        recipient: "乙公司".into(),
        relationship: String::new(),
        facts: "双方签订合同".into(),
        demands: "限期履行".into(),
        deadline: String::new(),
        tone: "克制".into(),
        evidence_note: String::new(),
        legal_basis_note: String::new(),
    }
}

#[test]
fn core_intake_is_required_but_optional_fields_are_not() {
    let mut input = intake();
    assert!(validate_input(&input).is_ok());
    input.facts.clear();
    assert!(validate_input(&input).unwrap_err().contains("基本事实"));
}

#[test]
fn every_missing_core_field_is_named_in_form_order() {
    let mut input = intake();
    input.sender = "   ".into();
    input.demands.clear();
    assert_eq!(validate_input(&input).unwrap_err(), "请先补充：发函方、具体要求");
}

#[test]
fn json_object_is_cut_out_of_reasoning_and_fences() {
    let answer = "<think>先想一想</think>\n```json\n{\"title\":\"律师函\"}\n```";
    assert_eq!(extract_json_object(answer), "{\"title\":\"律师函\"}");
    assert_eq!(extract_json_object("前言 {\"a\":1} 后记"), "{\"a\":1}");
    assert_eq!(extract_json_object("  no braces  "), "no braces");
}

#[test]
fn final_export_needs_all_three_reviews() {
    assert!(prepare_export("函", "正文", " final ", true, true, false).is_err());
    let (title, body) = prepare_export("  ", "正文", "final", true, true, true).unwrap();
    assert_eq!(title, "律师函");
    assert_eq!(body, "正文");
    let (_, draft) = prepare_export("函", "正文", "draft", false, false, false).unwrap();
    assert!(draft.starts_with("> **工作稿"));
    assert!(draft.ends_with("正文"));
}

#[test]
fn cloud_drafting_needs_an_api_key() {
    let refused = "尚未配置云端 LLM API Key，请先在设置中完成配置。";
    assert_eq!(check_cloud_api_key("cloud", None), Err(refused.to_string()));
    assert_eq!(check_cloud_api_key("cloud", Some("   ")), Err(refused.to_string()));
    assert_eq!(check_cloud_api_key("cloud", Some("sk-1")), Ok(()));
    assert_eq!(check_cloud_api_key("local", None), Ok(()));
}

#[test]
fn minimax_gets_a_larger_budget_and_no_response_format() {
    let m = completion_shape("https://api.minimax.chat/v1/text/chatcompletion_v2");
    assert_eq!((m.max_tokens, m.json_response_format), (16384, false));
    let o = completion_shape("https://api.example.com/v1/chat/completions");
    assert_eq!((o.max_tokens, o.json_response_format), (8192, true));
}

fn obj(members: Vec<(&str, JsonValue)>) -> JsonValue {
    JsonValue::Object(members.into_iter().map(|(k, v)| (k.to_string(), v)).collect())
}

#[test]
fn the_completion_text_is_the_first_choices_message_content() {
    let response = obj(vec![(
        "choices",
        JsonValue::Array(vec![obj(vec![("message", obj(vec![("content", JsonValue::Str("{\"title\":\"x\"}".into()))]))])]),
    )]);
    assert_eq!(completion_content(&response), Ok("{\"title\":\"x\"}".to_string()));
    let missing = "律师函起草响应缺少 choices[0].message.content".to_string();
    assert_eq!(completion_content(&obj(vec![("choices", JsonValue::Array(vec![]))])), Err(missing.clone()));
    assert_eq!(completion_content(&JsonValue::Null), Err(missing.clone()));
    let numeric = obj(vec![(
        "choices",
        JsonValue::Array(vec![obj(vec![("message", obj(vec![("content", JsonValue::Bool(true))]))])]),
    )]);
    assert_eq!(completion_content(&numeric), Err(missing));
}
