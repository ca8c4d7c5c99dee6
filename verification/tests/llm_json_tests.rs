use blacksmith_core::llm_json::{
    get_llm_order_from_response, is_scam_answer, keywords_validation_request,
    validate_transcription_keywords,
};

#[test]
fn scam_answers_are_read() {
    assert_eq!(is_scam_answer("{\"is_scam\": true, \"reason\": \"link\"}"), Some(true));
    assert_eq!(is_scam_answer("{\"is_scam\": false}"), Some(false));
    assert_eq!(is_scam_answer("{\"is_scam\": \"yes\"}"), None);
    assert_eq!(is_scam_answer("{\"verdict\": true}"), None);
    assert_eq!(is_scam_answer("not json"), None);
}

#[test]
fn ranking_order_is_read() {
    assert_eq!(get_llm_order_from_response("{\"order\": [2, 0, 1]}"), Ok(vec![2, 0, 1]));
    assert_eq!(get_llm_order_from_response("{\"order\": [3, -1, \"x\", 4]}"), Ok(vec![3, 4]));
    assert_eq!(
        get_llm_order_from_response("{\"ranking\": [1]}"),
        Err("Error getting new order from LLM".to_string())
    );
    assert_eq!(
        get_llm_order_from_response("{\"order\": 5}"),
        Err("Error getting new order from LLM".to_string())
    );
    let err = get_llm_order_from_response("{order").unwrap_err();
    assert!(err.starts_with("Error parsing JSON: "));
    assert!(err.len() > "Error parsing JSON: ".len());
}

#[test]
fn transcription_keywords_are_validated() {
    assert_eq!(
        validate_transcription_keywords(
            "raw words".to_string(),
            Some("{\"transcription_keywords\": \"clean words\"}")
        ),
        "clean words"
    );
    assert_eq!(validate_transcription_keywords("raw words".to_string(), Some("oops")), "raw words");
    assert_eq!(
        validate_transcription_keywords("raw words".to_string(), Some("{\"transcription_keywords\": 3}")),
        "raw words"
    );
    assert_eq!(validate_transcription_keywords("raw words".to_string(), None), "raw words");
    assert_eq!(keywords_validation_request("a, b"), "Raw transcription keywords: a, b");
}
