use llm_adapter::mode::is_date_gte;
use llm_adapter::mode::is_openai_json_schema_supported;
use llm_adapter::mode::select_openai_structured_output_mode;
use llm_adapter::mode::OpenAIStructuredOutputMode;

#[test]
fn every_model_supports_json_schema() {
    assert!(is_openai_json_schema_supported("any-model"));
    assert!(is_openai_json_schema_supported(""));
}

#[test]
fn mode_selection_is_strict() {
    assert_eq!(
        select_openai_structured_output_mode("any-model"),
        OpenAIStructuredOutputMode::JsonSchema
    );
}

#[test]
fn date_gte_basic_order() {
    assert!(is_date_gte("2024-08-01", "2024-08-01"));
    assert!(is_date_gte("2024-08-02", "2024-08-01"));
    assert!(is_date_gte("2025-01-01", "2024-12-31"));
    assert!(!is_date_gte("2024-07-31", "2024-08-01"));
    assert!(!is_date_gte("2023-12-31", "2024-01-01"));
}

#[test]
fn date_gte_numeric_fields() {
    // Fields compare numerically, so leading zeros do not matter.
    assert!(is_date_gte("2024-5-7", "2024-05-07"));
    assert!(is_date_gte("2024-05-07", "2024-5-7"));
}

#[test]
fn date_gte_malformed_is_false() {
    assert!(!is_date_gte("2024-08", "2024-08-01"));
    assert!(!is_date_gte("2024-08-01", "not-a-date"));
    assert!(!is_date_gte("", "2024-08-01"));
    assert!(!is_date_gte("2024--01", "2024-08-01"));
    assert!(!is_date_gte("2024-08-01-05", "2024-08-01"));
    assert!(!is_date_gte("2024-08-xx", "2024-08-01"));
}
