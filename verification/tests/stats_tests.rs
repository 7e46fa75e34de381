use ollamatop::model::stats::{
    Message, ModelStats, OllamaModel, OllamaResponse, Usage, DEFAULT_CONTEXT_WINDOW,
    TOKEN_HISTORY_CAP,
};

#[test]
fn test_model_creation() {
    let model = OllamaModel {
        name: "test-model".to_string(),
        parameters: 7,
        quantization: Some("q4_0".to_string()),
        size: 4.0f64.to_bits(),
        modified_at: "2024-01-01".to_string(),
    };

    assert_eq!(model.name, "test-model");
    assert_eq!(model.parameters, 7);
}

#[test]
fn model_displays_as_its_name() {
    let model = OllamaModel {
        name: "llama3.2:latest".to_string(),
        parameters: 3,
        quantization: None,
        size: 2.0f64.to_bits(),
        modified_at: "2024-09-25".to_string(),
    };
    assert_eq!(model.to_display_string(), "llama3.2:latest");
}

#[test]
fn default_usage_is_empty() {
    let usage = Usage::default();
    assert_eq!(usage.total_tokens, 0);
    assert_eq!(usage.prompt_tokens, None);
    assert_eq!(usage.completion_tokens, None);
}

#[test]
fn constants_match_the_documented_values() {
    assert_eq!(DEFAULT_CONTEXT_WINDOW, 4096);
    assert_eq!(TOKEN_HISTORY_CAP, 20);
}

fn response(eval_count: u64, eval_duration: Option<u64>, prompt: Option<u64>) -> OllamaResponse {
    OllamaResponse {
        model: "llama3.2".to_string(),
        created_at: "2024-01-01T00:00:00Z".to_string(),
        response: Some("ok".to_string()),
        message: Some(Message { role: "assistant".to_string(), content: "ok".to_string() }),
        eval_count,
        eval_duration,
        load_duration: Some(5),
        prompt_eval_count: prompt,
        prompt_eval_duration: Some(7),
    }
}

#[test]
fn stats_from_a_generate_reply() {
    let stats: ModelStats = ModelStats::from_response("llama3.2", &response(298, Some(183_400_000), Some(26)));
    assert_eq!(stats.name, "llama3.2");
    assert_eq!(stats.usage.total_tokens, 298);
    assert_eq!(stats.usage.prompt_tokens, Some(26));
    assert_eq!(stats.usage.completion_tokens, Some(298));
    assert_eq!(stats.response_time_ns, Some(183_400_000));
    assert_eq!(stats.completion_count, 1);
    assert_eq!(stats.current_token_count, 298);
    assert!(stats.token_history.is_empty());
}

#[test]
fn stats_from_a_reply_without_timings() {
    let stats = ModelStats::from_response("m", &response(0, None, None));
    assert_eq!(stats.usage.prompt_tokens, None);
    assert_eq!(stats.usage.completion_tokens, Some(0));
    assert_eq!(stats.response_time_ns, None);
}
