use ollamatop::model::stats::{ModelStats, OllamaModel, Usage};
use ollamatop::ui::components::ollama_stats::{OllamaStatsUI, StatisticKind, TokenKind};

fn model(quantization: Option<&str>) -> OllamaModel {
    OllamaModel {
        name: "m".to_string(),
        parameters: 7,
        quantization: quantization.map(|q| q.to_string()),
        size: 1.0f64.to_bits(),
        modified_at: "2024-01-01".to_string(),
    }
}

#[test]
fn quantization_text_falls_back_to_unknown() {
    let ui = OllamaStatsUI::new();
    assert_eq!(ui.quantization_text(&model(Some("q4_0"))), "q4_0");
    assert_eq!(ui.quantization_text(&model(None)), "unknown");
}

#[test]
fn breakdown_lists_reported_counts() {
    let ui = OllamaStatsUI::new();
    let both = Usage { total_tokens: 298, prompt_tokens: Some(26), completion_tokens: Some(298) };
    assert_eq!(ui.token_breakdown(&both), vec![(TokenKind::Prompt, 26), (TokenKind::Completion, 298)]);
    let only_completion = Usage { total_tokens: 5, prompt_tokens: None, completion_tokens: Some(5) };
    assert_eq!(ui.token_breakdown(&only_completion), vec![(TokenKind::Completion, 5)]);
    assert!(ui.token_breakdown(&Usage::default()).is_empty());
}

#[test]
fn breakdown_labels() {
    assert_eq!(TokenKind::Prompt.label(), "Prompt:     ");
    assert_eq!(TokenKind::Completion.label(), "Completion: ");
}

#[test]
fn model_info_line_lists_the_model() {
    let ui = OllamaStatsUI::new();
    let mut m = model(Some("q4_0"));
    m.name = "llama3.2:latest".to_string();
    m.parameters = 3;
    assert_eq!(ui.model_info_line(&m), "llama3.2:latest | 3B | q4_0 | Modified: 2024-01-01");
    m.quantization = None;
    m.parameters = 0;
    assert_eq!(ui.model_info_line(&m), "llama3.2:latest | 0B | unknown | Modified: 2024-01-01");
    m.parameters = u64::MAX;
    assert_eq!(
        ui.model_info_line(&m),
        format!("llama3.2:latest | {}B | unknown | Modified: 2024-01-01", u64::MAX)
    );
    m.parameters = 70;
    assert_eq!(ui.model_info_line(&m), "llama3.2:latest | 70B | unknown | Modified: 2024-01-01");
}

#[test]
fn statistics_counts_in_block_order() {
    let ui = OllamaStatsUI::new();
    let stats = ModelStats {
        name: "m".to_string(),
        usage: Usage { total_tokens: 298, prompt_tokens: Some(26), completion_tokens: Some(298) },
        response_time_ns: None,
        completion_count: 7,
        current_token_count: 120,
        token_history: vec![120],
    };
    assert_eq!(
        ui.statistics_counts(&stats),
        vec![
            (StatisticKind::Completions, 7),
            (StatisticKind::TotalTokens, 298),
            (StatisticKind::CurrentTokens, 120)
        ]
    );
    assert_eq!(StatisticKind::Completions.label(), "Completions:   ");
    assert_eq!(StatisticKind::TotalTokens.label(), "Total Tokens:  ");
    assert_eq!(StatisticKind::CurrentTokens.label(), "Current Tokens:");
}
