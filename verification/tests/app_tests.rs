use ollamatop::app::{App, HeaderStatus, Key};
use ollamatop::model::stats::{ModelStats, OllamaModel, Usage};

fn model(name: &str) -> OllamaModel {
    OllamaModel {
        name: name.to_string(),
        parameters: 7,
        quantization: Some("q4_0".to_string()),
        size: 4.0f64.to_bits(),
        modified_at: "2024-01-01".to_string(),
    }
}

fn stats(name: &str, tokens: u64) -> ModelStats {
    ModelStats {
        name: name.to_string(),
        usage: Usage { total_tokens: tokens, prompt_tokens: Some(3), completion_tokens: Some(tokens) },
        response_time_ns: Some(1_000_000),
        completion_count: 1,
        current_token_count: tokens,
        token_history: Vec::new(),
    }
}

fn app_with(names: &[&str]) -> App {
    let mut app = App::new();
    app.models_loaded(names.iter().map(|n| model(n)).collect());
    app
}

#[test]
fn new_app_is_empty_and_ready() {
    let app = App::new();
    assert!(app.models.is_empty());
    assert!(app.stats.is_empty());
    assert_eq!(app.selected_model, 0);
    assert_eq!(app.error, None);
    assert!(!app.loading);
    assert_eq!(app.header_status(), HeaderStatus::Ready);
}

#[test]
fn loading_then_loaded() {
    let mut app = App::new();
    app.error = Some("old".to_string());
    app.begin_loading();
    assert!(app.loading);
    assert_eq!(app.error, None);
    assert_eq!(app.header_status(), HeaderStatus::Loading);
    app.models_loaded(vec![model("a"), model("b")]);
    assert!(!app.loading);
    assert_eq!(app.models.len(), 2);
    assert_eq!(app.header_status(), HeaderStatus::Ready);
}

#[test]
fn failed_model_fetch_is_reported() {
    let mut app = App::new();
    app.begin_loading();
    app.models_failed("connection refused");
    assert!(!app.loading);
    assert_eq!(app.error.as_deref(), Some("Failed to fetch models: connection refused"));
    assert_eq!(app.header_status(), HeaderStatus::Error);
    assert_eq!(app.empty_state_message(), "Failed to fetch models: connection refused");
}

#[test]
fn empty_state_without_error() {
    let app = App::new();
    assert_eq!(app.empty_state_message(), "No Ollama models found. Make sure Ollama is running.");
}

#[test]
fn update_and_client_errors() {
    let mut app = app_with(&["a"]);
    app.update_failed("timeout");
    assert_eq!(app.error.as_deref(), Some("Failed to update stats: timeout"));
    app.client_init_failed("bad builder");
    assert_eq!(app.error.as_deref(), Some("Client init failed: bad builder"));
}

#[test]
fn header_labels() {
    assert_eq!(HeaderStatus::Loading.label(), " (Loading...)");
    assert_eq!(HeaderStatus::Error.label(), " (Error)");
    assert_eq!(HeaderStatus::Ready.label(), " (Ready)");
}

#[test]
fn loading_outranks_error_in_header() {
    let mut app = App::new();
    app.loading = true;
    app.error = Some("x".to_string());
    assert_eq!(app.header_status(), HeaderStatus::Loading);
}

#[test]
fn initial_stats_start_their_history() {
    let mut app = app_with(&["a"]);
    app.add_initial_stats(stats("a", 42));
    assert_eq!(app.stats.len(), 1);
    assert_eq!(app.stats[0].token_history, vec![42]);
    assert_eq!(app.stats[0].completion_count, 1);
}

#[test]
fn apply_stats_appends_unknown_model() {
    let mut app = app_with(&["a", "b"]);
    app.error = Some("stale".to_string());
    app.apply_stats(stats("b", 10));
    assert_eq!(app.stats.len(), 1);
    assert_eq!(app.stats[0].name, "b");
    assert_eq!(app.stats[0].token_history, vec![10]);
    assert_eq!(app.stats[0].completion_count, 1);
    assert_eq!(app.error, None);
}

#[test]
fn apply_stats_merges_into_existing_entry() {
    let mut app = app_with(&["a", "b"]);
    app.apply_stats(stats("a", 5));
    app.apply_stats(stats("b", 6));
    app.apply_stats(stats("a", 7));
    assert_eq!(app.stats.len(), 2);
    assert_eq!(app.stats[0].name, "a");
    assert_eq!(app.stats[0].completion_count, 2);
    assert_eq!(app.stats[0].current_token_count, 7);
    assert_eq!(app.stats[0].token_history, vec![5, 7]);
    assert_eq!(app.stats[1].name, "b");
    assert_eq!(app.stats[1].token_history, vec![6]);
}

#[test]
fn apply_stats_ignores_history_of_fresh_stats_for_known_model() {
    let mut app = app_with(&["a"]);
    app.apply_stats(stats("a", 1));
    let mut fresh = stats("a", 2);
    fresh.token_history = vec![100, 200];
    app.apply_stats(fresh);
    assert_eq!(app.stats[0].token_history, vec![1, 2]);
}

#[test]
fn history_is_capped_at_twenty_newest_last() {
    let mut app = app_with(&["a"]);
    for t in 1..=25u64 {
        app.apply_stats(stats("a", t));
    }
    let entry = &app.stats[0];
    assert_eq!(entry.token_history.len(), 20);
    assert_eq!(entry.token_history, (6..=25u64).collect::<Vec<_>>());
    assert_eq!(*entry.token_history.last().unwrap(), 25);
    assert_eq!(entry.completion_count, 25);
}

#[test]
fn names_stay_distinct_after_many_merges() {
    let mut app = app_with(&["a", "b", "c"]);
    for (i, n) in ["a", "b", "a", "c", "b", "a"].iter().enumerate() {
        app.apply_stats(stats(n, i as u64));
    }
    let mut names: Vec<&str> = app.stats.iter().map(|s| s.name.as_str()).collect();
    assert_eq!(names, vec!["a", "b", "c"]);
    names.dedup();
    assert_eq!(names.len(), 3);
}

#[test]
fn find_stats_by_name() {
    let mut app = app_with(&["a", "b"]);
    app.apply_stats(stats("b", 9));
    assert_eq!(app.find_stats(&"b".to_string()).map(|s| s.current_token_count), Some(9));
    assert!(app.find_stats(&"a".to_string()).is_none());
}

#[test]
fn selected_model_name_follows_selection() {
    let mut app = app_with(&["a", "b"]);
    assert_eq!(app.selected_model_name(), Some("a"));
    app.selected_model = 1;
    assert_eq!(app.selected_model_name(), Some("b"));
    app.selected_model = 2;
    assert_eq!(app.selected_model_name(), None);
    assert_eq!(App::new().selected_model_name(), None);
}

#[test]
fn keys_move_and_quit() {
    let mut app = app_with(&["a", "b", "c"]);
    assert!(!app.handle_key(Key::Down));
    assert_eq!(app.selected_model, 1);
    assert!(!app.handle_key(Key::Char('j')));
    assert_eq!(app.selected_model, 2);
    assert!(!app.handle_key(Key::Down));
    assert_eq!(app.selected_model, 0);
    assert!(!app.handle_key(Key::Up));
    assert_eq!(app.selected_model, 0);
    app.selected_model = 2;
    assert!(!app.handle_key(Key::Char('k')));
    assert_eq!(app.selected_model, 1);
    assert!(!app.handle_key(Key::Char('x')));
    assert!(!app.handle_key(Key::Other));
    assert_eq!(app.selected_model, 1);
    assert!(app.handle_key(Key::Char('q')));
    assert!(app.handle_key(Key::Char('Q')));
    assert_eq!(app.selected_model, 1);
}

#[test]
fn keys_do_nothing_without_models() {
    let mut app = App::new();
    assert!(!app.handle_key(Key::Down));
    assert!(!app.handle_key(Key::Up));
    assert_eq!(app.selected_model, 0);
}

#[test]
fn moving_down_once_per_model_wraps_around() {
    let mut app = app_with(&["a", "b", "c", "d"]);
    app.selected_model = 2;
    for _ in 0..4 {
        app.handle_key(Key::Down);
    }
    assert_eq!(app.selected_model, 2);
}

#[test]
fn merged_names_are_old_names_and_the_new_one() {
    let mut app = app_with(&["a", "b", "c"]);
    app.apply_stats(stats("a", 1));
    app.apply_stats(stats("c", 2));
    app.apply_stats(stats("a", 3));
    let names: Vec<&str> = app.stats.iter().map(|s| s.name.as_str()).collect();
    assert_eq!(names, vec!["a", "c"]);
}

#[test]
fn few_refreshes_keep_every_count() {
    let mut app = app_with(&["a"]);
    for t in [4u64, 8, 15] {
        app.apply_stats(stats("a", t));
    }
    assert_eq!(app.stats[0].completion_count, 3);
    assert_eq!(app.stats[0].token_history, vec![4, 8, 15]);
}
