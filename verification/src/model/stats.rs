use vstd::prelude::*;

verus! {

/// A single Ollama model as listed by the server.
#[derive(Debug, Clone)]
pub struct OllamaModel {
    /// Model name
    pub name: String,
    /// Total parameters in billions
    pub parameters: u64,
    /// Quantization type (e.g., "q4_0", "q5_0", "q8_0", etc.)
    pub quantization: Option<String>,
    /// Model size in GB, held as the IEEE-754 bit pattern of the `f64` value
    pub size: u64,
    /// Modified date
    pub modified_at: String,
}

impl OllamaModel {
    /// The text under which a model is shown: its name.
    pub fn to_display_string(&self) -> (res: String)
        ensures
            res@ == self.name@,
    {
        self.name.clone()
    }
}

/// Token usage reported for a model.
#[derive(Debug, Clone)]
pub struct Usage {
    /// Total tokens used
    pub total_tokens: u64,
    pub prompt_tokens: Option<u64>,
    pub completion_tokens: Option<u64>,
}

impl Default for Usage {
    fn default() -> (res: Self)
        ensures
            res.total_tokens == 0,
            res.prompt_tokens is None,
            res.completion_tokens is None,
    {
        Usage { total_tokens: 0, prompt_tokens: None, completion_tokens: None }
    }
}

/// A chat message in an Ollama response.
#[derive(Debug, Clone)]
pub struct Message {
    pub role: String,
    pub content: String,
}

/// The reply of Ollama's generate and chat endpoints.
#[derive(Debug, Clone)]
pub struct OllamaResponse {
    pub model: String,
    pub created_at: String,
    /// Text response (from /api/generate)
    pub response: Option<String>,
    /// Chat message (from /api/chat)
    pub message: Option<Message>,
    pub eval_count: u64,
    pub eval_duration: Option<u64>,
    pub load_duration: Option<u64>,
    pub prompt_eval_count: Option<u64>,
    pub prompt_eval_duration: Option<u64>,
}

/// Context window size assumed when the model doesn't report one
pub const DEFAULT_CONTEXT_WINDOW: u64 = 4096;

/// Number of refreshes that the token history remembers.
pub const TOKEN_HISTORY_CAP: usize = 20;

/// The full stats for a model.
#[derive(Debug, Clone)]
pub struct ModelStats {
    pub name: String,
    pub usage: Usage,
    /// Generation time of the most recent response, in nanoseconds
    pub response_time_ns: Option<u64>,
    /// Cumulative number of stat refreshes for this model
    pub completion_count: u64,
    /// Token count from the most recent response
    pub current_token_count: u64,
    /// Rolling history of token counts (newest last, capped at 20)
    pub token_history: Vec<u64>,
}

impl ModelStats {
    /// The stats that one generate reply gives for a model: its token counts,
    /// its generation time, one refresh, and no history yet.
    pub fn from_response(model_name: &str, response: &OllamaResponse) -> (res: ModelStats)
        ensures
            res.name@ == model_name@,
            res.usage.total_tokens == response.eval_count,
            res.usage.prompt_tokens == response.prompt_eval_count,
            res.usage.completion_tokens == Some(response.eval_count),
            res.response_time_ns == response.eval_duration,
            res.completion_count == 1,
            res.current_token_count == response.eval_count,
            res.token_history@.len() == 0,
    {
        ModelStats {
            name: String::from_str(model_name),
            usage: Usage {
                total_tokens: response.eval_count,
                prompt_tokens: response.prompt_eval_count,
                completion_tokens: Some(response.eval_count),
            },
            response_time_ns: response.eval_duration,
            completion_count: 1,
            current_token_count: response.eval_count,
            token_history: Vec::new(),
        }
    }
}

/// A history after `newest` was appended: the oldest entry is dropped when
/// the history would otherwise hold more than `TOKEN_HISTORY_CAP` entries.
pub open spec fn rolled_history(history: Seq<u64>, newest: u64) -> Seq<u64> {
    let pushed = history.push(newest);
    if pushed.len() > TOKEN_HISTORY_CAP {
        pushed.drop_first()
    } else {
        pushed
    }
}

} // verus!
