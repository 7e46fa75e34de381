use vstd::prelude::*;

use crate::model::stats::{ModelStats, OllamaModel, Usage};
use crate::text::{append_decimal, decimal};

verus! {

/// Main stats component for displaying model statistics.
#[derive(Debug, Clone, Copy, PartialEq, Eq, Structural)]
pub struct OllamaStatsUI;

/// The kinds of tokens that the breakdown lists.
#[derive(Debug, Clone, Copy, PartialEq, Eq, Structural)]
pub enum TokenKind {
    Prompt,
    Completion,
}

impl TokenKind {
    /// The label that precedes the count.
    pub fn label(&self) -> (res: &'static str)
        ensures
            res@ == match self {
                TokenKind::Prompt => "Prompt:     "@,
                TokenKind::Completion => "Completion: "@,
            },
    {
        match self {
            TokenKind::Prompt => "Prompt:     ",
            TokenKind::Completion => "Completion: ",
        }
    }
}

/// The counts that the statistics block lists.
#[derive(Debug, Clone, Copy, PartialEq, Eq, Structural)]
pub enum StatisticKind {
    Completions,
    TotalTokens,
    CurrentTokens,
}

impl StatisticKind {
    /// The label that precedes the count.
    pub fn label(&self) -> (res: &'static str)
        ensures
            res@ == match self {
                StatisticKind::Completions => "Completions:   "@,
                StatisticKind::TotalTokens => "Total Tokens:  "@,
                StatisticKind::CurrentTokens => "Current Tokens:"@,
            },
    {
        match self {
            StatisticKind::Completions => "Completions:   ",
            StatisticKind::TotalTokens => "Total Tokens:  ",
            StatisticKind::CurrentTokens => "Current Tokens:",
        }
    }
}

/// The quantization shown for a model: its own, or `unknown`.
pub open spec fn quantization_shown(model: OllamaModel) -> Seq<char> {
    match model.quantization {
        Some(q) => q@,
        None => "unknown"@,
    }
}

/// The model information line: name, parameter count in billions,
/// quantization and modification date.
pub open spec fn model_info_of(model: OllamaModel) -> Seq<char> {
    model.name@ + " | "@ + decimal(model.parameters as nat) + "B | "@ + quantization_shown(model)
        + " | Modified: "@ + model.modified_at@
}

/// The breakdown lines of a usage: the prompt count, then the completion
/// count, each where the usage reports it.
pub open spec fn breakdown_of(usage: Usage) -> Seq<(TokenKind, u64)> {
    let prompt: Seq<(TokenKind, u64)> = match usage.prompt_tokens {
        Some(n) => seq![(TokenKind::Prompt, n)],
        None => Seq::empty(),
    };
    let completion: Seq<(TokenKind, u64)> = match usage.completion_tokens {
        Some(n) => seq![(TokenKind::Completion, n)],
        None => Seq::empty(),
    };
    prompt + completion
}

impl OllamaStatsUI {
    pub fn new() -> (res: Self)
        ensures
            res == OllamaStatsUI,
    {
        OllamaStatsUI
    }

    /// The quantization shown in the model information line: the model's, or `unknown`.
    pub fn quantization_text<'a>(&self, model: &'a OllamaModel) -> (res: &'a str)
        ensures
            res@ == quantization_shown(*model),
    {
        match &model.quantization {
            Some(q) => q.as_str(),
            None => "unknown",
        }
    }

    /// The model information line shown above the context gauge.
    pub fn model_info_line(&self, model: &OllamaModel) -> (res: String)
        ensures
            res@ == model_info_of(*model),
    {
        let mut line = String::from_str(model.name.as_str());
        line.append(" | ");
        append_decimal(&mut line, model.parameters);
        line.append("B | ");
        line.append(self.quantization_text(model));
        line.append(" | Modified: ");
        line.append(model.modified_at.as_str());
        line
    }

    /// The counts of the statistics block: refreshes, total tokens and current tokens.
    pub fn statistics_counts(&self, stats: &ModelStats) -> (res: Vec<(StatisticKind, u64)>)
        ensures
            res@ == seq![
                (StatisticKind::Completions, stats.completion_count),
                (StatisticKind::TotalTokens, stats.usage.total_tokens),
                (StatisticKind::CurrentTokens, stats.current_token_count),
            ],
    {
        let mut counts: Vec<(StatisticKind, u64)> = Vec::new();
        counts.push((StatisticKind::Completions, stats.completion_count));
        counts.push((StatisticKind::TotalTokens, stats.usage.total_tokens));
        counts.push((StatisticKind::CurrentTokens, stats.current_token_count));
        assert(counts@ =~= seq![
            (StatisticKind::Completions, stats.completion_count),
            (StatisticKind::TotalTokens, stats.usage.total_tokens),
            (StatisticKind::CurrentTokens, stats.current_token_count),
        ]);
        counts
    }

    /// The lines of the token breakdown.
    pub fn token_breakdown(&self, usage: &Usage) -> (res: Vec<(TokenKind, u64)>)
        ensures
            res@ == breakdown_of(*usage),
    {
        let mut lines: Vec<(TokenKind, u64)> = Vec::new();
        if let Some(prompt_tokens) = usage.prompt_tokens {
            lines.push((TokenKind::Prompt, prompt_tokens));
        }
        if let Some(completion_tokens) = usage.completion_tokens {
            lines.push((TokenKind::Completion, completion_tokens));
        }
        assert(lines@ =~= breakdown_of(*usage));
        lines
    }
}

} // verus!
