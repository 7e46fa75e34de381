pub mod ollama_stats;
