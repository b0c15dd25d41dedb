pub mod robert2;
pub mod random;
pub mod random_only_play;
pub mod cheater;
pub mod chatgpt;
pub mod gemini;
