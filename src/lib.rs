//! Ranking core of a web search engine: bang redirects, optic boosts and
//! signal bookkeeping, with their contracts.
pub mod bangs;
pub mod boost;
pub mod computer;
pub mod signal;
