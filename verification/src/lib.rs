pub mod blacklist;
pub mod chain;
pub mod commands;
pub mod data_set;
pub mod download;
pub mod handler;
pub mod markov;
pub mod memes;
pub mod message_filter;
pub mod numbers;
pub mod options;
pub mod patterns;
pub mod queue;
pub mod random;
pub mod tags;
pub mod text;
pub mod voice;
