//! The rule language: its limits and spellings, call syntax, value sources, action families,
//! deletion targets, URL handling, and source migration.
pub mod action;
pub mod action_parser;
pub mod amounts;
pub mod bounded_replace;
pub mod compiled;
pub mod condition;
pub mod condition_eval;
pub mod condition_parser;
pub mod conditions;
pub mod delete;
pub mod error;
pub mod evaluate;
pub mod explain;
pub mod explain_action;
pub mod family;
pub mod glob;
pub mod host_pool;
pub mod index;
pub mod hints;
pub mod language;
pub mod lexer;
pub mod lint;
pub mod matching;
pub mod regex_matcher;
pub mod replace_pattern;
pub mod rewrites;
pub mod rule_index;
pub mod rule_parser;
pub mod ruleset;
pub mod migration;
pub mod mock;
pub mod snapshot;
pub mod syntax;
pub mod template_check;
pub mod tls;
pub mod transforms;
pub mod url;
pub mod value;
