//! Rivets: a Git-friendly issue tracker whose domain rules are verified.

pub mod text;
pub mod sorting;
pub mod domain;
pub mod label;
pub mod relationship;
pub mod resource;
pub mod issue;
pub mod update;
pub mod query;
pub mod id_generation;
pub mod outside;
pub mod error;
pub mod init;
pub mod validators;
pub mod reporting;
pub mod output;
pub mod tree;
pub mod render;
pub mod cli;
pub mod commands;
pub mod config;
