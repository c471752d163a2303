//! Chat channels.

pub mod message;
pub mod weixin;
