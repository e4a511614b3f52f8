//! The decision core of an agent server: conversion of protocol messages, and
//! the mailbox that persists, claims, runs, retries and reconciles run
//! dispatches.

pub mod activation;
pub mod delivery;
pub mod dispatch;
pub mod error;
pub mod ids;
pub mod json;
pub mod lists;
pub mod mailbox;
pub mod message;
pub mod message_convert;
pub mod run;
pub mod runtime;
pub mod text;
