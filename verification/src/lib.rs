//! Credential and session security core of an employee time-tracking backend.
//!
//! The library covers password storage (salt/pepper/iterated hashing), the
//! salt lifecycle, and bearer-token issuance and verification, together with
//! the data model and pure helpers the surrounding service is built on.
//! All I/O (the relational store, the HTTP surface) lives outside the
//! library and hands plain values in and out.

pub mod auth;
pub mod config;
pub mod decimal;
pub mod graphql;
pub mod models;
pub mod pdf;
pub mod security;
pub mod service;
pub mod time_utils;
