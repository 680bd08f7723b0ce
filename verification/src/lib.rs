//! Verified core of a shared message-board ("yosegaki") web application.
pub mod auth;
pub mod canvas;
pub mod codec;
pub mod contribution;
pub mod crop;
pub mod decimal;
pub mod download;
pub mod text;
pub mod theme;
pub mod wrap;
