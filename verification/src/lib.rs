//! Branch listing and interactive cleanup state for `deadbranch`.
pub mod text;
pub mod clock;
pub mod branch;
pub mod git;
pub mod order;
pub mod tui;
pub mod view;
pub mod session;
