//! Quotify's panel logic: single-line text editing, peak-hour rules,
//! layout heights and the small pure helpers of the tray panel.

pub mod chars;
pub mod text_edit;
pub mod peak;
pub mod layout;
pub mod views;
pub mod panel;
pub mod anim;
pub mod model;
pub mod input;
pub mod tick;
pub mod labels;
