//! Remote trackpad core: turns pre-classified gestures from a touch surface into
//! ordered actions on one virtual input device, builds the clipboard items that
//! are fanned out to every connected session, and keeps the index of uploaded
//! files with its expiry rule.

pub mod action;
pub mod event;
pub mod translate;
pub mod clipboard;
pub mod files;
pub mod session;
