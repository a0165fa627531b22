//! Human-readable presentation: localized labels, the SMART projection and
//! the text rendering of disk lists and details.

pub mod locale;
pub mod smart_catalog;
pub mod smart_view;
pub mod output;
pub mod tui;
