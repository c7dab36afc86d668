//! Keyboard report state engine for USB HID keyboards.
//!
//! Each keyboard variant keeps the report that press and release work on and
//! the last report that reached the host, and says which report to send next
//! so that a host applying each report as it arrives never sees a state that
//! the keyboard was not in.

pub mod hid_settings;
pub mod hstderr;
pub mod keyboard;
pub mod utils;

pub use hid_settings::HIDReportId;
pub use hstderr::HStderr;
pub use keyboard::boot;
pub use keyboard::media::{self, MediaKeyboard};
pub use keyboard::nkro::{self, NKROKeyboard, NKROKeyboardReport};
pub use keyboard::system_control;
pub use keyboard::{
    is_media, is_modifier, is_printable, is_system_control, key_to_index,
    key_to_modifier_bitfield, key_to_printable_bitfield, KeyboardReport, Keycodes, ReportState,
};
pub use utils::{sort_keycodes, xor_swap};
