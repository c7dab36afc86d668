//! Report ids of the HID interfaces a keyboard device may expose.

use vstd::prelude::*;

verus! {

/// The report id of each HID interface, numbered from zero in this order.
#[derive(Clone, Copy, Debug, Default, PartialEq, Eq)]
pub enum HIDReportId {
    #[default]
    NoId,
    Mouse,
    Keyboard,
    RawHID,
    ConsumerControl,
    SystemControl,
    Gamepad,
    MouseAbsolute,
    NKROKeyboard,
}

} // verus!
