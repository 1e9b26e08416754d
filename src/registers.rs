//! Command opcodes of the panel controller.
use vstd::prelude::*;

verus! {

pub const PANEL_SET_REGISTER: u8 = 0x00;

pub const POWER_SET_REGISTER: u8 = 0x01;

pub const POWER_OFF_SEQ_SET_REGISTER: u8 = 0x03;

pub const POWER_OFF_REGISTER: u8 = 0x04;

pub const BOOSTER_SOFTSTART_REGISTER: u8 = 0x06;

pub const DEEP_SLEEP_REGISTER: u8 = 0x07;

pub const DATA_START_TRANS_REGISTER: u8 = 0x10;

pub const DISPLAY_REF_REGISTER: u8 = 0x12;

pub const TEMP_SENSOR_EN_REGISTER: u8 = 0x41;

pub const VCOM_DATA_INTERVAL_REGISTER: u8 = 0x50;

/// Vendor register without public documentation.
pub const VENDOR_REGISTER: u8 = 0x60;

pub const RESOLUTION_SET_REGISTER: u8 = 0x61;

/// Vendor tuning register.
pub const TUNING_REGISTER: u8 = 0xE3;

/// Data byte that confirms a deep-sleep command.
pub const DEEP_SLEEP_CHECK: u8 = 0xA5;

} // verus!
