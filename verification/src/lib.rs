//! Control of Sennheiser/Sonova Bluetooth headphones: device discovery over
//! BlueZ, AVRCP volume, battery level, and the GAIA control protocol (ANC,
//! transparency, EQ and the rest).

pub mod battery_ble;
pub mod bluez;
pub mod cli;
pub mod commands;
pub mod gaia;
pub mod hex;
pub mod letters;
pub mod panel;
pub mod raw;
pub mod report;
pub mod text;
pub mod transport;
