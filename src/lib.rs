//! Verified core of an Android device companion: reading `adb` device lists
//! and process listings, parsing `logcat` lines, resolving process ids to
//! package names with a self-refreshing cache, and the per-device log
//! session as a state machine; with small Base64, token and Bluetooth scan
//! helpers beside it.

pub mod ble;
pub mod devices;
pub mod encoding;
pub mod jwt;
pub mod logline;
pub mod process_table;
pub mod resolver;
pub mod session;
pub mod text;
