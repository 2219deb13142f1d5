//! Verified core of a passive Zoom traffic classifier: parsing of Zoom's
//! SFU and Media Encapsulation headers, classification by the Media Type
//! byte, the published Zoom server address/port filter, and the per-packet
//! record that the capture tool writes out.
pub mod capture_logic;
pub mod common;
