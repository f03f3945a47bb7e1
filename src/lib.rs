//! Decoding of NMEA 2000 navigation data from Yacht Devices raw frame logs:
//! frame parsing, fast-packet reassembly, value decoding and the navigation state.
pub mod types;
pub mod text;
pub mod yd;
pub mod messages;
pub mod message;
pub mod parser;
pub mod state;
pub mod report;
