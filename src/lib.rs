//! Decoder for FIDE TRF16 tournament report files.
//!
//! The text of a report is handed in whole to [`Situation::decode`]; player
//! records (data identification number `001`) are decoded into typed
//! fields, each of which keeps apart a blank column (`Ok(None)`), a
//! malformed one (`Err`) and a decoded value (`Ok(Some(..))`).
pub mod error;
pub mod fields;
pub mod player;
pub mod report;
pub mod round;
pub mod text;
pub mod utils;

pub use error::{FloatErrorKind, IntErrorKind, TRFError};
pub use fields::{DataIdentificationNumber, Date, Name, Sex, StartingRankNumber, Title};
pub use player::{Points, Section};
pub use report::{Advisory, RecordKind, Situation};
pub use round::{
    ByeRoundResult, Color, LessThanOneMoveRoundResult, NotPlayedRoundResult, PlayerRoundSection,
    RegularRoundResult, Result,
};
pub use utils::{FieldValue, parse_into, parse_number};
