//! Grusindeks: how good is it to ride gravel, as a score from 0 to 100.
//!
//! The library holds the rules: scoring and penalties, day and hour rollups,
//! the choice of ride windows, the handling of upstream weather data, the
//! cache protocol, and the text of the reports. Numbers that come out of
//! floating-point formulas enter as readings (see [`reading`]) or as finished
//! sub-scores and texts.
pub mod aggregate;
pub mod cache;
pub mod chronology;
pub mod client;
pub mod command;
pub mod conditions;
pub mod config;
pub mod daily;
pub mod drying;
pub mod felt_temp;
pub mod frost;
pub mod lang;
pub mod locationforecast;
pub mod metalerts;
pub mod nowcast;
pub mod output;
pub mod rain_history;
pub mod reading;
pub mod run;
pub mod score;
pub mod sun;
pub mod text;
pub mod theme;
pub mod time;
pub mod windows;
