/// Gregorian calendar dates and Chronological Julian Day Numbers (CJDN).
pub mod julian;
/// Names of months and weekdays.
pub mod names;
/// Facts about Gregorian dates that come from chrono.
mod civil;
/// Text replacement and decimal numbers.
pub mod text;
/// The Umm al-Qura month table and the conversions that use it.
pub mod umalqura;
/// Dates seen in both calendars, and days between them.
pub mod date;

pub use date::{DateError, Duration, HijriDate};
