//! CF Conventions support for NetCDF files.
//!
//! - **Axis identification** (`axes`): determines coordinate variable roles
//!   (T, X, Y, Z) from the `axis`, `standard_name`, `units` and `positive`
//!   attributes.
//! - **Time decoding** (`time`): parses CF time units strings and shifts
//!   their epoch by an integer offset, exactly on the standard (mixed
//!   Julian/Gregorian) calendar.
//! - **Calendars** (`calendar`): day numbers of Julian and Gregorian dates.

pub mod axes;
pub mod calendar;
pub mod time;
