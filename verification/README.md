# netcdf_reader

Verified decoding logic for scientific data readers, written in Verus.

- `src/lz4.rs` — the HDF5 LZ4 filter: size header, block framing, and the
  calls into `lz4_flex` for each block.
- `src/cf/axes.rs` — CF axis identification from a variable's attributes.
- `src/cf/time.rs` — CF calendars, time units strings, epochs (parsed with
  `chrono`) and the integer shift of an epoch.
- `src/cf/calendar.rs` — Julian and Gregorian day numbers, used to decode the
  standard calendar (Julian dates before 1582-10-15) exactly.
- `src/text.rs` — whitespace trimming, literal comparison and substring
  search on characters, and the case-mapping calls into `std`.
- `src/types.rs` — the variable and attribute metadata that the CF helpers read.
- `app/lib.rs` — floating-point time decoding into `chrono::DateTime<Utc>`.
