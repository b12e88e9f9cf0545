//! CF axis identification.
//!
//! Determines the role of each coordinate variable (T, X, Y, Z) based on:
//! - The `axis` attribute (most explicit)
//! - The `standard_name` attribute (e.g., "latitude", "longitude", "time")
//! - The `units` attribute (e.g., "degrees_north", "degrees_east")
//! - The `positive` attribute for vertical axes
//!
//! Priority follows CF Conventions Table 1: axis > standard_name > units > positive.

use vstd::prelude::*;

use crate::text::{
    find, find_first, lowercase, same_text, trim, trim_ws, unicode_lowercase, unicode_uppercase,
    uppercase,
};
use crate::cf::time::{time_units_outcome, CfCalendar};
use crate::text::{find_from, found_occurs};
use crate::types::{attr_text, NcAttribute, NcVariable};

verus! {

/// The axis role of a coordinate variable.
#[derive(Debug, Clone, Copy, PartialEq, Eq, Structural)]
pub enum CfAxisType {
    /// Time axis.
    T,
    /// Longitude / easting axis.
    X,
    /// Latitude / northing axis.
    Y,
    /// Vertical axis.
    Z,
    /// Cannot be determined.
    Unknown,
}

/// The axis that a trimmed, upper-cased `axis` attribute names.
pub open spec fn axis_of_axis_value(s: Seq<char>) -> Option<CfAxisType> {
    if s == "X"@ {
        Some(CfAxisType::X)
    } else if s == "Y"@ {
        Some(CfAxisType::Y)
    } else if s == "Z"@ {
        Some(CfAxisType::Z)
    } else if s == "T"@ {
        Some(CfAxisType::T)
    } else {
        None
    }
}

/// The `standard_name` values (trimmed) that mark a vertical axis.
pub open spec fn is_vertical_standard_name(s: Seq<char>) -> bool {
    ||| s == "altitude"@
    ||| s == "height"@
    ||| s == "depth"@
    ||| s == "air_pressure"@
    ||| s == "atmosphere_hybrid_sigma_pressure_coordinate"@
    ||| s == "atmosphere_ln_pressure_coordinate"@
    ||| s == "atmosphere_sigma_coordinate"@
    ||| s == "ocean_sigma_coordinate"@
    ||| s == "ocean_s_coordinate"@
    ||| s == "ocean_double_sigma_coordinate"@
}

/// The axis that a trimmed `standard_name` attribute names.
pub open spec fn axis_of_standard_name(s: Seq<char>) -> Option<CfAxisType> {
    if s == "latitude"@ {
        Some(CfAxisType::Y)
    } else if s == "longitude"@ {
        Some(CfAxisType::X)
    } else if s == "time"@ {
        Some(CfAxisType::T)
    } else if is_vertical_standard_name(s) {
        Some(CfAxisType::Z)
    } else if s == "projection_x_coordinate"@ || s == "grid_longitude"@ {
        Some(CfAxisType::X)
    } else if s == "projection_y_coordinate"@ || s == "grid_latitude"@ {
        Some(CfAxisType::Y)
    } else {
        None
    }
}

/// Latitude units (lower-cased, trimmed).
pub open spec fn is_latitude_unit(s: Seq<char>) -> bool {
    ||| s == "degrees_north"@
    ||| s == "degree_north"@
    ||| s == "degree_n"@
    ||| s == "degrees_n"@
    ||| s == "degreen"@
    ||| s == "degreesn"@
}

/// Longitude units (lower-cased, trimmed).
pub open spec fn is_longitude_unit(s: Seq<char>) -> bool {
    ||| s == "degrees_east"@
    ||| s == "degree_east"@
    ||| s == "degree_e"@
    ||| s == "degrees_e"@
    ||| s == "degreee"@
    ||| s == "degreese"@
}

/// Pressure units (lower-cased, trimmed), a common vertical coordinate.
pub open spec fn is_pressure_unit(s: Seq<char>) -> bool {
    ||| s == "pa"@
    ||| s == "hpa"@
    ||| s == "mbar"@
    ||| s == "millibar"@
    ||| s == "bar"@
    ||| s == "atm"@
}

/// The axis that a trimmed, lower-cased `units` attribute implies.
pub open spec fn axis_of_units(s: Seq<char>) -> Option<CfAxisType> {
    if is_latitude_unit(s) {
        Some(CfAxisType::Y)
    } else if is_longitude_unit(s) {
        Some(CfAxisType::X)
    } else if find_first(s, " since "@) is Some {
        Some(CfAxisType::T)
    } else if is_pressure_unit(s) {
        Some(CfAxisType::Z)
    } else {
        None
    }
}

/// The axis that a trimmed, lower-cased `positive` attribute implies.
pub open spec fn axis_of_positive(s: Seq<char>) -> Option<CfAxisType> {
    if s == "up"@ || s == "down"@ {
        Some(CfAxisType::Z)
    } else {
        None
    }
}

/// What the `axis` attribute of these attributes says, if anything.
pub open spec fn axis_by_axis_attr(attrs: Seq<NcAttribute>) -> Option<CfAxisType> {
    match attr_text(attrs, "axis"@) {
        Some(t) => axis_of_axis_value(unicode_uppercase(trim_ws(t))),
        None => None,
    }
}

/// What the `standard_name` attribute says, if anything.
pub open spec fn axis_by_standard_name_attr(attrs: Seq<NcAttribute>) -> Option<CfAxisType> {
    match attr_text(attrs, "standard_name"@) {
        Some(t) => axis_of_standard_name(trim_ws(t)),
        None => None,
    }
}

/// What the `units` attribute says, if anything.
pub open spec fn axis_by_units_attr(attrs: Seq<NcAttribute>) -> Option<CfAxisType> {
    match attr_text(attrs, "units"@) {
        Some(t) => axis_of_units(unicode_lowercase(trim_ws(t))),
        None => None,
    }
}

/// What the `positive` attribute says, if anything.
pub open spec fn axis_by_positive_attr(attrs: Seq<NcAttribute>) -> Option<CfAxisType> {
    match attr_text(attrs, "positive"@) {
        Some(t) => axis_of_positive(unicode_lowercase(trim_ws(t))),
        None => None,
    }
}

/// The axis of a variable with these attributes: the first attribute, in
/// the order axis, standard_name, units, positive, that names one.
pub open spec fn axis_of_attributes(attrs: Seq<NcAttribute>) -> CfAxisType {
    if let Some(a) = axis_by_axis_attr(attrs) {
        a
    } else if let Some(a) = axis_by_standard_name_attr(attrs) {
        a
    } else if let Some(a) = axis_by_units_attr(attrs) {
        a
    } else if let Some(a) = axis_by_positive_attr(attrs) {
        a
    } else {
        CfAxisType::Unknown
    }
}

/// The axis named by an `axis` attribute value that is already trimmed and
/// upper-cased: "X", "Y", "Z" or "T".
pub fn axis_from_axis_value(s: &str) -> (r: Option<CfAxisType>)
    ensures
        r == axis_of_axis_value(s@),
{
    if same_text(s, "X") {
        Some(CfAxisType::X)
    } else if same_text(s, "Y") {
        Some(CfAxisType::Y)
    } else if same_text(s, "Z") {
        Some(CfAxisType::Z)
    } else if same_text(s, "T") {
        Some(CfAxisType::T)
    } else {
        None
    }
}

/// The axis named by a trimmed `standard_name` attribute value.
pub fn axis_from_standard_name(s: &str) -> (r: Option<CfAxisType>)
    ensures
        r == axis_of_standard_name(s@),
{
    if same_text(s, "latitude") {
        Some(CfAxisType::Y)
    } else if same_text(s, "longitude") {
        Some(CfAxisType::X)
    } else if same_text(s, "time") {
        Some(CfAxisType::T)
    } else if same_text(s, "altitude") || same_text(s, "height") || same_text(s, "depth")
        || same_text(s, "air_pressure") || same_text(
        s,
        "atmosphere_hybrid_sigma_pressure_coordinate",
    ) || same_text(s, "atmosphere_ln_pressure_coordinate") || same_text(
        s,
        "atmosphere_sigma_coordinate",
    ) || same_text(s, "ocean_sigma_coordinate") || same_text(s, "ocean_s_coordinate")
        || same_text(s, "ocean_double_sigma_coordinate") {
        Some(CfAxisType::Z)
    } else if same_text(s, "projection_x_coordinate") || same_text(s, "grid_longitude") {
        Some(CfAxisType::X)
    } else if same_text(s, "projection_y_coordinate") || same_text(s, "grid_latitude") {
        Some(CfAxisType::Y)
    } else {
        None
    }
}

/// The axis implied by a trimmed, lower-cased `units` attribute value:
/// latitude units, longitude units, time units (containing " since "), or
/// pressure units.
pub fn axis_from_units(s: &str) -> (r: Option<CfAxisType>)
    ensures
        r == axis_of_units(s@),
{
    if same_text(s, "degrees_north") || same_text(s, "degree_north") || same_text(s, "degree_n")
        || same_text(s, "degrees_n") || same_text(s, "degreen") || same_text(s, "degreesn") {
        return Some(CfAxisType::Y);
    }
    if same_text(s, "degrees_east") || same_text(s, "degree_east") || same_text(s, "degree_e")
        || same_text(s, "degrees_e") || same_text(s, "degreee") || same_text(s, "degreese") {
        return Some(CfAxisType::X);
    }
    if find(s, " since ").is_some() {
        return Some(CfAxisType::T);
    }
    if same_text(s, "pa") || same_text(s, "hpa") || same_text(s, "mbar") || same_text(
        s,
        "millibar",
    ) || same_text(s, "bar") || same_text(s, "atm") {
        return Some(CfAxisType::Z);
    }
    None
}

/// The axis implied by a trimmed, lower-cased `positive` attribute value:
/// "up" or "down" mark a vertical axis.
pub fn axis_from_positive(s: &str) -> (r: Option<CfAxisType>)
    ensures
        r == axis_of_positive(s@),
{
    if same_text(s, "up") || same_text(s, "down") {
        Some(CfAxisType::Z)
    } else {
        None
    }
}

/// Identify the CF axis type of a variable.
///
/// Checks attributes in CF priority order:
/// 1. `axis` attribute ("X", "Y", "Z", "T")
/// 2. `standard_name` attribute
/// 3. `units` attribute
/// 4. `positive` attribute (vertical indicator)
pub fn identify_axis(var: &NcVariable) -> (r: CfAxisType)
    ensures
        r == axis_of_attributes(var.attributes@),
{
    // 1. Explicit axis attribute (highest priority)
    if let Some(attr) = var.attribute("axis") {
        if let Some(val) = attr.value.as_string() {
            let upper = uppercase(trim(val.as_str()));
            if let Some(a) = axis_from_axis_value(upper.as_str()) {
                return a;
            }
        }
    }
    // 2. standard_name attribute
    if let Some(attr) = var.attribute("standard_name") {
        if let Some(val) = attr.value.as_string() {
            if let Some(a) = axis_from_standard_name(trim(val.as_str())) {
                return a;
            }
        }
    }
    // 3. units attribute
    if let Some(attr) = var.attribute("units") {
        if let Some(val) = attr.value.as_string() {
            let lower = lowercase(trim(val.as_str()));
            if let Some(a) = axis_from_units(lower.as_str()) {
                return a;
            }
        }
    }
    // 4. positive attribute (vertical axis indicator)
    if let Some(attr) = var.attribute("positive") {
        if let Some(val) = attr.value.as_string() {
            let lower = lowercase(trim(val.as_str()));
            if let Some(a) = axis_from_positive(lower.as_str()) {
                return a;
            }
        }
    }
    CfAxisType::Unknown
}

/// An `axis` attribute that names an axis decides the result, whatever the
/// other attributes say.
pub proof fn axis_attribute_takes_precedence(attrs: Seq<NcAttribute>, a: CfAxisType)
    requires
        axis_by_axis_attr(attrs) == Some(a),
    ensures
        axis_of_attributes(attrs) == a,
{
}

/// Without a recognised `axis` attribute, a recognised `standard_name`
/// decides the result, whatever the `units` and `positive` attributes say.
pub proof fn standard_name_precedes_units(attrs: Seq<NcAttribute>, a: CfAxisType)
    requires
        axis_by_axis_attr(attrs) is None,
        axis_by_standard_name_attr(attrs) == Some(a),
    ensures
        axis_of_attributes(attrs) == a,
{
}

/// A variable that no attribute places on an axis is `Unknown`.
pub proof fn unknown_without_clues(attrs: Seq<NcAttribute>)
    requires
        axis_by_axis_attr(attrs) is None,
        axis_by_standard_name_attr(attrs) is None,
        axis_by_units_attr(attrs) is None,
        axis_by_positive_attr(attrs) is None,
    ensures
        axis_of_attributes(attrs) == CfAxisType::Unknown,
{
}

/// Time units that `parse_time_units` accepts, found in the `units`
/// attribute of a variable without a recognised `axis` or `standard_name`,
/// make it a time axis.
pub proof fn time_units_mark_time_axis(attrs: Seq<NcAttribute>, units: Seq<char>, calendar: CfCalendar)
    requires
        axis_by_axis_attr(attrs) is None,
        axis_by_standard_name_attr(attrs) is None,
        attr_text(attrs, "units"@) == Some(units),
        time_units_outcome(units, calendar) is Ok,
    ensures
        axis_of_attributes(attrs) == CfAxisType::T,
{
    let lower = unicode_lowercase(trim_ws(units));
    let i = find_first(lower, " since "@).unwrap();
    found_occurs(lower, " since "@, 0, i);
    reveal_strlit(" since ");
    assert(lower[i] == lower.subrange(i, i + 7)[0]);
    assert(lower[i] == ' ');
    reveal_strlit("degrees_north");
    reveal_strlit("degree_north");
    reveal_strlit("degree_n");
    reveal_strlit("degrees_n");
    reveal_strlit("degreen");
    reveal_strlit("degreesn");
    reveal_strlit("degrees_east");
    reveal_strlit("degree_east");
    reveal_strlit("degree_e");
    reveal_strlit("degrees_e");
    reveal_strlit("degreee");
    reveal_strlit("degreese");
    // none of the latitude or longitude units holds a space
    assert(!is_latitude_unit(lower) && !is_longitude_unit(lower));
}

/// The `axis` attribute, trimmed and upper-cased, names the axis itself:
/// "X", "Y", "Z" and "T" place the variable on that axis, whatever the
/// other attributes say.
pub proof fn axis_values_name_axes(attrs: Seq<NcAttribute>, t: Seq<char>)
    requires
        attr_text(attrs, "axis"@) == Some(t),
    ensures
        unicode_uppercase(trim_ws(t)) == "X"@ ==> axis_of_attributes(attrs) == CfAxisType::X,
        unicode_uppercase(trim_ws(t)) == "Y"@ ==> axis_of_attributes(attrs) == CfAxisType::Y,
        unicode_uppercase(trim_ws(t)) == "Z"@ ==> axis_of_attributes(attrs) == CfAxisType::Z,
        unicode_uppercase(trim_ws(t)) == "T"@ ==> axis_of_attributes(attrs) == CfAxisType::T,
{
    let u = unicode_uppercase(trim_ws(t));
    assert(u == "X"@ ==> axis_of_axis_value(u) == Some(CfAxisType::X)) by {
        reveal_strlit("X");
        assert("X"@.len() == 1);
    }
    assert(u == "Y"@ ==> axis_of_axis_value(u) == Some(CfAxisType::Y)) by {
        reveal_strlit("X");
        assert("X"@.len() == 1);
        reveal_strlit("Y");
        assert("Y"@.len() == 1);
        assert("Y"@[0] == 'Y' && "X"@[0] == 'X');
    }
    assert(u == "Z"@ ==> axis_of_axis_value(u) == Some(CfAxisType::Z)) by {
        reveal_strlit("X");
        assert("X"@.len() == 1);
        reveal_strlit("Y");
        assert("Y"@.len() == 1);
        reveal_strlit("Z");
        assert("Z"@.len() == 1);
        assert("Z"@[0] == 'Z' && "X"@[0] == 'X');
        assert("Z"@[0] == 'Z' && "Y"@[0] == 'Y');
    }
    assert(u == "T"@ ==> axis_of_axis_value(u) == Some(CfAxisType::T)) by {
        reveal_strlit("X");
        assert("X"@.len() == 1);
        reveal_strlit("Y");
        assert("Y"@.len() == 1);
        reveal_strlit("Z");
        assert("Z"@.len() == 1);
        reveal_strlit("T");
        assert("T"@.len() == 1);
        assert("T"@[0] == 'T' && "X"@[0] == 'X');
        assert("T"@[0] == 'T' && "Y"@[0] == 'Y');
        assert("T"@[0] == 'T' && "Z"@[0] == 'Z');
    }
}

/// Standard names place a variable without a recognised `axis` attribute:
/// "longitude", "projection_x_coordinate" and "grid_longitude" on the X
/// axis, "latitude", "projection_y_coordinate" and "grid_latitude" on the Y
/// axis, the names of vertical coordinates (heights, depths, pressure and
/// sigma coordinates) on the Z axis, and "time" on the T axis.
pub proof fn standard_names_place_axes(attrs: Seq<NcAttribute>, t: Seq<char>)
    requires
        axis_by_axis_attr(attrs) is None,
        attr_text(attrs, "standard_name"@) == Some(t),
    ensures
        trim_ws(t) == "longitude"@ || trim_ws(t) == "projection_x_coordinate"@
            || trim_ws(t) == "grid_longitude"@
            ==> axis_of_attributes(attrs) == CfAxisType::X,
        trim_ws(t) == "latitude"@ || trim_ws(t) == "projection_y_coordinate"@
            || trim_ws(t) == "grid_latitude"@
            ==> axis_of_attributes(attrs) == CfAxisType::Y,
        trim_ws(t) == "altitude"@ || trim_ws(t) == "height"@ || trim_ws(t) == "depth"@
            || trim_ws(t) == "air_pressure"@
            || trim_ws(t) == "atmosphere_hybrid_sigma_pressure_coordinate"@
            || trim_ws(t) == "atmosphere_ln_pressure_coordinate"@
            || trim_ws(t) == "atmosphere_sigma_coordinate"@
            || trim_ws(t) == "ocean_sigma_coordinate"@ || trim_ws(t) == "ocean_s_coordinate"@
            || trim_ws(t) == "ocean_double_sigma_coordinate"@
            ==> axis_of_attributes(attrs) == CfAxisType::Z,
        trim_ws(t) == "time"@
            ==> axis_of_attributes(attrs) == CfAxisType::T,
{
    let n = trim_ws(t);
    assert(n == "latitude"@ ==> axis_of_standard_name(n) == Some(CfAxisType::Y)) by {
        reveal_strlit("latitude");
        assert("latitude"@.len() == 8);
    }
    assert(n == "longitude"@ ==> axis_of_standard_name(n) == Some(CfAxisType::X)) by {
        reveal_strlit("latitude");
        assert("latitude"@.len() == 8);
        reveal_strlit("longitude");
        assert("longitude"@.len() == 9);
    }
    assert(n == "time"@ ==> axis_of_standard_name(n) == Some(CfAxisType::T)) by {
        reveal_strlit("latitude");
        assert("latitude"@.len() == 8);
        reveal_strlit("longitude");
        assert("longitude"@.len() == 9);
        reveal_strlit("time");
        assert("time"@.len() == 4);
    }
    assert(n == "altitude"@ || n == "height"@ || n == "depth"@ || n == "air_pressure"@
        || n == "atmosphere_hybrid_sigma_pressure_coordinate"@
        || n == "atmosphere_ln_pressure_coordinate"@ || n == "atmosphere_sigma_coordinate"@
        || n == "ocean_sigma_coordinate"@ || n == "ocean_s_coordinate"@
        || n == "ocean_double_sigma_coordinate"@ ==> axis_of_standard_name(n) == Some(CfAxisType::Z)) by {
        reveal_strlit("latitude");
        assert("latitude"@.len() == 8);
        reveal_strlit("longitude");
        assert("longitude"@.len() == 9);
        reveal_strlit("time");
        assert("time"@.len() == 4);
        reveal_strlit("altitude");
        assert("altitude"@.len() == 8);
        reveal_strlit("height");
        assert("height"@.len() == 6);
        reveal_strlit("depth");
        assert("depth"@.len() == 5);
        reveal_strlit("air_pressure");
        assert("air_pressure"@.len() == 12);
        reveal_strlit("atmosphere_hybrid_sigma_pressure_coordinate");
        assert("atmosphere_hybrid_sigma_pressure_coordinate"@.len() == 43);
        reveal_strlit("atmosphere_ln_pressure_coordinate");
        assert("atmosphere_ln_pressure_coordinate"@.len() == 33);
        reveal_strlit("atmosphere_sigma_coordinate");
        assert("atmosphere_sigma_coordinate"@.len() == 27);
        reveal_strlit("ocean_sigma_coordinate");
        assert("ocean_sigma_coordinate"@.len() == 22);
        reveal_strlit("ocean_s_coordinate");
        assert("ocean_s_coordinate"@.len() == 18);
        reveal_strlit("ocean_double_sigma_coordinate");
        assert("ocean_double_sigma_coordinate"@.len() == 29);
        assert("altitude"@[0] == 'a' && "latitude"@[0] == 'l');
    }
    assert(n == "projection_x_coordinate"@
        || n == "grid_longitude"@ ==> axis_of_standard_name(n) == Some(CfAxisType::X)) by {
        reveal_strlit("latitude");
        assert("latitude"@.len() == 8);
        reveal_strlit("longitude");
        assert("longitude"@.len() == 9);
        reveal_strlit("time");
        assert("time"@.len() == 4);
        reveal_strlit("altitude");
        assert("altitude"@.len() == 8);
        reveal_strlit("height");
        assert("height"@.len() == 6);
        reveal_strlit("depth");
        assert("depth"@.len() == 5);
        reveal_strlit("air_pressure");
        assert("air_pressure"@.len() == 12);
        reveal_strlit("atmosphere_hybrid_sigma_pressure_coordinate");
        assert("atmosphere_hybrid_sigma_pressure_coordinate"@.len() == 43);
        reveal_strlit("atmosphere_ln_pressure_coordinate");
        assert("atmosphere_ln_pressure_coordinate"@.len() == 33);
        reveal_strlit("atmosphere_sigma_coordinate");
        assert("atmosphere_sigma_coordinate"@.len() == 27);
        reveal_strlit("ocean_sigma_coordinate");
        assert("ocean_sigma_coordinate"@.len() == 22);
        reveal_strlit("ocean_s_coordinate");
        assert("ocean_s_coordinate"@.len() == 18);
        reveal_strlit("ocean_double_sigma_coordinate");
        assert("ocean_double_sigma_coordinate"@.len() == 29);
        reveal_strlit("projection_x_coordinate");
        assert("projection_x_coordinate"@.len() == 23);
        reveal_strlit("grid_longitude");
        assert("grid_longitude"@.len() == 14);
    }
    assert(n == "projection_y_coordinate"@
        || n == "grid_latitude"@ ==> axis_of_standard_name(n) == Some(CfAxisType::Y)) by {
        reveal_strlit("latitude");
        assert("latitude"@.len() == 8);
        reveal_strlit("longitude");
        assert("longitude"@.len() == 9);
        reveal_strlit("time");
        assert("time"@.len() == 4);
        reveal_strlit("altitude");
        assert("altitude"@.len() == 8);
        reveal_strlit("height");
        assert("height"@.len() == 6);
        reveal_strlit("depth");
        assert("depth"@.len() == 5);
        reveal_strlit("air_pressure");
        assert("air_pressure"@.len() == 12);
        reveal_strlit("atmosphere_hybrid_sigma_pressure_coordinate");
        assert("atmosphere_hybrid_sigma_pressure_coordinate"@.len() == 43);
        reveal_strlit("atmosphere_ln_pressure_coordinate");
        assert("atmosphere_ln_pressure_coordinate"@.len() == 33);
        reveal_strlit("atmosphere_sigma_coordinate");
        assert("atmosphere_sigma_coordinate"@.len() == 27);
        reveal_strlit("ocean_sigma_coordinate");
        assert("ocean_sigma_coordinate"@.len() == 22);
        reveal_strlit("ocean_s_coordinate");
        assert("ocean_s_coordinate"@.len() == 18);
        reveal_strlit("ocean_double_sigma_coordinate");
        assert("ocean_double_sigma_coordinate"@.len() == 29);
        reveal_strlit("projection_x_coordinate");
        assert("projection_x_coordinate"@.len() == 23);
        reveal_strlit("grid_longitude");
        assert("grid_longitude"@.len() == 14);
        reveal_strlit("projection_y_coordinate");
        assert("projection_y_coordinate"@.len() == 23);
        reveal_strlit("grid_latitude");
        assert("grid_latitude"@.len() == 13);
        assert("projection_y_coordinate"@[11] == 'y' && "projection_x_coordinate"@[11] == 'x');
    }
}

/// Units place a variable without a recognised `axis` or `standard_name`
/// attribute, read trimmed and lower-cased: degrees east on the X axis,
/// degrees north on the Y axis, and the pressure units "pa", "hpa", "mbar",
/// "millibar", "bar" and "atm" on the Z axis.
pub proof fn units_place_axes(attrs: Seq<NcAttribute>, t: Seq<char>)
    requires
        axis_by_axis_attr(attrs) is None,
        axis_by_standard_name_attr(attrs) is None,
        attr_text(attrs, "units"@) == Some(t),
    ensures
        unicode_lowercase(trim_ws(t)) == "degrees_east"@
            || unicode_lowercase(trim_ws(t)) == "degree_east"@
            || unicode_lowercase(trim_ws(t)) == "degree_e"@
            || unicode_lowercase(trim_ws(t)) == "degrees_e"@
            || unicode_lowercase(trim_ws(t)) == "degreee"@
            || unicode_lowercase(trim_ws(t)) == "degreese"@
            ==> axis_of_attributes(attrs) == CfAxisType::X,
        unicode_lowercase(trim_ws(t)) == "degrees_north"@
            || unicode_lowercase(trim_ws(t)) == "degree_north"@
            || unicode_lowercase(trim_ws(t)) == "degree_n"@
            || unicode_lowercase(trim_ws(t)) == "degrees_n"@
            || unicode_lowercase(trim_ws(t)) == "degreen"@
            || unicode_lowercase(trim_ws(t)) == "degreesn"@
            ==> axis_of_attributes(attrs) == CfAxisType::Y,
        unicode_lowercase(trim_ws(t)) == "pa"@ || unicode_lowercase(trim_ws(t)) == "hpa"@
            || unicode_lowercase(trim_ws(t)) == "mbar"@
            || unicode_lowercase(trim_ws(t)) == "millibar"@
            || unicode_lowercase(trim_ws(t)) == "bar"@ || unicode_lowercase(trim_ws(t)) == "atm"@
            ==> axis_of_attributes(attrs) == CfAxisType::Z,
{
    let u = unicode_lowercase(trim_ws(t));
    assert(u == "degrees_north"@ || u == "degree_north"@ || u == "degree_n"@ || u == "degrees_n"@
        || u == "degreen"@ || u == "degreesn"@ ==> axis_of_units(u) == Some(CfAxisType::Y)) by {
        reveal_strlit("degrees_north");
        assert("degrees_north"@.len() == 13);
        reveal_strlit("degree_north");
        assert("degree_north"@.len() == 12);
        reveal_strlit("degree_n");
        assert("degree_n"@.len() == 8);
        reveal_strlit("degrees_n");
        assert("degrees_n"@.len() == 9);
        reveal_strlit("degreen");
        assert("degreen"@.len() == 7);
        reveal_strlit("degreesn");
        assert("degreesn"@.len() == 8);
    }
    assert(u == "degrees_east"@ || u == "degree_east"@ || u == "degree_e"@ || u == "degrees_e"@
        || u == "degreee"@ || u == "degreese"@ ==> axis_of_units(u) == Some(CfAxisType::X)) by {
        reveal_strlit("degrees_north");
        assert("degrees_north"@.len() == 13);
        reveal_strlit("degree_north");
        assert("degree_north"@.len() == 12);
        reveal_strlit("degree_n");
        assert("degree_n"@.len() == 8);
        reveal_strlit("degrees_n");
        assert("degrees_n"@.len() == 9);
        reveal_strlit("degreen");
        assert("degreen"@.len() == 7);
        reveal_strlit("degreesn");
        assert("degreesn"@.len() == 8);
        reveal_strlit("degrees_east");
        assert("degrees_east"@.len() == 12);
        reveal_strlit("degree_east");
        assert("degree_east"@.len() == 11);
        reveal_strlit("degree_e");
        assert("degree_e"@.len() == 8);
        reveal_strlit("degrees_e");
        assert("degrees_e"@.len() == 9);
        reveal_strlit("degreee");
        assert("degreee"@.len() == 7);
        reveal_strlit("degreese");
        assert("degreese"@.len() == 8);
        assert("degrees_east"@[6] == 's' && "degree_north"@[6] == '_');
        assert("degree_e"@[7] == 'e' && "degree_n"@[7] == 'n');
        assert("degree_e"@[6] == '_' && "degreesn"@[6] == 's');
        assert("degrees_e"@[8] == 'e' && "degrees_n"@[8] == 'n');
        assert("degreee"@[6] == 'e' && "degreen"@[6] == 'n');
        assert("degreese"@[6] == 's' && "degree_n"@[6] == '_');
        assert("degreese"@[7] == 'e' && "degreesn"@[7] == 'n');
    }
    assert(u == "pa"@ || u == "hpa"@ || u == "mbar"@ || u == "millibar"@ || u == "bar"@
        || u == "atm"@ ==> axis_of_units(u) == Some(CfAxisType::Z)) by {
        reveal_strlit("degrees_north");
        assert("degrees_north"@.len() == 13);
        reveal_strlit("degree_north");
        assert("degree_north"@.len() == 12);
        reveal_strlit("degree_n");
        assert("degree_n"@.len() == 8);
        reveal_strlit("degrees_n");
        assert("degrees_n"@.len() == 9);
        reveal_strlit("degreen");
        assert("degreen"@.len() == 7);
        reveal_strlit("degreesn");
        assert("degreesn"@.len() == 8);
        reveal_strlit("degrees_east");
        assert("degrees_east"@.len() == 12);
        reveal_strlit("degree_east");
        assert("degree_east"@.len() == 11);
        reveal_strlit("degree_e");
        assert("degree_e"@.len() == 8);
        reveal_strlit("degrees_e");
        assert("degrees_e"@.len() == 9);
        reveal_strlit("degreee");
        assert("degreee"@.len() == 7);
        reveal_strlit("degreese");
        assert("degreese"@.len() == 8);
        reveal_strlit("pa");
        assert("pa"@.len() == 2);
        reveal_strlit("hpa");
        assert("hpa"@.len() == 3);
        reveal_strlit("mbar");
        assert("mbar"@.len() == 4);
        reveal_strlit("millibar");
        assert("millibar"@.len() == 8);
        reveal_strlit("bar");
        assert("bar"@.len() == 3);
        reveal_strlit("atm");
        assert("atm"@.len() == 3);
        reveal_strlit(" since ");
        assert(" since "@.len() == 7);
        assert("millibar"@[0] == 'm' && "degree_n"@[0] == 'd');
        assert("millibar"@[0] == 'm' && "degreesn"@[0] == 'd');
        assert("millibar"@[0] == 'm' && "degree_e"@[0] == 'd');
        assert("millibar"@[0] == 'm' && "degreese"@[0] == 'd');
        if u == "millibar"@ {
            assert("millibar"@[0] == 'm' && "millibar"@[1] == 'i' && " since "@[0] == ' ');
            assert(u.subrange(0, 7)[0] == u[0] && u.subrange(1, 8)[0] == u[1]);
            assert(find_from(u, " since "@, 2) is None);
            assert(find_from(u, " since "@, 1) is None);
        }
        if u == "pa"@ || u == "hpa"@ || u == "mbar"@ || u == "millibar"@ || u == "bar"@ || u
            == "atm"@ {
            assert(find_first(u, " since "@) is None);
        }
    }
}

/// A `positive` attribute of "up" or "down" (trimmed, lower-cased) marks a
/// vertical axis where no other attribute places the variable.
pub proof fn positive_marks_vertical_axis(attrs: Seq<NcAttribute>, t: Seq<char>)
    requires
        axis_by_axis_attr(attrs) is None,
        axis_by_standard_name_attr(attrs) is None,
        axis_by_units_attr(attrs) is None,
        attr_text(attrs, "positive"@) == Some(t),
    ensures
        unicode_lowercase(trim_ws(t)) == "up"@ || unicode_lowercase(trim_ws(t)) == "down"@
            ==> axis_of_attributes(attrs) == CfAxisType::Z,
{
}

} // verus!
