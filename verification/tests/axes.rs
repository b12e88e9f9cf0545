use netcdf_reader::cf::axes::{
    axis_from_axis_value, axis_from_positive, axis_from_standard_name, axis_from_units,
    identify_axis, CfAxisType,
};
use netcdf_reader::types::{NcAttrValue, NcAttribute, NcType, NcVariable};

fn make_var(attrs: Vec<NcAttribute>) -> NcVariable {
    NcVariable {
        name: "test".into(),
        dimensions: vec![],
        dtype: NcType::Float,
        attributes: attrs,
        data_offset: 0,
        _data_size: 0,
        is_record_var: false,
        record_size: 0,
    }
}

fn text_attr(name: &str, value: &str) -> NcAttribute {
    NcAttribute {
        name: name.into(),
        value: NcAttrValue::Chars(value.into()),
    }
}

#[test]
fn test_axis_attribute() {
    let var = make_var(vec![NcAttribute {
        name: "axis".into(),
        value: NcAttrValue::Chars("X".into()),
    }]);
    assert_eq!(identify_axis(&var), CfAxisType::X);
}

#[test]
fn test_standard_name_latitude() {
    let var = make_var(vec![NcAttribute {
        name: "standard_name".into(),
        value: NcAttrValue::Chars("latitude".into()),
    }]);
    assert_eq!(identify_axis(&var), CfAxisType::Y);
}

#[test]
fn test_standard_name_time() {
    let var = make_var(vec![NcAttribute {
        name: "standard_name".into(),
        value: NcAttrValue::Chars("time".into()),
    }]);
    assert_eq!(identify_axis(&var), CfAxisType::T);
}

#[test]
fn test_units_degrees_north() {
    let var = make_var(vec![NcAttribute {
        name: "units".into(),
        value: NcAttrValue::Chars("degrees_north".into()),
    }]);
    assert_eq!(identify_axis(&var), CfAxisType::Y);
}

#[test]
fn test_units_time_since() {
    let var = make_var(vec![NcAttribute {
        name: "units".into(),
        value: NcAttrValue::Chars("days since 1970-01-01".into()),
    }]);
    assert_eq!(identify_axis(&var), CfAxisType::T);
}

#[test]
fn test_positive_up() {
    let var = make_var(vec![NcAttribute {
        name: "positive".into(),
        value: NcAttrValue::Chars("up".into()),
    }]);
    assert_eq!(identify_axis(&var), CfAxisType::Z);
}

#[test]
fn test_unknown() {
    let var = make_var(vec![]);
    assert_eq!(identify_axis(&var), CfAxisType::Unknown);
}

#[test]
fn test_axis_takes_precedence() {
    // axis="X" should win over standard_name="latitude"
    let var = make_var(vec![
        NcAttribute {
            name: "axis".into(),
            value: NcAttrValue::Chars("X".into()),
        },
        NcAttribute {
            name: "standard_name".into(),
            value: NcAttrValue::Chars("latitude".into()),
        },
    ]);
    assert_eq!(identify_axis(&var), CfAxisType::X);
}

#[test]
fn axis_value_is_trimmed_and_upper_cased() {
    let var = make_var(vec![text_attr("axis", "  y \n")]);
    assert_eq!(identify_axis(&var), CfAxisType::Y);
    let var = make_var(vec![text_attr("axis", "t")]);
    assert_eq!(identify_axis(&var), CfAxisType::T);
}

#[test]
fn unrecognised_axis_falls_through_to_standard_name() {
    let var = make_var(vec![text_attr("axis", "W"), text_attr("standard_name", "depth")]);
    assert_eq!(identify_axis(&var), CfAxisType::Z);
}

#[test]
fn standard_name_precedes_units_and_positive() {
    let var = make_var(vec![
        text_attr("positive", "down"),
        text_attr("units", "degrees_east"),
        text_attr("standard_name", "grid_latitude"),
    ]);
    assert_eq!(identify_axis(&var), CfAxisType::Y);
}

#[test]
fn units_precede_positive() {
    let var = make_var(vec![text_attr("positive", "up"), text_attr("units", "Degrees_East")]);
    assert_eq!(identify_axis(&var), CfAxisType::X);
}

#[test]
fn units_are_lower_cased() {
    let var = make_var(vec![text_attr("units", " HOURS SINCE 2000-01-01 ")]);
    assert_eq!(identify_axis(&var), CfAxisType::T);
    let var = make_var(vec![text_attr("units", "hPa")]);
    assert_eq!(identify_axis(&var), CfAxisType::Z);
}

#[test]
fn positive_is_lower_cased() {
    let var = make_var(vec![text_attr("positive", " DOWN")]);
    assert_eq!(identify_axis(&var), CfAxisType::Z);
    let var = make_var(vec![text_attr("positive", "sideways")]);
    assert_eq!(identify_axis(&var), CfAxisType::Unknown);
}

#[test]
fn numeric_attribute_is_ignored() {
    let var = make_var(vec![NcAttribute {
        name: "axis".into(),
        value: NcAttrValue::Ints(vec![1]),
    }]);
    assert_eq!(identify_axis(&var), CfAxisType::Unknown);
}

#[test]
fn first_attribute_of_a_name_counts() {
    let var = make_var(vec![text_attr("axis", "Q"), text_attr("axis", "X")]);
    assert_eq!(identify_axis(&var), CfAxisType::Unknown);
}

#[test]
fn standard_name_is_not_lower_cased() {
    let var = make_var(vec![text_attr("standard_name", "Latitude")]);
    assert_eq!(identify_axis(&var), CfAxisType::Unknown);
}

#[test]
fn classifiers_on_normalised_text() {
    assert_eq!(axis_from_axis_value("Z"), Some(CfAxisType::Z));
    assert_eq!(axis_from_axis_value("x"), None);
    assert_eq!(axis_from_standard_name("ocean_s_coordinate"), Some(CfAxisType::Z));
    assert_eq!(axis_from_standard_name("projection_x_coordinate"), Some(CfAxisType::X));
    assert_eq!(axis_from_standard_name("air_temperature"), None);
    assert_eq!(axis_from_units("degreesn"), Some(CfAxisType::Y));
    assert_eq!(axis_from_units("degreese"), Some(CfAxisType::X));
    assert_eq!(axis_from_units("seconds since 1900-01-01"), Some(CfAxisType::T));
    assert_eq!(axis_from_units("seconds_since"), None);
    assert_eq!(axis_from_units("millibar"), Some(CfAxisType::Z));
    assert_eq!(axis_from_units("m"), None);
    assert_eq!(axis_from_positive("up"), Some(CfAxisType::Z));
    assert_eq!(axis_from_positive("UP"), None);
}
