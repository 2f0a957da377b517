use macro_gen::config::{default_false, Models, Syntax};
use macro_gen::validator::{
    allowed_corners, is_allowed_corner, missing_placeholders, required_placeholders, validate,
    ConfigFacts, ValidationError, ValidationErrors,
};

const GOOD_TEMPLATE: &str = "X{{name}} {{d}} {{g}} {{s}} {{b}} {{model}} w={{w}} l={{l}}";

fn good_facts() -> ConfigFacts {
    ConfigFacts {
        vdd_not_positive: false,
        vdd_above_max: false,
        min_length_not_positive: false,
        include_path: "/pdk/models/sky130.lib.spice".to_string(),
        include_path_exists: true,
        corner: "tt".to_string(),
        models: Models {
            nmos: "sky130_fd_pr__nfet_01v8".to_string(),
            pmos: "sky130_fd_pr__pfet_01v8".to_string(),
        },
        syntax: Syntax { device_template: GOOD_TEMPLATE.to_string() },
        w_is_multiple_of_w_min: false,
        sweep_step_below_min_width: false,
    }
}

#[test]
fn good_configuration_validates() {
    assert_eq!(validate(&good_facts()), Ok(()));
}

#[test]
fn every_failed_check_is_reported_in_order() {
    let facts = ConfigFacts {
        vdd_not_positive: true,
        vdd_above_max: false,
        min_length_not_positive: true,
        include_path: "/missing/lib".to_string(),
        include_path_exists: false,
        corner: "TT".to_string(),
        models: Models { nmos: "   ".to_string(), pmos: "\t\u{3000}\n".to_string() },
        syntax: Syntax { device_template: "X{{name}} {{d}} {{g}} {{s}} {{model}}".to_string() },
        w_is_multiple_of_w_min: true,
        sweep_step_below_min_width: true,
    };
    let expected = ValidationErrors(vec![
        ValidationError::VddNotPositive,
        ValidationError::MinLengthNotPositive,
        ValidationError::IncludePathMissing("/missing/lib".to_string()),
        ValidationError::InvalidCorner("TT".to_string()),
        ValidationError::NmosEmpty,
        ValidationError::PmosEmpty,
        ValidationError::TemplateMissingPlaceholders(vec!["{{b}}", "{{w}}", "{{l}}"]),
        ValidationError::SweepGranularityBelowMinWidth,
    ]);
    assert_eq!(validate(&facts), Err(expected));
}

#[test]
fn vdd_above_maximum_is_reported_only_when_positive() {
    let mut facts = good_facts();
    facts.vdd_above_max = true;
    assert_eq!(
        validate(&facts),
        Err(ValidationErrors(vec![ValidationError::VddOutOfRange]))
    );
    facts.vdd_not_positive = true;
    assert_eq!(
        validate(&facts),
        Err(ValidationErrors(vec![ValidationError::VddNotPositive]))
    );
}

#[test]
fn missing_model_library_alone_fails() {
    let mut facts = good_facts();
    facts.include_path_exists = false;
    assert_eq!(
        validate(&facts),
        Err(ValidationErrors(vec![ValidationError::IncludePathMissing(
            "/pdk/models/sky130.lib.spice".to_string()
        )]))
    );
}

#[test]
fn every_allowed_corner_is_accepted() {
    for c in ["tt", "ff", "ss", "sf", "fs"] {
        assert!(is_allowed_corner(c), "{c}");
    }
    for c in ["", "t", "TT", "tt ", "fff", "sff"] {
        assert!(!is_allowed_corner(c), "{c}");
    }
    assert_eq!(allowed_corners(), vec!["tt", "ff", "ss", "sf", "fs"]);
}

#[test]
fn model_names_with_text_are_not_blank() {
    let mut facts = good_facts();
    facts.models.nmos = "  n ".to_string();
    facts.models.pmos = "\u{85}p".to_string();
    assert_eq!(validate(&facts), Ok(()));
    facts.models.pmos = String::new();
    assert_eq!(
        validate(&facts),
        Err(ValidationErrors(vec![ValidationError::PmosEmpty]))
    );
}

#[test]
fn template_placeholders_are_reported_in_required_order() {
    assert_eq!(
        required_placeholders(),
        vec!["{{name}}", "{{d}}", "{{g}}", "{{s}}", "{{b}}", "{{model}}", "{{w}}", "{{l}}"]
    );
    assert!(missing_placeholders(GOOD_TEMPLATE).is_empty());
    assert_eq!(missing_placeholders(""), required_placeholders());
    assert_eq!(
        missing_placeholders("{{l}} {{w}} {{model}} {{name}} {d}} {{g}"),
        vec!["{{d}}", "{{g}}", "{{s}}", "{{b}}"]
    );
}

#[test]
fn omitted_boolean_options_are_false() {
    assert!(!default_false());
}

#[test]
fn sweep_step_below_min_width_fails_only_when_widths_snap() {
    let mut facts = good_facts();
    facts.sweep_step_below_min_width = true;
    assert_eq!(validate(&facts), Ok(()));
    facts.w_is_multiple_of_w_min = true;
    assert_eq!(
        validate(&facts),
        Err(ValidationErrors(vec![ValidationError::SweepGranularityBelowMinWidth]))
    );
    facts.sweep_step_below_min_width = false;
    assert_eq!(validate(&facts), Ok(()));
}
