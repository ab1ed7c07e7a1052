use hi_nvim_rs::error::Error;

#[test]
fn each_error_has_its_sentence() {
    assert_eq!(
        Error::Toml(String::from("expected `=`")).message(),
        "Could not parse configuration file: expected `=`"
    );
    assert_eq!(
        Error::InvalidKind.message(),
        "Invalid Kind specified. Valid values are `light` and `dark`"
    );
    assert_eq!(
        Error::ColorMissing(String::from("fg.red")).message(),
        "A color referenced by a theme element is missing: fg.red"
    );
    assert_eq!(
        Error::ThemeElementMissing(String::from("ui.fg")).message(),
        "A theme element referenced by a highlight group is missing: ui.fg"
    );
    assert_eq!(
        Error::LinkCycle(String::from("Normal")).message(),
        "A link cycle was detected. This highlight group is part of the cycle: Normal"
    );
    assert_eq!(
        Error::CompilationFailed.message(),
        "Color scheme compilation failed for an unknown reason"
    );
}
