use pollip::config::model::{
    coerce_value_for_type, join_flags_values, split_flags_values, validate_numeric_input,
    SettingTypeHint, SettingWidget, ValueCoerceError, ValueConstraint,
};
use pollip::config::parse::{parse_config_text, serialize_config};
use pollip::config::scan::{bepinex_config_folder, display_name_from_file_name};

const SAMPLE: &str = "## Settings file was created by plugin Sample Plugin v1.2.3
## Plugin GUID: com.example.sample

[Logging]

## Which log channels are written
# Setting type: LogLevel
# Default value: Warn, Error
# Acceptable values: Debug, Info, Message, Warn, Error, Fatal
# Multiple values can be set at the same time by separating them with , (e.g. Debug, Warning)
LogChannels = Warn, Error

[Network]

## How many times a request is retried
# Setting type: Int32
# Default value: 3
MaxRetries = 3

## Output volume
# Setting type: Single
# Default value: 0.5
Volume = 0.75

[Player]

## The name shown to others
# Setting type: String
# Default value: Hornet
PlayerName = Hornet

## Walking speed
# Setting type: Single
# Default value: 5
# Acceptable value range: From 1 to 10
MoveSpeed = 6.5

[Extra]
OrphanNote = left by hand
";

#[test]
fn round_trips_sample_without_changes() {
    let document = parse_config_text(SAMPLE).expect("parse");
    let serialized = serialize_config(&document);
    assert_eq!(serialized, SAMPLE);
}

#[test]
fn maps_all_five_widget_cases() {
    let document = parse_config_text(SAMPLE).expect("parse");
    let settings = document.editable_settings();
    assert_eq!(settings.len(), 6);

    let flags = &settings[0];
    assert_eq!(flags.key, "LogChannels");
    assert_eq!(flags.widget, SettingWidget::MultiCheckbox);
    assert!(flags.can_revert);
    assert!(matches!(
        &flags.metadata.constraint,
        ValueConstraint::Choices(choices) if choices.len() == 6
    ));
    assert_eq!(
        split_flags_values(&flags.value),
        vec!["Warn".to_string(), "Error".to_string()]
    );
    assert_eq!(
        join_flags_values(&vec!["Warn".into(), "Error".into(), "Debug".into()]),
        "Warn, Error, Debug"
    );

    let unranged_int = &settings[1];
    assert_eq!(unranged_int.key, "MaxRetries");
    assert_eq!(unranged_int.widget, SettingWidget::NumberInput);
    assert_eq!(unranged_int.metadata.setting_type, Some(SettingTypeHint::Integer));

    let unranged_float = &settings[2];
    assert_eq!(unranged_float.key, "Volume");
    assert_eq!(unranged_float.widget, SettingWidget::NumberInput);
    assert_eq!(unranged_float.metadata.setting_type, Some(SettingTypeHint::Decimal));

    let text = &settings[3];
    assert_eq!(text.key, "PlayerName");
    assert_eq!(text.widget, SettingWidget::Text);

    let ranged = &settings[4];
    assert_eq!(ranged.key, "MoveSpeed");
    assert_eq!(ranged.widget, SettingWidget::Slider);

    let bare = &settings[5];
    assert_eq!(bare.key, "OrphanNote");
    assert_eq!(bare.widget, SettingWidget::Text);
    assert!(!bare.can_revert);
    assert!(!bare.metadata.has_hint_lines);
}

#[test]
fn reverts_boolean_default_with_type_coercion() {
    let text = "\
[General]

## toggle
# Setting type: Boolean
# Default value: True
Flag = false
";
    let mut document = parse_config_text(text).expect("parse");
    let setting = document.editable_settings().remove(0);
    assert!(setting.can_revert);
    assert!(document
        .revert_setting_to_default(setting.line_index, None)
        .expect("coerce"));
    let updated = document.editable_settings().remove(0);
    assert_eq!(updated.value, "true");
}

#[test]
fn rejects_malformed_lines() {
    let error = parse_config_text("[General]\nthis is garbage\n").expect_err("must fail");
    assert_eq!(error.line_number, 2);
    assert!(error.reason.contains("expected"));
}

#[test]
fn bare_entry_cannot_revert() {
    let mut document = parse_config_text("[A]\nBare = 1\n").expect("parse");
    let setting = document.editable_settings().remove(0);
    assert!(!setting.can_revert);
    assert!(!document
        .revert_setting_to_default(setting.line_index, None)
        .expect("no coerce needed"));
}

#[test]
fn set_value_rewrites_only_that_setting() {
    let mut document = parse_config_text("[A]\nOne = 1\nTwo = 2\n").expect("parse");
    let settings = document.editable_settings();
    assert!(document.set_value(settings[1].line_index, "22".to_string()));
    assert_eq!(serialize_config(&document), "[A]\nOne = 1\nTwo = 22\n");
    assert!(!document.set_value(0, "x".to_string()));
}

#[test]
fn coerces_integers_and_rejects_words() {
    assert_eq!(
        coerce_value_for_type(" 42 ", Some(SettingTypeHint::Integer), None),
        Ok("42".to_string())
    );
    assert!(matches!(
        coerce_value_for_type("many", Some(SettingTypeHint::Integer), None),
        Err(ValueCoerceError::InvalidInteger { .. })
    ));
    assert_eq!(
        coerce_value_for_type("TRUE", Some(SettingTypeHint::Boolean), None),
        Ok("true".to_string())
    );
    assert!(validate_numeric_input("12", SettingTypeHint::Integer, None).is_ok());
}

#[test]
fn serialize_then_parse_gives_back_the_document() {
    let document = parse_config_text("# note\n\n[Section]\nKey = Value\n").expect("parse");
    let text = serialize_config(&document);
    let again = parse_config_text(&text).expect("reparse");
    assert_eq!(again, document);
}

#[test]
fn config_folder_and_display_names() {
    assert_eq!(bepinex_config_folder("/games/silksong"), "/games/silksong/BepInEx/config");
    assert_eq!(display_name_from_file_name("com.example.cfg"), "com.example");
    assert_eq!(display_name_from_file_name("LOUD.CFG"), "LOUD");
    assert_eq!(display_name_from_file_name("notes.txt"), "notes.txt");
}

#[test]
fn split_flag_values_give_back_joined_names() {
    let names = vec!["Warn".to_string(), "Error".to_string(), "Debug".to_string()];
    let joined = join_flags_values(&names);
    assert_eq!(joined, "Warn, Error, Debug");
    assert_eq!(split_flags_values(&joined), names);
    assert_eq!(split_flags_values(&join_flags_values(&Vec::new())), Vec::<String>::new());
}

#[test]
fn a_parsed_document_reads_back_after_writing() {
    let text = "  [General]  \n# note\nKey=  value  \n\n  Other  =\nlast = x";
    let doc = parse_config_text(text).expect("parses");
    let written = serialize_config(&doc);
    assert_eq!(written, "[General]\n# note\nKey = value\n\nOther = \nlast = x\n");
    assert_eq!(parse_config_text(&written), Ok(doc));
}

#[test]
fn hint_comments_are_checked_for_cuts_inside_a_character() {
    let fine = parse_config_text("## Setting type: Int32\n## Default value: 3\nCount = 3\n").expect("parses");
    assert!(fine.hints_cuttable_exec());
    let settings = fine.editable_settings();
    assert_eq!(settings.len(), 1);
    let broken = parse_config_text("## Setting ty\u{e9}\u{20ac}\nKey = 1\n").expect("parses");
    assert!(!broken.hints_cuttable_exec());
    let unused = parse_config_text("## Setting ty\u{e9}\u{20ac}\n\nKey = 1\n").expect("parses");
    assert!(unused.hints_cuttable_exec());
}

#[test]
fn infinite_and_nan_decimals_are_refused() {
    for raw in ["inf", "-Infinity", "NaN", " +inf "] {
        assert_eq!(
            coerce_value_for_type(raw, Some(SettingTypeHint::Decimal), Some("1.0".to_string())),
            Err(ValueCoerceError::InvalidDecimal { raw: raw.trim().to_string() })
        );
    }
    assert_eq!(
        coerce_value_for_type("1e400", Some(SettingTypeHint::Decimal), None),
        Err(ValueCoerceError::InvalidDecimal { raw: "1e400".to_string() })
    );
    assert_eq!(
        coerce_value_for_type(" 2.5 ", Some(SettingTypeHint::Decimal), Some("2.5".to_string())),
        Ok("2.5".to_string())
    );
}
