use dual_key_remap::config::parse_config;
use dual_key_remap::config::remaps_key;
use dual_key_remap::config::sources_are_distinct;
use dual_key_remap::config::Config;
use dual_key_remap::config::ConfigError;
use dual_key_remap::config::RemapConfig;
use dual_key_remap::config::RemapConfigBuilder;
use dual_key_remap::keys::KeyDef;
use dual_key_remap::remap::RemapManager;

const CAPSLOCK: KeyDef = KeyDef { name: "CAPSLOCK", virt_code: 0x14, scan_code: 0x3A };
const ESCAPE: KeyDef = KeyDef { name: "ESCAPE", virt_code: 0x1B, scan_code: 0x01 };
const CTRL: KeyDef = KeyDef { name: "CTRL", virt_code: 0x11, scan_code: 0x1D };
const CONTROL: KeyDef = KeyDef { name: "CONTROL", virt_code: 0x11, scan_code: 0x1D };
const TAB: KeyDef = KeyDef { name: "TAB", virt_code: 0x09, scan_code: 0x0F };
const ALT: KeyDef = KeyDef { name: "ALT", virt_code: 0x12, scan_code: 0x38 };

fn keys() -> Vec<KeyDef> {
    vec![CAPSLOCK, ESCAPE, CTRL, CONTROL, TAB, ALT]
}

fn parse(content: &str) -> Result<Vec<RemapConfig>, ConfigError> {
    parse_config(content, &keys()).map(|config| config.remaps)
}

fn capslock_remap() -> RemapConfig {
    RemapConfig { from: CAPSLOCK, to_when_alone: ESCAPE, to_with_other: CTRL }
}

fn tab_remap() -> RemapConfig {
    RemapConfig { from: TAB, to_when_alone: ESCAPE, to_with_other: ALT }
}

#[test]
fn the_default_configuration_is_empty() {
    assert!(Config::default().remaps.is_empty());
}

#[test]
fn an_empty_text_declares_nothing() {
    assert_eq!(parse(""), Ok(vec![]));
    assert_eq!(parse("\n\n"), Ok(vec![]));
    assert_eq!(parse("# nothing here\n   \n\t# nor here"), Ok(vec![]));
}

#[test]
fn one_mapping_is_read() {
    assert_eq!(
        parse("remap_key=CAPSLOCK\nwhen_alone=ESCAPE\nwith_other=CTRL\n"),
        Ok(vec![capslock_remap()])
    );
}

#[test]
fn the_last_line_needs_no_line_feed() {
    assert_eq!(
        parse("remap_key=CAPSLOCK\nwhen_alone=ESCAPE\nwith_other=CTRL"),
        Ok(vec![capslock_remap()])
    );
}

#[test]
fn the_targets_come_in_any_order() {
    assert_eq!(
        parse("remap_key=CAPSLOCK\nwith_other=CTRL\nwhen_alone=ESCAPE\n"),
        Ok(vec![capslock_remap()])
    );
}

#[test]
fn a_target_named_twice_takes_the_later_name() {
    assert_eq!(
        parse("remap_key=CAPSLOCK\nwhen_alone=TAB\nwhen_alone=ESCAPE\nwith_other=CTRL\n"),
        Ok(vec![capslock_remap()])
    );
    assert_eq!(
        parse("remap_key=CAPSLOCK\nwith_other=ALT\nwith_other=CTRL\nwhen_alone=ESCAPE\n"),
        Ok(vec![capslock_remap()])
    );
}

#[test]
fn several_mappings_keep_their_order() {
    let text = "remap_key=TAB\nwhen_alone=ESCAPE\nwith_other=ALT\n\
                remap_key=CAPSLOCK\nwhen_alone=ESCAPE\nwith_other=CTRL\n";
    assert_eq!(parse(text), Ok(vec![tab_remap(), capslock_remap()]));
}

#[test]
fn white_space_comments_and_other_settings_are_passed_over() {
    let text = "# Dual-role keys\r\n\
                \r\n\
                debug = 1\r\n\
                  remap_key =  CAPSLOCK  \r\n\
                \twhen_alone\t=\tESCAPE\r\n\
                   # a comment between the lines = with a sign\r\n\
                \u{A0}with_other\u{3000}=\u{2003}CTRL\u{85}\r\n\
                =nothing\r\n\
                unknown=\r\n";
    assert_eq!(parse(text), Ok(vec![capslock_remap()]));
}

#[test]
fn a_line_without_a_sign_is_refused() {
    let error = parse("remap_key=CAPSLOCK\n\nwhen_alone ESCAPE\n").unwrap_err();
    assert_eq!(error, ConfigError::ExpectedKeyValue { line: 3 });
    assert_eq!(error.message(), "Config error (line 3): expected key=value");
}

#[test]
fn an_unknown_key_name_is_refused() {
    let error = parse("remap_key=CAPS\n").unwrap_err();
    assert_eq!(error, ConfigError::InvalidKeyName { line: 1, name: "CAPS".to_string() });
    assert_eq!(error.message(), "Config error (line 1): invalid key name 'CAPS'");

    let error = parse("remap_key=CAPSLOCK\nwhen_alone = capslock \n").unwrap_err();
    assert_eq!(error, ConfigError::InvalidKeyName { line: 2, name: "capslock".to_string() });

    // Only the first sign parts the key from the value.
    let error = parse("remap_key=CAPSLOCK\nwith_other=CTRL=ALT").unwrap_err();
    assert_eq!(error, ConfigError::InvalidKeyName { line: 2, name: "CTRL=ALT".to_string() });

    let error = parse("with_other=\n").unwrap_err();
    assert_eq!(error, ConfigError::InvalidKeyName { line: 1, name: String::new() });
    assert_eq!(error.message(), "Config error (line 1): invalid key name ''");
}

#[test]
fn an_unknown_name_is_reported_before_a_misplaced_target() {
    let error = parse("when_alone=NOPE\n").unwrap_err();
    assert_eq!(error, ConfigError::InvalidKeyName { line: 1, name: "NOPE".to_string() });
}

#[test]
fn a_target_outside_a_mapping_is_refused() {
    let error = parse("when_alone=ESCAPE\n").unwrap_err();
    assert_eq!(error, ConfigError::WhenAloneWithoutRemapKey { line: 1 });
    assert_eq!(error.message(), "Config error (line 1): when_alone must come after remap_key");

    let error = parse("# c\nwith_other=CTRL\n").unwrap_err();
    assert_eq!(error, ConfigError::WithOtherWithoutRemapKey { line: 2 });
    assert_eq!(error.message(), "Config error (line 2): with_other must come after remap_key");

    // A mapping that is complete is closed.
    let text = "remap_key=CAPSLOCK\nwhen_alone=ESCAPE\nwith_other=CTRL\nwhen_alone=TAB\n";
    assert_eq!(parse(text).unwrap_err(), ConfigError::WhenAloneWithoutRemapKey { line: 4 });
}

#[test]
fn a_mapping_that_lacks_a_target_is_refused() {
    let error = parse("remap_key=CAPSLOCK\nwhen_alone=ESCAPE\nremap_key=TAB\n").unwrap_err();
    assert_eq!(error, ConfigError::IncompleteRemap { line: 3 });
    assert_eq!(
        error.message(),
        "Config error (line 3): Incomplete remapping. Each remap needs remap_key, when_alone and with_other before another remap_key."
    );
    // The open mapping is reported before the name of the new one is looked up.
    let error = parse("remap_key=CAPSLOCK\nremap_key=NOPE\n").unwrap_err();
    assert_eq!(error, ConfigError::IncompleteRemap { line: 2 });

    let error = parse("remap_key=CAPSLOCK\nwith_other=CTRL\n").unwrap_err();
    assert_eq!(error, ConfigError::IncompleteAtEnd);
    assert_eq!(error.message(), "Config error: Incomplete remapping at end of file");
    assert_eq!(parse("remap_key=CAPSLOCK").unwrap_err(), ConfigError::IncompleteAtEnd);
}

#[test]
fn a_key_that_is_remapped_twice_is_refused() {
    let text = "remap_key=CAPSLOCK\nwhen_alone=ESCAPE\nwith_other=CTRL\n\
                remap_key=TAB\nwhen_alone=ESCAPE\nwith_other=ALT\n\
                remap_key=CAPSLOCK\nwhen_alone=TAB\nwith_other=ALT\n";
    let error = parse(text).unwrap_err();
    assert_eq!(error, ConfigError::DuplicateRemapKey { line: 7, name: "CAPSLOCK".to_string() });
    assert_eq!(
        error.message(),
        "Config error (line 7): key 'CAPSLOCK' is remapped more than once"
    );
    // Two names of one key are one key.
    let text = "remap_key=CTRL\nwhen_alone=ESCAPE\nwith_other=ALT\n\
                remap_key=CONTROL\nwhen_alone=ESCAPE\nwith_other=ALT\n";
    assert_eq!(
        parse(text).unwrap_err(),
        ConfigError::DuplicateRemapKey { line: 4, name: "CONTROL".to_string() }
    );
}

#[test]
fn a_key_that_is_remapped_twice_is_reported_after_every_other_fault() {
    let keys = vec![KeyDef { name: "A", virt_code: 0x41, scan_code: 0x1E }];
    // The second mapping of the key lacks its targets at the end of the text.
    let text = "remap_key=A\nwhen_alone=A\nwith_other=A\nremap_key=A";
    let error = parse_config(text, &keys).unwrap_err();
    assert_eq!(error, ConfigError::IncompleteAtEnd);
    assert_eq!(error.message(), "Config error: Incomplete remapping at end of file");

    // A later line names an unknown key.
    let text = "remap_key=A\nwhen_alone=A\nwith_other=A\nremap_key=A\nwhen_alone=Q";
    let error = parse_config(text, &keys).unwrap_err();
    assert_eq!(error, ConfigError::InvalidKeyName { line: 5, name: "Q".to_string() });
    assert_eq!(error.message(), "Config error (line 5): invalid key name 'Q'");

    // A later line is malformed, or opens a mapping too early.
    let text = "remap_key=A\nwhen_alone=A\nwith_other=A\nremap_key=A\nwhen_alone=A\noops";
    assert_eq!(
        parse_config(text, &keys).unwrap_err(),
        ConfigError::ExpectedKeyValue { line: 6 }
    );
    let text = "remap_key=A\nwhen_alone=A\nwith_other=A\nremap_key=A\nremap_key=A";
    assert_eq!(parse_config(text, &keys).unwrap_err(), ConfigError::IncompleteRemap { line: 5 });
    let text = "remap_key=A\nwhen_alone=A\nwith_other=A\nremap_key=A\nwhen_alone=A\nwith_other=A\nwith_other=A";
    assert_eq!(
        parse_config(text, &keys).unwrap_err(),
        ConfigError::WithOtherWithoutRemapKey { line: 7 }
    );

    // With nothing else wrong the text is refused for the repeated key.
    let text = "remap_key=A\nwhen_alone=A\nwith_other=A\nremap_key=A\nwhen_alone=A\nwith_other=A\n";
    let error = parse_config(text, &keys).unwrap_err();
    assert_eq!(error, ConfigError::DuplicateRemapKey { line: 4, name: "A".to_string() });
    assert_eq!(error.message(), "Config error (line 4): key 'A' is remapped more than once");
}

#[test]
fn the_first_repeated_key_is_the_one_reported() {
    let text = "remap_key=TAB\nwhen_alone=ESCAPE\nwith_other=ALT\n\
                remap_key=CAPSLOCK\nwhen_alone=ESCAPE\nwith_other=CTRL\n\
                remap_key = CAPSLOCK \nwhen_alone=ESCAPE\nwith_other=CTRL\n\
                remap_key=TAB\nwhen_alone=ESCAPE\nwith_other=ALT\n";
    assert_eq!(
        parse(text).unwrap_err(),
        ConfigError::DuplicateRemapKey { line: 7, name: "CAPSLOCK".to_string() }
    );
}

#[test]
fn line_numbers_count_every_line() {
    let mut text = String::new();
    for _ in 0..120 {
        text.push_str("# filler\n");
    }
    text.push_str("oops");
    let error = parse(&text).unwrap_err();
    assert_eq!(error, ConfigError::ExpectedKeyValue { line: 121 });
    assert_eq!(error.message(), "Config error (line 121): expected key=value");
}

#[test]
fn what_is_read_can_be_handed_to_the_engine() {
    let text = "remap_key=CAPSLOCK\nwhen_alone=ESCAPE\nwith_other=CTRL\n\
                remap_key=TAB\nwhen_alone=ESCAPE\nwith_other=ALT\n";
    let config = parse_config(text, &keys()).unwrap();
    assert!(sources_are_distinct(&config.remaps));
    let mut manager = RemapManager::new(config.remaps, false);
    let decision =
        manager.handle_input(0x0F, 0x09, dual_key_remap::input::Direction::Up, false);
    assert!(decision.block);
    assert_eq!(decision.injections[0].key, ESCAPE);
}

#[test]
fn a_builder_is_complete_with_both_targets() {
    let mut builder = RemapConfigBuilder::new(CAPSLOCK);
    assert_eq!(builder.from, CAPSLOCK);
    assert_eq!(builder.when_alone, None);
    assert_eq!(builder.with_other, None);
    assert!(!builder.is_complete());
    assert_eq!(builder.build(), Err(ConfigError::MissingWhenAlone));
    assert_eq!(ConfigError::MissingWhenAlone.message(), "Missing when_alone");

    builder.with_other = Some(CTRL);
    assert!(!builder.is_complete());
    assert_eq!(builder.build(), Err(ConfigError::MissingWhenAlone));

    builder.with_other = None;
    builder.when_alone = Some(ESCAPE);
    assert!(!builder.is_complete());
    assert_eq!(builder.build(), Err(ConfigError::MissingWithOther));
    assert_eq!(ConfigError::MissingWithOther.message(), "Missing with_other");

    builder.with_other = Some(CTRL);
    assert!(builder.is_complete());
    assert_eq!(builder.build(), Ok(capslock_remap()));
}

#[test]
fn sources_are_compared_by_virtual_code() {
    let remaps = vec![capslock_remap(), tab_remap()];
    assert!(sources_are_distinct(&remaps));
    assert!(remaps_key(&remaps, 0x14));
    assert!(remaps_key(&remaps, 0x09));
    assert!(!remaps_key(&remaps, 0x1B));
    assert!(sources_are_distinct(&Vec::new()));
    assert!(!remaps_key(&Vec::new(), 0x14));

    let twice = vec![capslock_remap(), tab_remap(), capslock_remap()];
    assert!(!sources_are_distinct(&twice));
    let renamed = RemapConfig {
        from: KeyDef { name: "CAPS", virt_code: 0x14, scan_code: 0 },
        to_when_alone: TAB,
        to_with_other: ALT,
    };
    assert!(!sources_are_distinct(&vec![capslock_remap(), renamed]));
}
