use npm_download_stats::chars::chars_of;
use npm_download_stats::config::{
    configured_packages, is_white_space_char, package_names, packages_variable, trim_bounds,
    ConfigError,
};

#[test]
fn single_name_is_read() {
    assert_eq!(package_names("left-pad"), Ok(vec!["left-pad".to_string()]));
    assert_eq!(configured_packages(Some("left-pad")), Ok(vec!["left-pad".to_string()]));
}

#[test]
fn names_are_cut_at_commas_and_trimmed() {
    assert_eq!(
        package_names(" react ,vue,  @scope/pkg\t"),
        Ok(vec!["react".to_string(), "vue".to_string(), "@scope/pkg".to_string()])
    );
    assert_eq!(
        package_names("a b , c"),
        Ok(vec!["a b".to_string(), "c".to_string()])
    );
}

#[test]
fn empty_entries_are_left_out() {
    assert_eq!(
        package_names(",left-pad,, ,right-pad,"),
        Ok(vec!["left-pad".to_string(), "right-pad".to_string()])
    );
    assert_eq!(package_names("a,a"), Ok(vec!["a".to_string(), "a".to_string()]));
}

#[test]
fn empty_list_is_a_configuration_error() {
    assert_eq!(package_names(""), Err(ConfigError::Empty));
    assert_eq!(configured_packages(Some("")), Err(ConfigError::Empty));
}

#[test]
fn list_of_empty_entries_is_a_configuration_error() {
    assert_eq!(package_names(","), Err(ConfigError::Empty));
    assert_eq!(package_names(" , ,\t,\n"), Err(ConfigError::Empty));
    assert_eq!(package_names("   "), Err(ConfigError::Empty));
    assert_eq!(package_names("\u{3000},\u{a0}"), Err(ConfigError::Empty));
}

#[test]
fn missing_list_is_a_configuration_error() {
    assert_eq!(configured_packages(None), Err(ConfigError::Missing));
}

#[test]
fn configuration_errors_are_worded() {
    assert_eq!(
        ConfigError::Missing.message(),
        "Set PACKAGES with comma-separated package names"
    );
    assert_eq!(ConfigError::Empty.message(), "No package names found in PACKAGES");
    assert_eq!(packages_variable(), "PACKAGES");
}

#[test]
fn names_beyond_ascii_are_kept() {
    assert_eq!(
        package_names("\u{2003}caf\u{e9}\u{2003},\u{1F600}"),
        Ok(vec!["caf\u{e9}".to_string(), "\u{1F600}".to_string()])
    );
}

#[test]
fn white_space_is_what_the_standard_library_says() {
    for code in 0..=0x10FFFFu32 {
        if let Some(c) = char::from_u32(code) {
            assert_eq!(is_white_space_char(c), c.is_whitespace(), "for U+{code:04X}");
        }
    }
}

#[test]
fn trimming_agrees_with_the_standard_library() {
    let samples = [
        "", " ", "a", " a", "a ", " a ", "\t\n a b \r\n", "\u{a0}x\u{2028}", "  ", "x  y",
        "\u{85}\u{1680}z\u{205f}\u{3000}", "\u{200b}", " \u{200b} ",
    ];
    for sample in samples {
        let chars = chars_of(sample);
        let (from, to) = trim_bounds(&chars, 0, chars.len());
        let kept: String = chars[from..to].iter().collect();
        assert_eq!(kept, sample.trim(), "for {sample:?}");
    }
}

#[test]
fn trimming_stays_within_its_field() {
    let chars = chars_of("ab ,  cd  , ef");
    assert_eq!(trim_bounds(&chars, 4, 10), (6, 8));
    assert_eq!(trim_bounds(&chars, 0, 3), (0, 2));
    assert_eq!(trim_bounds(&chars, 11, 14), (12, 14));
    assert_eq!(trim_bounds(&chars, 2, 3), (3, 3));
    assert_eq!(trim_bounds(&chars, 5, 5), (5, 5));
}

#[test]
fn names_agree_with_split_trim_and_filter() {
    let samples = [
        "left-pad", "", ",", "a,b", " a , b ", ",,a,,", "a,,b", "a, ,b", " ", "a b,c d",
        "\u{a0}a\u{a0},\u{2003}", "one", "one,", ",one", "x,y,z", "  x  ,  y  ,  z  ",
    ];
    for sample in samples {
        let expected: Vec<String> = sample
            .split(',')
            .map(|piece| piece.trim())
            .filter(|piece| !piece.is_empty())
            .map(|piece| piece.to_string())
            .collect();
        match package_names(sample) {
            Ok(names) => assert_eq!(names, expected, "for {sample:?}"),
            Err(error) => {
                assert_eq!(error, ConfigError::Empty);
                assert!(expected.is_empty(), "for {sample:?}");
            }
        }
    }
}
