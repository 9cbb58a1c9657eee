use zho_text_normalizer::options::{format_named, parse_format, parse_script, script_named};
use zho_text_normalizer::types::{NormalizationConfig, OutputFormat, Script, UnicodeNormalization};

#[test]
fn scripts_are_named_in_any_case() {
    assert_eq!(parse_script("simplified"), Script::SimplifiedChinese);
    assert_eq!(parse_script("Simplified"), Script::SimplifiedChinese);
    assert_eq!(parse_script("TRADITIONAL"), Script::TraditionalChinese);
    assert_eq!(parse_script("Japanese"), Script::Japanese);
    assert_eq!(parse_script("korean"), Script::Korean);
    assert_eq!(parse_script("auto"), Script::Auto);
    assert_eq!(parse_script(""), Script::Auto);
    assert_eq!(parse_script("simplified "), Script::Auto);
    assert_eq!(script_named("simplified"), Script::SimplifiedChinese);
    assert_eq!(script_named("Simplified"), Script::Auto);
}

#[test]
fn formats_are_named_in_any_case() {
    assert_eq!(parse_format("detailed"), OutputFormat::Detailed);
    assert_eq!(parse_format("Verbose"), OutputFormat::Verbose);
    assert_eq!(parse_format("simple"), OutputFormat::Simple);
    assert_eq!(parse_format("anything"), OutputFormat::Simple);
    assert_eq!(format_named("VERBOSE"), OutputFormat::Simple);
    assert_eq!(format_named("verbose"), OutputFormat::Verbose);
}

#[test]
fn default_configuration() {
    let config = NormalizationConfig::default();
    assert_eq!(config.target_script, Script::Auto);
    assert_eq!(config.unicode_normalization, UnicodeNormalization::NFC);
    assert!(config.normalize_kangxi_radicals);
    assert!(config.normalize_variants);
    assert!(config.normalize_compatibility);
    assert!(config.preserve_original);
}
