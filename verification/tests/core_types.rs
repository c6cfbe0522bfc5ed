//! Tests of the library surface: analyzer handle, optimizer,
//! transpiler configuration and transpilation, languages, grades and
//! the validator handle.

use batuta_cookbook::analyzer::Analyzer;
use batuta_cookbook::optimizer::{OptimizationProfile, Optimizer};
use batuta_cookbook::transpiler::{Transpiler, TranspilerConfig};
use batuta_cookbook::types::{Error, Grade, Language};
use batuta_cookbook::validator::SemanticValidator;
use batuta_cookbook::VERSION;

#[test]
fn test_analyzer_creation() {
    let analyzer = Analyzer::new("./test_path");
    assert_eq!(analyzer.path().as_str(), "./test_path");
}

#[test]
fn test_version_defined() {
    assert!(VERSION.starts_with(char::is_numeric));
}

#[test]
fn test_optimizer_creation() {
    let optimizer = Optimizer::new(OptimizationProfile::Balanced);
    assert_eq!(optimizer.profile(), OptimizationProfile::Balanced);
    assert!(!optimizer.gpu_enabled());
}

#[test]
fn test_optimizer_with_gpu() {
    let optimizer = Optimizer::new(OptimizationProfile::Aggressive).with_gpu(true);
    assert!(optimizer.gpu_enabled());
}

#[test]
fn test_optimize_placeholder() {
    let optimizer = Optimizer::new(OptimizationProfile::Fast);
    let out = optimizer.optimize("x = 1").unwrap();
    assert_eq!(out, "// Optimized code placeholder");
}

#[test]
fn test_config_builder() {
    let config = TranspilerConfig::builder()
        .source_language(Language::Python)
        .incremental(true)
        .cache(true)
        .build()
        .unwrap();

    assert_eq!(config.source_lang, Language::Python);
    assert!(config.incremental);
    assert!(config.cache_enabled);
}

#[test]
fn test_config_default() {
    let config = TranspilerConfig::default();
    assert_eq!(config.source_lang, Language::Python);
    assert_eq!(config.target_lang, Language::Rust);
    assert!(!config.incremental);
    assert!(!config.cache_enabled);
}

#[test]
fn test_transpiler_creation() {
    let config = TranspilerConfig::default();
    let transpiler = Transpiler::new(config);
    assert_eq!(transpiler.source_language(), Language::Python);
}

#[test]
fn test_transpile_empty_fails() {
    let config = TranspilerConfig::default();
    let transpiler = Transpiler::new(config);
    let result = transpiler.transpile("");
    assert!(result.is_err());
}

#[test]
fn test_transpile_empty_error_message() {
    let config = TranspilerConfig::default();
    let transpiler = Transpiler::new(config);
    match transpiler.transpile("") {
        Err(Error::TranspilationError(m)) => assert_eq!(m, "Empty source"),
        _ => panic!("expected a transpilation error"),
    }
}

#[test]
fn test_transpile_basic() {
    let config = TranspilerConfig::default();
    let transpiler = Transpiler::new(config);
    let result = transpiler.transpile("print('hello')");
    assert!(result.is_ok());
    assert!(result.unwrap().contains("fn main"));
}

#[test]
fn test_transpile_names_source_language() {
    let config = TranspilerConfig::builder()
        .source_language(Language::Cpp)
        .build()
        .unwrap();
    let transpiler = Transpiler::new(config);
    let out = transpiler.transpile("int main() {}").unwrap();
    assert!(out.starts_with("// Transpiled from Cpp"));
}

#[test]
fn test_language_extensions() {
    assert!(Language::Python.extensions().contains(&"py"));
    assert!(Language::Rust.extensions().contains(&"rs"));
}

#[test]
fn test_language_extensions_exact() {
    assert_eq!(Language::C.extensions(), vec!["c", "h"]);
    assert_eq!(Language::Unknown.extensions(), Vec::<&str>::new());
}

#[test]
fn test_grade_display() {
    assert_eq!(Grade::APlus.as_str(), "A+");
    assert_eq!(Grade::A.as_str(), "A");
    assert_eq!(Grade::BMinus.as_str(), "B-");
}

#[test]
fn test_grade_from_points() {
    assert_eq!(Grade::from_points(96), Grade::APlus);
    assert_eq!(Grade::from_points(92), Grade::A);
    assert_eq!(Grade::from_points(87), Grade::AMinus);
    assert_eq!(Grade::from_points(45), Grade::F);
}

#[test]
fn test_grade_from_points_boundaries() {
    assert_eq!(Grade::from_points(95), Grade::APlus);
    assert_eq!(Grade::from_points(80), Grade::BPlus);
    assert_eq!(Grade::from_points(75), Grade::B);
    assert_eq!(Grade::from_points(70), Grade::BMinus);
    assert_eq!(Grade::from_points(60), Grade::C);
    assert_eq!(Grade::from_points(50), Grade::D);
    assert_eq!(Grade::from_points(49), Grade::F);
    assert_eq!(Grade::from_points(0), Grade::F);
}

#[test]
fn test_validator_creation() {
    let validator = SemanticValidator::new("original", "transpiled");
    assert_eq!(validator.original_binary().as_str(), "original");
}

#[test]
fn test_error_messages() {
    assert_eq!(
        Error::InvalidPath(String::from("/tmp/x")).message(),
        "Invalid path: /tmp/x"
    );
    assert_eq!(
        Error::NoFilesFound(String::from("dir")).message(),
        "No files found in directory: dir"
    );
    assert_eq!(
        Error::UnsupportedLanguage(String::from("cobol")).message(),
        "Unsupported language: cobol"
    );
    assert_eq!(
        Error::TranspilationError(String::from("bad")).message(),
        "Transpilation failed: bad"
    );
    assert_eq!(
        Error::ValidationError(String::from("bad")).message(),
        "Validation failed: bad"
    );
    assert_eq!(Error::Analysis(String::from("bad")).message(), "Analysis failed: bad");
    assert_eq!(Error::Other(String::from("bad")).message(), "Error: bad");
}
