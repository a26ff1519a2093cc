use dumbcoder::cmd::index as index_cmd;
use dumbcoder::config::{config_layers, ConfigError, TomlValue};
use dumbcoder::index::{symbols_of_source, Language, SymbolKind};
use dumbcoder::model::{retry_step, RequestOutcome, RetryStep, MAX_RETRIES};

fn entry<'a>(v: &'a TomlValue, key: &str) -> Option<&'a TomlValue> {
    match v {
        TomlValue::Table(es) => es.iter().find(|(k, _)| k == key).map(|(_, x)| x),
        _ => None,
    }
}

fn text(v: Option<&TomlValue>) -> Option<&str> {
    match v {
        Some(TomlValue::String(s)) => Some(s.as_str()),
        _ => None,
    }
}

#[test]
fn retries_back_off_on_rate_limits_server_and_connection_errors() {
    assert_eq!(retry_step(0, RequestOutcome::Success), RetryStep::Done);
    assert_eq!(retry_step(0, RequestOutcome::Status(429)), RetryStep::Retry(2));
    assert_eq!(retry_step(1, RequestOutcome::Status(503)), RetryStep::Retry(4));
    assert_eq!(retry_step(2, RequestOutcome::ConnectionError), RetryStep::Retry(8));
    assert_eq!(retry_step(MAX_RETRIES, RequestOutcome::Status(500)), RetryStep::GiveUp);
    assert_eq!(retry_step(0, RequestOutcome::Status(404)), RetryStep::GiveUp);
    assert_eq!(retry_step(0, RequestOutcome::Status(600)), RetryStep::GiveUp);
}

#[test]
fn plain_index_is_incremental() {
    assert!(!index_cmd::full_index(false, false));
    assert!(index_cmd::full_index(true, false));
}

#[test]
fn project_config_overrides_global() {
    let global = "[model]\nprovider = \"ollama\"\nmodel = \"a\"\n";
    let project = "[model]\nmodel = \"b\"\n";
    let merged = config_layers(Some(global), Some(project)).unwrap().unwrap();
    let model = entry(&merged, "model").unwrap();
    assert_eq!(text(entry(model, "model")), Some("b"));
    assert_eq!(text(entry(model, "provider")), Some("ollama"));
}

#[test]
fn broken_global_config_is_passed_over_broken_project_config_is_an_error() {
    assert!(matches!(config_layers(Some("= ="), None), Ok(None)));
    assert!(matches!(config_layers(None, None), Ok(None)));
    let only_global = config_layers(Some("[model]\nmodel = \"g\"\n"), None).unwrap().unwrap();
    assert_eq!(text(entry(entry(&only_global, "model").unwrap(), "model")), Some("g"));
    let broken = config_layers(Some("[model]\nmodel = \"g\"\n"), Some("[model"));
    assert!(matches!(broken, Err(ConfigError::InvalidProjectConfig)));
    assert_eq!(ConfigError::InvalidProjectConfig.message(), "Failed to parse project config file");
}

#[test]
fn source_symbols_come_from_the_parse() {
    let src = "struct Order {}\n\nfn cancel_order(id: u32) -> bool {\n    true\n}\n";
    let symbols = symbols_of_source(src, Language::Rust).unwrap();
    let found: Vec<(&str, SymbolKind, usize)> =
        symbols.iter().map(|s| (s.name.as_str(), s.kind, s.start_line)).collect();
    assert_eq!(found, vec![("Order", SymbolKind::Struct, 1), ("cancel_order", SymbolKind::Function, 3)]);
    let py = symbols_of_source("def f():\n    return 1\n", Language::Python).unwrap();
    assert_eq!(py[0].name, "f");
}
