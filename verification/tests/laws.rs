use dumbcoder::index::SymbolKind;
use dumbcoder::text::{parse_u32, to_chars, u64_to_string};
use dumbcoder::tui::app::App;

#[test]
fn history_keeps_the_last_five_hundred() {
    let mut app = App::new("s".to_string());
    for i in 0..502 {
        app.push_user_message(format!("m{i}"));
    }
    assert_eq!(app.history.len(), 500);
    assert_eq!(app.history[0], "m2");
    assert_eq!(app.history[499], "m501");
    app.push_user_message(String::new());
    assert_eq!(app.history.len(), 500);
    assert_eq!(app.messages.len(), 503);
}

#[test]
fn kind_names_round_trip() {
    for k in [
        SymbolKind::Function,
        SymbolKind::Method,
        SymbolKind::Struct,
        SymbolKind::Class,
        SymbolKind::Enum,
        SymbolKind::Trait,
        SymbolKind::Impl,
        SymbolKind::Import,
        SymbolKind::Interface,
        SymbolKind::Constant,
    ] {
        assert_eq!(SymbolKind::from_str(k.as_str()), k);
    }
}

#[test]
fn decimal_text_reads_back() {
    for n in [0u32, 7, 42, 1000, u32::MAX] {
        assert_eq!(parse_u32(&to_chars(&u64_to_string(n as u64))), Some(n));
    }
    assert_eq!(parse_u32(&to_chars("")), None);
    assert_eq!(parse_u32(&to_chars("4294967296")), None);
}
