use dumbcoder::security::{glob_match, SecurityFilter};

fn parts(p: &str) -> Option<Vec<String>> {
    Some(p.split('/').filter(|s| !s.is_empty()).map(|s| s.to_string()).collect())
}

#[test]
fn test_glob_match() {
    assert!(glob_match("*.pem", "server.pem"));
    assert!(glob_match("credentials.*", "credentials.json"));
    assert!(!glob_match("*.pem", "server.key"));
    assert!(glob_match("id_rsa", "id_rsa"));
}

#[test]
fn glob_star_alone_matches_anything() {
    assert!(glob_match("*", ""));
    assert!(glob_match("*", "anything.at.all"));
}

#[test]
fn glob_literal_needs_equality() {
    assert!(!glob_match("id_rsa", "id_rsa.pub"));
    assert!(glob_match("secrets.*", "secrets.yaml"));
    assert!(!glob_match("secrets.*", "my_secrets.yaml"));
}

#[test]
fn path_inside_root_is_allowed() {
    let f = SecurityFilter::new(Vec::new());
    assert!(f.is_path_allowed(&parts("/home/u/proj/src/main.rs"), &parts("/home/u/proj")));
}

#[test]
fn path_outside_root_is_denied() {
    let f = SecurityFilter::new(Vec::new());
    assert!(!f.is_path_allowed(&parts("/home/u/other/main.rs"), &parts("/home/u/proj")));
}

#[test]
fn unresolved_path_is_denied() {
    let f = SecurityFilter::new(Vec::new());
    assert!(!f.is_path_allowed(&None, &parts("/home/u/proj")));
    assert!(!f.is_path_allowed(&parts("/home/u/proj/a.rs"), &None));
}

#[test]
fn blacklisted_dir_is_denied() {
    let f = SecurityFilter::new(Vec::new());
    assert!(!f.is_path_allowed(&parts("/p/node_modules/x/index.js"), &parts("/p")));
    assert!(!f.is_path_allowed(&parts("/p/.git/config"), &parts("/p")));
}

#[test]
fn extra_ignored_dir_is_denied() {
    let f = SecurityFilter::new(vec!["vendor".to_string()]);
    assert!(!f.is_path_allowed(&parts("/p/vendor/lib.rs"), &parts("/p")));
    assert!(f.is_path_allowed(&parts("/p/src/lib.rs"), &parts("/p")));
}

#[test]
fn blacklisted_files_and_extensions_are_denied() {
    let f = SecurityFilter::new(Vec::new());
    assert!(!f.is_path_allowed(&parts("/p/.env"), &parts("/p")));
    assert!(!f.is_path_allowed(&parts("/p/certs/server.pem"), &parts("/p")));
    assert!(!f.is_path_allowed(&parts("/p/credentials.json"), &parts("/p")));
    assert!(!f.is_path_allowed(&parts("/p/keys/store.jks"), &parts("/p")));
}

#[test]
fn command_allowed_by_prefix() {
    let f = SecurityFilter::new(Vec::new());
    let allowed = vec!["git status".to_string(), "rg".to_string()];
    assert!(f.is_command_allowed("git status --short", &allowed));
    assert!(f.is_command_allowed("rg foo", &allowed));
    assert!(!f.is_command_allowed("rm -rf /", &allowed));
    assert!(!f.is_command_allowed("git push", &allowed));
}
