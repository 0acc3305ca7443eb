use tcc::{Config, VariablesConfig, TABLE_PAGE_SIZE};

fn env_with(skip: &str) -> Vec<(String, String)> {
    let vars = [
        ("API_ENDPOINT", "http://node"),
        ("FAUCET_ENDPOINT", "http://faucet"),
        ("STRONGHOLD_PASSWORD", "SECRET-REDACTED"),
        ("STRONGHOLD_VAULT_PATH", "/vault"),
        ("NETWORK_ADDRESS", "abcd"),
        ("CREDENTIALS_TEMPLATE_DIRECTORY", "/templates"),
        ("CREDENTIALS_SD_DIRECTORY", "/sd"),
        ("HOME", "/root"),
    ];
    vars.iter()
        .filter(|(k, _)| *k != skip)
        .map(|(k, v)| (k.to_string(), v.to_string()))
        .collect()
}

#[test]
fn settings_read_from_environment() {
    let c = VariablesConfig::get(&env_with("")).unwrap();
    assert_eq!(c.get_value("api_endpoint"), "http://node");
    assert_eq!(c.get_value("stronghold_path"), "/vault");
    assert_eq!(c.get_value("credentials_sd_directory"), "/sd");
    assert_eq!(c.get_value("sqlite_path"), "");
    assert_eq!(c.value("HOME"), None);
    assert_eq!(c.vc_table_size(), TABLE_PAGE_SIZE);
    assert_eq!(c.did_table_size(), 10);
}

#[test]
fn optional_sqlite_path_is_taken_when_set() {
    let mut env = env_with("");
    env.push(("SQLITE_PATH".to_string(), "/tmp/db.sqlite".to_string()));
    let c = VariablesConfig::get(&env).unwrap();
    assert_eq!(c.get_value("sqlite_path"), "/tmp/db.sqlite");
}

#[test]
fn first_binding_wins() {
    let mut env = vec![("API_ENDPOINT".to_string(), "first".to_string())];
    env.extend(env_with(""));
    let c = VariablesConfig::get(&env).unwrap();
    assert_eq!(c.get_value("api_endpoint"), "first");
}

#[test]
fn missing_required_variable_is_named() {
    let e = VariablesConfig::get(&env_with("NETWORK_ADDRESS")).err().unwrap();
    assert_eq!(e.name, "NETWORK_ADDRESS");
    let e = VariablesConfig::get(&Vec::new()).err().unwrap();
    assert_eq!(e.name, "API_ENDPOINT");
}
