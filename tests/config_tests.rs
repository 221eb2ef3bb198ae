use task_manager::Config;

fn create_test_config() -> String {
    let s = r#"path: tmp.yml
last_updated: 12345
    "#;

    s.to_string()
}

#[test]
fn test_new_config() {
    let config = Config::new();

    // Assert default fields
    assert_eq!(config.path, None);
    assert_eq!(config.last_updated, 0);
}

#[test]
fn test_config_fixture_is_yaml_text() {
    let text = create_test_config();
    assert!(text.contains("path: tmp.yml"));
    assert!(text.contains("last_updated: 12345"));
}
