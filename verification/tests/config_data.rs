use promptgen::config::{Config, Prompt};
use std::collections::HashMap;

#[test]
fn config_holds_named_prompts() {
    let mut prompts: HashMap<String, Prompt> = HashMap::new();
    prompts.insert(
        "default".to_string(),
        Prompt {
            model: Some("gpt-3.5-turbo".to_string()),
            mode: Some("completion".to_string()),
            template: "This is a test prompt.".to_string(),
        },
    );
    let config = Config { prompts };
    let p = config.prompts.get("default").unwrap();
    assert_eq!(p.model.as_deref(), Some("gpt-3.5-turbo"));
    assert_eq!(p.mode.as_deref(), Some("completion"));
    assert_eq!(p.template, "This is a test prompt.");
    assert!(config.prompts.get("nonexistent").is_none());
}

#[test]
fn prompt_headers_are_optional() {
    let p = Prompt {
        model: None,
        mode: None,
        template: "{}".to_string(),
    };
    assert!(p.model.is_none());
    assert!(p.mode.is_none());
}
