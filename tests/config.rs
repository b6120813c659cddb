use rablet::{classify_answer, plan_config_load, Config, ConfigLoad, PromptAnswer};

#[test]
fn default_config_is_empty() {
    assert_eq!(Config::new_default(), Config {});
    assert_eq!(Config::default(), Config {});
}

#[test]
fn replies_are_classified() {
    assert_eq!(classify_answer("y\n"), PromptAnswer::Yes);
    assert_eq!(classify_answer("  Y \r\n"), PromptAnswer::Yes);
    assert_eq!(classify_answer("N\n"), PromptAnswer::No);
    assert_eq!(classify_answer("\n"), PromptAnswer::No);
    assert_eq!(classify_answer(""), PromptAnswer::No);
    assert_eq!(classify_answer("yes\n"), PromptAnswer::Invalid);
    assert_eq!(classify_answer("y\nn\n"), PromptAnswer::Invalid);
}

#[test]
fn load_plan_follows_what_is_on_disk() {
    assert_eq!(plan_config_load(false, false), ConfigLoad::CreateDefault);
    assert_eq!(plan_config_load(true, true), ConfigLoad::ReadFile);
    assert_eq!(plan_config_load(true, false), ConfigLoad::AskToReplace);
}
