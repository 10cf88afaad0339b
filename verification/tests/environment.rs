use std::str::FromStr;

use airlogs::types::{Configs, ConfigsCollection, Environment};

fn settings(name: &str) -> Configs {
    Configs {
        base_path: format!("{}-bucket", name),
        profile: format!("{}-profile", name),
        output_path: format!("/logs/{}", name),
    }
}

fn collection() -> ConfigsCollection {
    ConfigsCollection { dev: settings("dev"), stage: settings("stage"), prod: settings("prod") }
}

#[test]
fn every_alias_is_known() {
    for name in ["production", "prod", "p"] {
        assert_eq!(Environment::from_str(name), Ok(Environment::Prod));
    }
    for name in ["stage", "s"] {
        assert_eq!(Environment::from_str(name), Ok(Environment::Stage));
    }
    for name in ["development", "dev", "d"] {
        assert_eq!(Environment::from_str(name), Ok(Environment::Dev));
    }
}

#[test]
fn aliases_are_read_in_any_case() {
    assert_eq!(Environment::from_str("PRODUCTION"), Ok(Environment::Prod));
    assert_eq!(Environment::from_str("Prod"), Ok(Environment::Prod));
    assert_eq!(Environment::from_str("P"), Ok(Environment::Prod));
    assert_eq!(Environment::from_str("sTaGe"), Ok(Environment::Stage));
    assert_eq!(Environment::from_str("S"), Ok(Environment::Stage));
    assert_eq!(Environment::from_str("Development"), Ok(Environment::Dev));
    assert_eq!(Environment::from_str("DEV"), Ok(Environment::Dev));
    assert_eq!(Environment::from_str("D"), Ok(Environment::Dev));
    assert_eq!("pRoD".parse::<Environment>(), Ok(Environment::Prod));
}

#[test]
fn any_other_name_is_unknown() {
    for name in ["", " ", "prod ", " prod", "pro", "produktion", "staging", "test", "x", "dev\n"] {
        assert_eq!(Environment::from_str(name), Err("Unknown environment!".to_string()));
    }
}

#[test]
fn from_name_knows_lower_case_only() {
    assert_eq!(Environment::from_name("prod"), Some(Environment::Prod));
    assert_eq!(Environment::from_name("s"), Some(Environment::Stage));
    assert_eq!(Environment::from_name("development"), Some(Environment::Dev));
    assert_eq!(Environment::from_name("PROD"), None);
    assert_eq!(Environment::from_name("Stage"), None);
    assert_eq!(Environment::from_name(""), None);
}

#[test]
fn each_environment_has_its_settings() {
    let all = collection();
    assert_eq!(all.get_config(&Environment::Prod), &settings("prod"));
    assert_eq!(all.get_config(&Environment::Stage), &settings("stage"));
    assert_eq!(all.get_config(&Environment::Dev), &settings("dev"));
}

#[test]
fn the_output_path_can_be_overridden() {
    let changed = settings("dev").with_output(Some("/elsewhere".to_string()));
    assert_eq!(
        changed,
        Configs {
            base_path: "dev-bucket".to_string(),
            profile: "dev-profile".to_string(),
            output_path: "/elsewhere".to_string(),
        }
    );
    assert_eq!(settings("dev").with_output(None), settings("dev"));
}
