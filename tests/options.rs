use lingui_icu::options::{LinguiJsOptions, LinguiOptions, RuntimeModulesConfig, RuntimeModulesConfigMap};

fn empty_modules() -> Option<RuntimeModulesConfigMap> {
    Some(RuntimeModulesConfigMap { i18n: None, trans: None, use_lingui: None })
}

#[test]
fn test_strip_non_essential_fields_config() {
    let config = LinguiJsOptions { runtime_modules: empty_modules(), strip_non_essential_fields: Some(true) };

    let options = config.to_options("development");
    assert!(options.strip_non_essential_fields);

    let config = LinguiJsOptions { runtime_modules: empty_modules(), strip_non_essential_fields: Some(false) };

    let options = config.to_options("production");
    assert!(!options.strip_non_essential_fields);
}

#[test]
fn test_strip_non_essential_fields_default() {
    let config = LinguiJsOptions { runtime_modules: empty_modules(), strip_non_essential_fields: None };

    let options = config.to_options("development");
    assert!(!options.strip_non_essential_fields);

    let config = LinguiJsOptions { runtime_modules: empty_modules(), strip_non_essential_fields: None };

    let options = config.to_options("production");
    assert!(options.strip_non_essential_fields);
}

#[test]
fn configured_modules_override_defaults() {
    let config = LinguiJsOptions {
        runtime_modules: Some(RuntimeModulesConfigMap {
            i18n: Some(RuntimeModulesConfig("my-core".into(), Some("myI18n".into()))),
            trans: Some(RuntimeModulesConfig("my-react".into(), None)),
            use_lingui: None,
        }),
        strip_non_essential_fields: None,
    };
    let options = config.to_options("development");
    let m = &options.runtime_modules;
    assert_eq!(m.i18n, ("my-core".to_string(), "myI18n".to_string()));
    assert_eq!(m.trans, ("my-react".to_string(), "Trans".to_string()));
    assert_eq!(m.use_lingui, ("@lingui/react".to_string(), "useLingui".to_string()));
}

#[test]
fn no_modules_section_gives_defaults() {
    let config = LinguiJsOptions { runtime_modules: None, strip_non_essential_fields: None };
    let options = config.to_options("test");
    assert!(!options.strip_non_essential_fields);
    assert_eq!(options.runtime_modules.i18n, ("@lingui/core".to_string(), "i18n".to_string()));
}

#[test]
fn default_options() {
    let options = LinguiOptions::default();
    assert!(!options.strip_non_essential_fields);
    assert_eq!(options.runtime_modules.i18n, ("@lingui/core".to_string(), "i18n".to_string()));
    assert_eq!(options.runtime_modules.trans, ("@lingui/react".to_string(), "Trans".to_string()));
    assert_eq!(options.runtime_modules.use_lingui, ("@lingui/react".to_string(), "useLingui".to_string()));
    let copy = options.clone();
    assert_eq!(copy.runtime_modules.trans.1, "Trans");
}
