use minigrep::search_with_config;
use minigrep::Config;
use minigrep::ConfigError;

fn args_of(parts: &[&str]) -> Vec<String> {
    parts.iter().map(|part| part.to_string()).collect()
}

#[test]
fn one_argument_is_not_enough() {
    let args = args_of(&["prog"]);
    let result = Config::new(&args, false);
    assert!(matches!(result, Err(ConfigError::NotEnoughArguments)));
}

#[test]
fn two_arguments_are_not_enough() {
    let args = args_of(&["prog", "Rust"]);
    let result = Config::new(&args, true);
    assert!(matches!(result, Err(ConfigError::NotEnoughArguments)));
}

#[test]
fn absent_toggle_means_case_sensitive() {
    let args = args_of(&["prog", "Rust", "file.txt"]);
    let config = Config::new(&args, false).unwrap();
    assert!(config.case_sensitive);
    assert_eq!("Rust", config.query);
    assert_eq!("file.txt", config.filename);
}

#[test]
fn present_toggle_means_case_insensitive() {
    let args = args_of(&["prog", "Rust", "file.txt"]);
    let config = Config::new(&args, true).unwrap();
    assert!(!config.case_sensitive);
}

#[test]
fn config_dispatches_exact_search() {
    let args = args_of(&["prog", "rUsT", "file.txt"]);
    let config = Config::new(&args, false).unwrap();
    let contents = "Rust:\nTrust me.\nrUsT exactly";
    assert_eq!(vec!["rUsT exactly"], search_with_config(&config, contents));
}

#[test]
fn config_dispatches_folded_search() {
    let args = args_of(&["prog", "rUsT", "file.txt"]);
    let config = Config::new(&args, true).unwrap();
    let contents = "Rust:\nTrust me.\nrUsT exactly";
    assert_eq!(
        vec!["Rust:", "Trust me.", "rUsT exactly"],
        search_with_config(&config, contents)
    );
}
