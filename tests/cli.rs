use std::path::PathBuf;

use polyblocks::config::{
    get_config_path, get_output, get_server_input, parse_command, parse_config_toml,
    parse_duration, CliParseError, OutputFormat,
};
use polyblocks::report::{suggest_cli_fix, suggest_server_fix};

const TEST_CONFIG: &str = "[global]
separator = \" | \"

[battery]
script = \"cat /sys/class/power_supply/BAT0/capacity\"
interval = 0

[weather]
script = \"/path/to/some/script\"
interval = 30
";

#[test]
fn cli_config_path_specified() {
    let mut cli_path = PathBuf::new();
    cli_path.push("tests/cli.rs");
    cli_path.push("Config.toml");
    let config_path = get_config_path(
        Some(cli_path.to_str().unwrap()),
        Some("config.toml".to_string()),
        Some("home".to_string()),
    )
    .unwrap();
    assert_eq!(PathBuf::from(config_path), cli_path);
}

#[test]
fn cli_config_path_env_var() {
    let config_env_var = PathBuf::from("/path/to/config.toml");
    let config_path = get_config_path(
        None,
        Some("/path/to/config.toml".to_string()),
        Some("home".to_string()),
    )
    .unwrap();
    assert_eq!(PathBuf::from(config_path), config_env_var);
}

#[test]
fn cli_config_path_default() {
    let config_path = get_config_path(None, None, Some("~".to_string())).unwrap();
    assert_eq!(
        PathBuf::from(config_path),
        PathBuf::from("~/.config/polyblocks/Config.toml")
    );
}

#[test]
fn config_cli_get_config_file() {
    let mut cli_path = PathBuf::new();
    cli_path.push("tests/cli.rs");
    cli_path.push("Config.toml");
    let config_path =
        get_config_path(Some(cli_path.to_str().unwrap()), None, Some("home".to_string())).unwrap();
    assert_eq!(PathBuf::from(config_path), cli_path);
}

#[test]
fn config_env_var_get_config_file() {
    let mut cli_path = PathBuf::new();
    cli_path.push("tests/cli.rs");
    cli_path.push("Config.toml");
    let env_value = cli_path.to_str().unwrap().to_string();
    let config_path = get_config_path(None, Some(env_value), Some("home".to_string())).unwrap();
    assert_eq!(PathBuf::from(config_path), cli_path);
}

#[test]
fn config_error_get_config_file() {
    let config_path = get_config_path(None, None, None).unwrap_err();
    assert_eq!(config_path, CliParseError::Home);
}

#[test]
fn config_path_default_matches_path_push() {
    let mut expected = PathBuf::from("/home/user/");
    expected.push(".config");
    expected.push("polyblocks");
    expected.push("Config.toml");
    let config_path = get_config_path(None, None, Some("/home/user/".to_string())).unwrap();
    assert_eq!(PathBuf::from(config_path), expected);
    let relative = get_config_path(None, None, Some(String::new())).unwrap();
    assert_eq!(relative, ".config/polyblocks/Config.toml");
}

#[test]
fn cli_get_output_none() {
    match get_output(None) {
        OutputFormat::Newline => (),
        OutputFormat::XSetRoot => unreachable!(),
    }
}

#[test]
fn cli_get_output_output() {
    match get_output(Some("output")) {
        OutputFormat::Newline => (),
        OutputFormat::XSetRoot => unreachable!(),
    }
}

#[test]
fn cli_get_output_xsetroot() {
    match get_output(Some("xsetroot")) {
        OutputFormat::Newline => unreachable!(),
        OutputFormat::XSetRoot => (),
    }
}

#[test]
fn cache_initialization() {
    let (actual_cache, _) = parse_config_toml(TEST_CONFIG).unwrap();
    assert_eq!(actual_cache.status(), "NONE | NONE");
    let mut cache = actual_cache;
    cache.update("battery".to_string(), "B".to_string());
    cache.update("weather".to_string(), "W".to_string());
    assert_eq!(cache.status(), "B | W");
}

#[test]
fn cache_constructor() {
    let (actual_cache, _) = parse_config_toml(TEST_CONFIG).unwrap();
    let mut cache = actual_cache;
    assert_eq!(cache.status(), "NONE | NONE");
    cache.update("unknown".to_string(), "X".to_string());
    assert_eq!(cache.status(), "NONE | NONE");
}

#[test]
fn command_initialization() {
    let (_, actual_commands) = parse_config_toml(TEST_CONFIG).unwrap();
    let expected_intervals: Vec<u64> = vec![0, 30];
    assert_eq!(actual_commands.len(), 2);
    for (actual, expected) in actual_commands.iter().zip(expected_intervals) {
        assert_eq!(actual.interval_secs, expected);
    }
    assert_eq!(actual_commands[0].script.program, "cat");
    assert_eq!(
        actual_commands[0].script.args,
        vec!["/sys/class/power_supply/BAT0/capacity".to_string()]
    );
    assert_eq!(actual_commands[1].script.program, "/path/to/some/script");
    assert!(actual_commands[1].script.args.is_empty());
}

#[test]
fn config_rejects_text_that_is_not_toml() {
    assert!(matches!(
        parse_config_toml("this is = = not toml"),
        Err(CliParseError::TomlParseError)
    ));
}

#[test]
fn config_rejects_negative_interval() {
    let text = "[battery]\nscript = \"cat x\"\ninterval = -5\n";
    assert!(matches!(
        parse_config_toml(text),
        Err(CliParseError::TomlParseError)
    ));
}

#[test]
fn config_rejects_empty_script() {
    let text = "[battery]\nscript = \"   \"\ninterval = 5\n";
    assert!(matches!(parse_config_toml(text), Err(CliParseError::ConfigFile)));
}

#[test]
fn config_sections_without_producer_still_declare_slots() {
    let text = "[clock]\n[volume]\nscript = \"vol\"\n[global]\nseparator = \"\"\n";
    let (mut cache, blocks) = parse_config_toml(text).unwrap();
    assert!(blocks.is_empty());
    assert_eq!(cache.status(), "NONENONE");
    cache.update("volume".to_string(), "50%".to_string());
    assert_eq!(cache.status(), "NONE50%");
}

#[test]
fn server_input_keeps_id_and_format() {
    let data = get_server_input("7".to_string(), TEST_CONFIG, OutputFormat::XSetRoot).unwrap();
    assert_eq!(data.server.server_id, "7");
    assert_eq!(data.server.output_format, OutputFormat::XSetRoot);
    assert_eq!(data.server.cache.status(), "NONE | NONE");
    assert_eq!(data.blocks.len(), 2);
}

#[test]
fn duration_and_command_parsing() {
    assert_eq!(parse_duration(30), Ok(30));
    assert_eq!(parse_duration(0), Ok(0));
    assert_eq!(parse_duration(-1), Err(CliParseError::TomlParseError));
    let command = parse_command("  cat\t/a   /b\n").unwrap();
    assert_eq!(command.program, "cat");
    assert_eq!(command.args, vec!["/a".to_string(), "/b".to_string()]);
    assert!(matches!(parse_command(""), Err(CliParseError::ConfigFile)));
    let wide = parse_command("a\u{3000}b").unwrap();
    assert_eq!(wide.program, "a");
    assert_eq!(wide.args, vec!["b".to_string()]);
}

#[test]
fn error_reports() {
    let home = suggest_cli_fix(CliParseError::Home);
    assert_eq!(home.title, "$HOME NOT FOUND");
    let file = suggest_cli_fix(CliParseError::ConfigFile);
    assert_eq!(file.title, "CONFIG FILE ERROR");
    assert!(file.suggestion.contains("~/.config/polyblocks/Config.toml"));
    let toml = suggest_cli_fix(CliParseError::TomlParseError);
    assert_eq!(toml.title, "TOML PARSE ERROR");
    let server = suggest_server_fix("4");
    assert_eq!(server.title, "COULD NOT CONNECT TO SOCKET");
    assert_eq!(
        server.suggestion,
        "Is another instance of polyblocks-server running with id \"4\"? Please pass polyblocks-server a unique id and try again."
    );
}

#[test]
fn config_entries_of_other_kinds() {
    let text = "title = 3\n[clock]\nscript = \"date\"\ninterval = \"30\"\n[global]\nseparator = 5\n";
    let (mut cache, blocks) = parse_config_toml(text).unwrap();
    assert!(blocks.is_empty());
    assert_eq!(cache.status(), "NONENONE");
    cache.update("title".to_string(), "T".to_string());
    assert_eq!(cache.status(), "NONET");
}

#[test]
fn server_input_fails_as_the_configuration_does() {
    assert!(matches!(
        get_server_input("0".to_string(), "[a]\nscript = \"x\"\ninterval = -1\n", OutputFormat::Newline),
        Err(CliParseError::TomlParseError)
    ));
    assert!(matches!(
        get_server_input("0".to_string(), "[a\n", OutputFormat::Newline),
        Err(CliParseError::TomlParseError)
    ));
    assert!(matches!(
        get_server_input("0".to_string(), "[a]\nscript = \"\"\ninterval = 1\n", OutputFormat::Newline),
        Err(CliParseError::ConfigFile)
    ));
}
