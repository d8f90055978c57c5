use komori::config::{default_true, parse_cli, CliArgs, Config, ConfigFile, SandboxConfig};

fn args(a: &[&str]) -> Vec<String> {
    a.iter().map(|s| s.to_string()).collect()
}

#[test]
fn defaults_enable_the_sandbox() {
    assert!(default_true());
    assert!(SandboxConfig::default().enabled);
    assert!(ConfigFile::default().sandbox.enabled);
    let c = CliArgs::default();
    assert!(c.directory.is_none() && c.sandbox.is_none() && !c.help);
}

#[test]
fn no_arguments_parse_to_defaults() {
    let c = parse_cli(&Vec::new()).unwrap();
    assert!(c.directory.is_none());
    assert!(c.sandbox.is_none());
    assert!(!c.help);
}

#[test]
fn flags_and_directory() {
    let c = parse_cli(&args(&["-S", "/tmp"])).unwrap();
    assert_eq!(c.sandbox, Some(false));
    assert_eq!(c.directory, Some("/tmp".to_string()));
    let c = parse_cli(&args(&["--no-sandbox", "--sandbox"])).unwrap();
    assert_eq!(c.sandbox, Some(true));
    let c = parse_cli(&args(&["-s"])).unwrap();
    assert_eq!(c.sandbox, Some(true));
    let c = parse_cli(&args(&["-h"])).unwrap();
    assert!(c.help);
    let c = parse_cli(&args(&["--help", "a", "b"])).unwrap();
    assert!(c.help);
    assert_eq!(c.directory, Some("b".to_string()));
}

#[test]
fn unknown_option_is_refused() {
    assert_eq!(parse_cli(&args(&["--sandbox", "-x", "--bogus"])).unwrap_err(), "-x");
    assert_eq!(parse_cli(&args(&["-"])).unwrap_err(), "-");
}

#[test]
fn empty_argument_is_a_directory() {
    let c = parse_cli(&args(&[""])).unwrap();
    assert_eq!(c.directory, Some(String::new()));
}

#[test]
fn command_line_wins_over_config_file() {
    let file = ConfigFile { sandbox: SandboxConfig { enabled: true } };
    let cli = parse_cli(&args(&["-S"])).unwrap();
    let c = Config::resolve(cli, &file, Some("/cwd".to_string()));
    assert!(!c.sandbox_enabled);
    assert_eq!(c.start_dir, "/cwd");
}

#[test]
fn config_file_wins_over_default() {
    let file = ConfigFile { sandbox: SandboxConfig { enabled: false } };
    let cli = parse_cli(&args(&["/x"])).unwrap();
    let c = Config::resolve(cli, &file, Some("/cwd".to_string()));
    assert!(!c.sandbox_enabled);
    assert_eq!(c.start_dir, "/x");
}

#[test]
fn start_dir_falls_back_to_dot() {
    let c = Config::resolve(CliArgs::default(), &ConfigFile::default(), None);
    assert_eq!(c.start_dir, ".");
    assert!(c.sandbox_enabled);
}
