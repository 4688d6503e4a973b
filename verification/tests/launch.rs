use syntax_installer::error::InstallError;
use syntax_installer::launch::{LaunchConfig, Platform};
use syntax_installer::tree::PathIndex;

fn config() -> LaunchConfig {
    LaunchConfig {
        legacy_year: "2014".to_string(),
        executable: "SyntaxPlayerBeta.exe".to_string(),
        authentication_url: "https://www.syntax.eco/Login/Negotiate.ashx".to_string(),
        wrapper: "wine".to_string(),
    }
}

fn strings(items: &[&str]) -> Vec<String> {
    items.iter().map(|s| s.to_string()).collect()
}

#[test]
fn legacy_year_has_no_year_directory() {
    assert_eq!(config().executable_path("/v/v1", "2014"), "/v/v1/SyntaxPlayerBeta.exe");
}

#[test]
fn other_years_sit_in_their_client_directory() {
    assert_eq!(config().executable_path("/v/v1", "2016"), "/v/v1/Client2016/SyntaxPlayerBeta.exe");
    assert_eq!(config().executable_path("/v/v1", "2020"), "/v/v1/Client2020/SyntaxPlayerBeta.exe");
    assert_eq!(config().executable_path("/v/v1", ""), "/v/v1/Client/SyntaxPlayerBeta.exe");
}

#[test]
fn flags_name_url_script_and_ticket() {
    assert_eq!(
        config().launch_flags("T", "https://j"),
        strings(&[
            "--play",
            "--authenticationUrl",
            "https://www.syntax.eco/Login/Negotiate.ashx",
            "--joinScriptUrl",
            "https://j",
            "--authenticationTicket",
            "T",
        ])
    );
}

#[test]
fn native_launch_of_2016_with_ticket_and_join_script() {
    let mut index = PathIndex::new();
    index.record("/v/v1/Client2016/SyntaxPlayerBeta.exe");
    let command =
        config().launch(&index, Platform::Native, "/v/v1", "2016", "T", "https://j").unwrap();
    assert_eq!(command.program, "/v/v1/Client2016/SyntaxPlayerBeta.exe");
    assert!(!command.exit_after_spawn);
    let args = &command.args;
    let ticket = args.iter().position(|a| a == "--authenticationTicket").unwrap();
    assert_eq!(args[ticket + 1], "T");
    let script = args.iter().position(|a| a == "--joinScriptUrl").unwrap();
    assert_eq!(args[script + 1], "https://j");
    assert_eq!(args.iter().filter(|a| *a == "--authenticationTicket").count(), 1);
    assert_eq!(args.iter().filter(|a| *a == "--joinScriptUrl").count(), 1);
    assert_eq!(args[0], "--play");
}

#[test]
fn launch_through_the_wrapper() {
    let mut index = PathIndex::new();
    index.record("/v/v1/SyntaxPlayerBeta.exe");
    let command =
        config().launch(&index, Platform::Compatibility, "/v/v1", "2014", "T", "https://j").unwrap();
    assert_eq!(command.program, "wine");
    assert!(command.exit_after_spawn);
    assert_eq!(
        command.args,
        strings(&[
            "/v/v1/SyntaxPlayerBeta.exe",
            "--play",
            "--authenticationUrl",
            "https://www.syntax.eco/Login/Negotiate.ashx",
            "--joinScriptUrl",
            "https://j",
            "--authenticationTicket",
            "T",
        ])
    );
}

#[test]
fn missing_executable_is_an_error() {
    let mut index = PathIndex::new();
    index.record("/v/v1");
    let r = config().launch(&index, Platform::Native, "/v/v1", "2016", "T", "https://j");
    assert_eq!(
        r.err(),
        Some(InstallError::MissingExecutable("/v/v1/Client2016/SyntaxPlayerBeta.exe".to_string()))
    );
    index.record("/v/v1/SyntaxPlayerBeta.exe");
    let r = config().launch(&index, Platform::Native, "/v/v1", "2016", "T", "https://j");
    assert!(r.is_err());
}

#[test]
fn command_for_a_given_path() {
    let command = config().command_for(Platform::Native, "/x/y.exe".to_string(), "t", "s");
    assert_eq!(command.program, "/x/y.exe");
    assert_eq!(command.args.len(), 7);
    assert_eq!(command.args[6], "t");
    assert_eq!(command.args[4], "s");
}
