use clickless::cli::{check_config_outcome, parse_args, CliRequest};

fn args(list: &[&str]) -> Vec<String> {
    list.iter().map(|s| s.to_string()).collect()
}

#[test]
fn no_arguments_run_with_defaults() {
    match parse_args(&args(&[])).unwrap() {
        CliRequest::Run(o) => {
            assert!(o.config_path.is_none());
            assert!(!o.check_config && !o.smoke_output && !o.no_tray);
        }
        other => panic!("unexpected {other:?}"),
    }
}

#[test]
fn flags_and_config_path_are_read() {
    match parse_args(&args(&["--no-tray", "-c", "my.toml", "--check-config"])).unwrap() {
        CliRequest::Run(o) => {
            assert_eq!(o.config_path.as_deref(), Some("my.toml"));
            assert!(o.check_config && o.no_tray && !o.smoke_output);
        }
        other => panic!("unexpected {other:?}"),
    }
}

#[test]
fn help_and_version_answer_at_once() {
    assert!(matches!(parse_args(&args(&["-h", "--bogus"])).unwrap(), CliRequest::Help));
    assert!(matches!(parse_args(&args(&["--smoke-output", "-V"])).unwrap(), CliRequest::Version));
}

#[test]
fn bad_arguments_are_refused_with_the_reason() {
    assert_eq!(parse_args(&args(&["--config"])).unwrap_err(), "--config requires a file path");
    assert_eq!(parse_args(&args(&["--fast"])).unwrap_err(), "Unsupported argument: --fast");
}

#[test]
fn check_config_reports_the_notice_or_confirms() {
    assert_eq!(check_config_outcome(Some("bad".into())), Err("bad".to_string()));
    assert_eq!(
        check_config_outcome(None),
        Ok("Configuration valid. Pointer runtime is not started.".to_string())
    );
}
