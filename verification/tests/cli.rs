use shimmy::cli::{parse_env_var, Cli, Commands};

#[test]
fn splits_at_the_first_equals_sign() {
    assert_eq!(parse_env_var("KEY=VALUE"), Ok(("KEY".to_string(), "VALUE".to_string())));
    assert_eq!(parse_env_var("A=B=C"), Ok(("A".to_string(), "B=C".to_string())));
    assert_eq!(parse_env_var("=x"), Ok((String::new(), "x".to_string())));
    assert_eq!(parse_env_var("EMPTY="), Ok(("EMPTY".to_string(), String::new())));
}

#[test]
fn rejects_text_without_equals_sign() {
    assert_eq!(
        parse_env_var("novalue"),
        Err("Environment variables must be in 'KEY=VALUE' format. Got: 'novalue'".to_string())
    );
    assert_eq!(
        parse_env_var(""),
        Err("Environment variables must be in 'KEY=VALUE' format. Got: ''".to_string())
    );
}

#[test]
fn key_and_value_rebuild_the_argument() {
    for arg in ["API_KEY=sk-xxx", "DEBUG=true", "x==", "ü=ö"] {
        let (k, v) = parse_env_var(arg).unwrap();
        assert!(!k.contains('='));
        assert_eq!(format!("{}={}", k, v), arg);
    }
}

#[test]
fn cli_values_hold_their_fields() {
    let cli = Cli {
        verbose: true,
        command: Commands::Stdio {
            envs: vec![("A".to_string(), "1".to_string())],
            server_command: "python".to_string(),
            server_args: vec!["server.py".to_string()],
        },
    };
    assert!(cli.verbose);
    match cli.command {
        Commands::Stdio { server_command, .. } => assert_eq!(server_command, "python"),
        Commands::Http { .. } => panic!("expected stdio"),
    }
}
