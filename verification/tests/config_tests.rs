use somo::config::{merge_cli_config_args, parse_config_file};

#[test]
fn test_parse_config_file() {
    const DUMMY_CONFIG: &str = r#"# somo configuration file
        # View compact version of the table
        --compact

        # Sort by a specific field (proto, local_port, remote_address, remote_port, program, pid, state)
        --sort=pid

        # Only include TCP connections
        # --tcp

        # Only include established connections
        # --established
        "#;

    let argv = parse_config_file(DUMMY_CONFIG);
    assert_eq!(argv, vec!["--compact", "--sort=pid"])
}

#[test]
fn test_merge_cli_config_args() {
    let config_args = vec![
        "--compact".to_owned(),
        "--sort=pid".to_owned(),
        "-t".to_owned(),
    ];
    let cli_args = vec![
        "somo".to_owned(),
        "-l".to_owned(),
        "--sort=local_port".to_owned(),
    ];

    let merged_args = merge_cli_config_args(&cli_args, &config_args);
    assert_eq!(
        merged_args,
        vec![
            "somo",
            "--compact",
            "--sort=pid",
            "-t",
            "-l",
            "--sort=local_port"
        ]
    );
}

#[test]
fn test_merge_cli_config_args_no_config() {
    let config_args = vec![
        "--compact".to_owned(),
        "--sort=pid".to_owned(),
        "-t".to_owned(),
    ];
    let cli_args = vec![
        "somo".to_owned(),
        "-l".to_owned(),
        "--sort=local_port".to_owned(),
        "--no-config".to_owned(),
    ];

    let merged_args = merge_cli_config_args(&cli_args, &config_args);
    assert_eq!(
        merged_args,
        vec!["somo", "-l", "--sort=local_port", "--no-config"]
    );
}
