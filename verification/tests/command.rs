use opencode_desktop::command::CommandPlan;
use opencode_desktop::command::LaunchStrategy;
use opencode_desktop::command::build_command_plan;
use opencode_desktop::command::serve_args;
use opencode_desktop::command::shell_escape;

#[test]
fn shell_escape_quotes_and_empties() {
    assert_eq!(shell_escape(""), "''");
    assert_eq!(shell_escape("abc"), "'abc'");
    assert_eq!(shell_escape("a b"), "'a b'");
    assert_eq!(shell_escape("a'b"), "'a'\"'\"'b'");
}

#[test]
fn serve_args_name_hostname_and_port() {
    assert_eq!(
        serve_args("127.0.0.1", 4096),
        "--print-logs --log-level WARN serve --hostname 127.0.0.1 --port 4096"
    );
}

fn base_env_pairs() -> Vec<(String, String)> {
    vec![
        (
            "OPENCODE_EXPERIMENTAL_ICON_DISCOVERY".to_string(),
            "true".to_string(),
        ),
        (
            "OPENCODE_EXPERIMENTAL_FILEWATCHER".to_string(),
            "true".to_string(),
        ),
        ("OPENCODE_CLIENT".to_string(), "desktop".to_string()),
        ("XDG_STATE_HOME".to_string(), "/state".to_string()),
    ]
}

#[test]
fn direct_launch_splits_arguments_and_carries_env() {
    let extra = vec![("OPENCODE_SERVER_PASSWORD".to_string(), "pw".to_string())];
    let plan: CommandPlan = build_command_plan(
        LaunchStrategy::Direct {
            sidecar: "/bin/opencode-cli".to_string(),
        },
        "debug  config",
        &extra,
        "/state",
    );
    assert_eq!(plan.program, "/bin/opencode-cli");
    assert_eq!(plan.args, vec!["debug".to_string(), "config".to_string()]);

    let mut expected_env = base_env_pairs();
    expected_env.extend(extra);
    assert_eq!(plan.env, expected_env);
}

#[test]
fn login_shell_launch_quotes_the_sidecar_path() {
    let plan = build_command_plan(
        LaunchStrategy::LoginShell {
            shell: "/bin/zsh".to_string(),
            sidecar: "/Applications/opencode-cli".to_string(),
        },
        "serve --port 1",
        &Vec::new(),
        "/state",
    );
    assert_eq!(plan.program, "/bin/zsh");
    assert_eq!(
        plan.args,
        vec![
            "-il".to_string(),
            "-c".to_string(),
            "\"/Applications/opencode-cli\" serve --port 1".to_string(),
        ]
    );
    assert_eq!(plan.env, base_env_pairs());
}

#[test]
fn nushell_gets_the_external_command_caret() {
    let plan = build_command_plan(
        LaunchStrategy::LoginShell {
            shell: "/usr/bin/nu".to_string(),
            sidecar: "/bin/opencode-cli".to_string(),
        },
        "serve",
        &Vec::new(),
        "/state",
    );
    assert_eq!(plan.args[2], "^\"/bin/opencode-cli\" serve");
}

#[test]
fn wsl_launch_builds_the_bootstrap_script() {
    let extra = vec![
        ("OPENCODE_SERVER_PASSWORD".to_string(), "pw".to_string()),
        ("XDG_STATE_HOME".to_string(), "C:\\state".to_string()),
    ];
    let plan = build_command_plan(
        LaunchStrategy::Wsl {
            version: "1.2.3".to_string(),
        },
        "serve --port 1",
        &extra,
        "/state",
    );
    assert_eq!(plan.program, "wsl");
    assert_eq!(plan.args.len(), 4);
    assert_eq!(plan.args[0], "-e");
    assert_eq!(plan.args[1], "bash");
    assert_eq!(plan.args[2], "-lc");
    assert!(plan.env.is_empty());

    let expected_script = "set -e\nBIN=\"$HOME/.opencode/bin/opencode\"\nif [ ! -x \"$BIN\" ]; then\n  curl -fsSL https://opencode.ai/install | bash -s -- --version '1.2.3' --no-modify-path\nfi\nOPENCODE_EXPERIMENTAL_ICON_DISCOVERY=true OPENCODE_EXPERIMENTAL_FILEWATCHER=true OPENCODE_CLIENT=desktop XDG_STATE_HOME=\"$HOME/.local/state\" OPENCODE_SERVER_PASSWORD='pw' exec \"$BIN\" serve --port 1";
    assert_eq!(plan.args[3], expected_script);
}
