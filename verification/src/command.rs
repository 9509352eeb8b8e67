//! The structured spawn-plan builder: instead of ad-hoc shell-string
//! concatenation, each launch strategy — direct execution, a login-shell
//! wrapper, or a WSL wrapper with an embedded bootstrap script — produces
//! an executable path, an argument list and an environment map.
use vstd::prelude::*;
use vstd::string::*;

use crate::text::is_unicode_space;
use crate::text::join_with;
use crate::text::push_char;
use crate::text::push_joined;
use crate::text::str_views;

verus! {

/// The persisted toggle that routes sidecar launches through WSL.
#[derive(Debug, Clone, Copy, PartialEq, Eq, Structural, Default)]
pub struct WslConfig {
    pub enabled: bool,
}

/// A single-quoted POSIX shell word: an empty string becomes `''`, and
/// every embedded quote is closed, escaped and reopened.
pub open spec fn escape_quotes(s: Seq<char>) -> Seq<char>
    decreases s.len(),
{
    if s.len() == 0 {
        Seq::empty()
    } else {
        escape_quotes(s.drop_last()) + if s.last() == '\'' {
            seq!['\'', '"', '\'', '"', '\'']
        } else {
            seq![s.last()]
        }
    }
}

/// The shell-safe form of an arbitrary string.
pub open spec fn spec_shell_escape(s: Seq<char>) -> Seq<char> {
    if s.len() == 0 {
        seq!['\'', '\'']
    } else {
        seq!['\''] + escape_quotes(s) + seq!['\'']
    }
}

/// Quotes a string for safe interpolation into a POSIX shell command.
pub fn shell_escape(input: &str) -> (r: String)
    ensures
        r@ == spec_shell_escape(input@),
{
    let n = input.unicode_len();
    if n == 0 {
        proof {
            reveal_strlit("''");
            assert("''"@ =~= spec_shell_escape(input@));
        }
        return String::from_str("''");
    }
    let mut out = String::new();
    push_char(&mut out, '\'');
    let mut i: usize = 0;
    while i < n
        invariant
            n == input@.len(),
            0 <= i <= n,
            out@ == seq!['\''] + escape_quotes(input@.take(i as int)),
        decreases n - i,
    {
        let c = input.get_char(i);
        proof {
            assert(input@.take(i + 1).drop_last() =~= input@.take(i as int));
            assert(input@.take(i + 1).last() == input@[i as int]);
        }
        if c == '\'' {
            out.append("'\"'\"'");
            proof {
                reveal_strlit("'\"'\"'");
                assert(out@ =~= seq!['\''] + escape_quotes(input@.take(i + 1)));
            }
        } else {
            push_char(&mut out, c);
            proof {
                assert(out@ =~= seq!['\''] + escape_quotes(input@.take(i + 1)));
            }
        }
        i += 1;
    }
    push_char(&mut out, '\'');
    proof {
        assert(input@.take(n as int) =~= input@);
        assert(out@ =~= spec_shell_escape(input@));
    }
    out
}

/// The character sequences of an environment list.
pub open spec fn env_views(e: Seq<(String, String)>) -> Seq<(Seq<char>, Seq<char>)> {
    e.map_values(|p: (String, String)| (p.0@, p.1@))
}

/// How the argument text splits into whitespace-separated words: maximal
/// runs of non-whitespace characters, in order.
pub open spec fn split_ws(s: Seq<char>) -> Seq<Seq<char>>
    decreases s.len(),
{
    if s.len() == 0 {
        Seq::empty()
    } else {
        let rest = split_ws(s.drop_last());
        let c = s.last();
        if is_unicode_space(c) {
            rest
        } else if s.len() == 1 || is_unicode_space(s[s.len() - 2]) {
            rest.push(seq![c])
        } else {
            rest.update(rest.len() - 1, rest.last().push(c))
        }
    }
}

proof fn lemma_split_ws_open(s: Seq<char>)
    requires
        s.len() > 0,
        !is_unicode_space(s.last()),
    ensures
        split_ws(s).len() >= 1,
        split_ws(s).last().len() >= 1,
    decreases s.len(),
{
    if s.len() > 1 && !is_unicode_space(s[s.len() - 2]) {
        lemma_split_ws_open(s.drop_last());
    }
}

/// Splits the argument text into its whitespace-separated words.
pub fn split_whitespace_words(s: &str) -> (r: Vec<String>)
    ensures
        str_views(r@) == split_ws(s@),
{
    let n = s.unicode_len();
    let mut words: Vec<String> = Vec::new();
    let mut i: usize = 0;
    let mut tok_start: usize = 0;
    let mut in_tok = false;
    proof {
        assert(s@.subrange(0, 0) =~= Seq::<char>::empty());
        assert(str_views(words@) =~= split_ws(s@.subrange(0, 0)));
    }
    while i < n
        invariant
            n == s@.len(),
            0 <= i <= n,
            in_tok ==> 0 <= tok_start < i && (tok_start == 0 || is_unicode_space(
                s@[tok_start - 1],
            )) && (forall|k: int| tok_start <= k < i ==> !is_unicode_space(s@[k])),
            !in_tok ==> (i == 0 || is_unicode_space(s@[i - 1])),
            !in_tok ==> str_views(words@) == split_ws(s@.subrange(0, i as int)),
            in_tok ==> split_ws(s@.subrange(0, i as int)) == str_views(words@).push(
                s@.subrange(tok_start as int, i as int),
            ),
        decreases n - i,
    {
        let ghost prev = split_ws(s@.subrange(0, i as int));
        let ghost cur = split_ws(s@.subrange(0, i + 1));
        let c = s.get_char(i);
        proof {
            assert(s@.subrange(0, i + 1).drop_last() =~= s@.subrange(0, i as int));
            assert(s@.subrange(0, i + 1).last() == s@[i as int]);
            if i > 0 {
                assert(s@.subrange(0, i + 1)[i - 1] == s@[i - 1]);
            }
        }
        if is_space_exec(c) {
            if in_tok {
                let ghost before = words@;
                let w = s.substring_char(tok_start, i).to_owned();
                words.push(w);
                in_tok = false;
                proof {
                    assert(cur == prev);
                    assert(str_views(words@) =~= str_views(before).push(
                        s@.subrange(tok_start as int, i as int),
                    ));
                }
            } else {
                proof {
                    assert(cur == prev);
                }
            }
        } else {
            if !in_tok {
                tok_start = i;
                in_tok = true;
                proof {
                    assert(cur == prev.push(seq![s@[i as int]]));
                    assert(seq![s@[i as int]] =~= s@.subrange(i as int, i + 1));
                }
            } else {
                proof {
                    assert(cur == prev.update(prev.len() - 1, prev.last().push(s@[i as int])));
                    lemma_split_ws_open(s@.subrange(0, i as int));
                    assert(prev.last() == s@.subrange(tok_start as int, i as int));
                    assert(prev.drop_last() =~= str_views(words@));
                    assert(cur =~= str_views(words@).push(
                        s@.subrange(tok_start as int, i as int).push(s@[i as int]),
                    ));
                    assert(s@.subrange(tok_start as int, i as int).push(s@[i as int]) =~= s@
                        .subrange(tok_start as int, i + 1));
                }
            }
        }
        i += 1;
    }
    proof {
        assert(s@.subrange(0, n as int) =~= s@);
    }
    if in_tok {
        let w = s.substring_char(tok_start, n).to_owned();
        words.push(w);
        proof {
            assert(str_views(words@) =~= split_ws(s@));
        }
    }
    words
}

fn is_space_exec(c: char) -> (r: bool)
    ensures
        r == is_unicode_space(c),
{
    c == '\t' || c == '\n' || c == '\u{b}' || c == '\u{c}' || c == '\r' || c == ' ' || c
        == '\u{85}' || c == '\u{a0}' || c == '\u{1680}' || (c >= '\u{2000}' && c
        <= '\u{200a}') || c == '\u{2028}' || c == '\u{2029}' || c == '\u{202f}' || c
        == '\u{205f}' || c == '\u{3000}'
}

/// The argument text that puts the sidecar into server mode on the given
/// hostname and port, with warnings and above printed to its output.
pub open spec fn serve_args_text(hostname: Seq<char>, port: int) -> Seq<char> {
    "--print-logs --log-level WARN serve --hostname "@ + hostname + " --port "@
        + crate::text::dec_str(port)
}

/// Renders the sidecar's server-mode argument text.
pub fn serve_args(hostname: &str, port: u32) -> (r: String)
    ensures
        r@ == serve_args_text(hostname@, port as int),
{
    let mut out = String::new();
    out.append("--print-logs --log-level WARN serve --hostname ");
    out.append(hostname);
    out.append(" --port ");
    crate::text::push_u64_dec(&mut out, port as u64);
    proof {
        assert(out@ =~= serve_args_text(hostname@, port as int));
    }
    out
}

/// How the sidecar is launched on this platform: directly, through the
/// user's login shell, or through WSL with a bootstrap script.
#[derive(Debug, Clone, PartialEq, Eq)]
pub enum LaunchStrategy {
    /// Execute the sidecar binary itself; the argument text is split on
    /// whitespace.
    Direct { sidecar: String },
    /// Run `<shell> -il -c '<line>'` so the sidecar inherits the user's
    /// login environment.
    LoginShell { shell: String, sidecar: String },
    /// Run `wsl -e bash -lc <script>`, where the script installs the
    /// sidecar if needed and then replaces itself with it.
    Wsl { version: String },
}

/// A fully built launch: executable, argument list and environment map.
/// No quoting happens after this point.
#[derive(Debug, Clone, PartialEq, Eq)]
pub struct CommandPlan {
    pub program: String,
    pub args: Vec<String>,
    pub env: Vec<(String, String)>,
}

/// The environment every sidecar launch carries: the experimental feature
/// toggles, the desktop client marker, and the state directory.
pub open spec fn base_env(state_dir: Seq<char>) -> Seq<(Seq<char>, Seq<char>)> {
    seq![
        ("OPENCODE_EXPERIMENTAL_ICON_DISCOVERY"@, "true"@),
        ("OPENCODE_EXPERIMENTAL_FILEWATCHER"@, "true"@),
        ("OPENCODE_CLIENT"@, "desktop"@),
        ("XDG_STATE_HOME"@, state_dir),
    ]
}

fn build_env(state_dir: &str, extra: &Vec<(String, String)>) -> (r: Vec<(String, String)>)
    ensures
        env_views(r@) == base_env(state_dir@) + env_views(extra@),
{
    let mut env: Vec<(String, String)> = Vec::new();
    env.push(
        (String::from_str("OPENCODE_EXPERIMENTAL_ICON_DISCOVERY"), String::from_str("true")),
    );
    env.push((String::from_str("OPENCODE_EXPERIMENTAL_FILEWATCHER"), String::from_str("true")));
    env.push((String::from_str("OPENCODE_CLIENT"), String::from_str("desktop")));
    env.push((String::from_str("XDG_STATE_HOME"), state_dir.to_owned()));
    proof {
        assert(env_views(env@) =~= base_env(state_dir@));
    }
    let mut j: usize = 0;
    while j < extra.len()
        invariant
            0 <= j <= extra@.len(),
            env_views(env@) == base_env(state_dir@) + env_views(extra@.take(j as int)),
        decreases extra@.len() - j,
    {
        let ghost before = env@;
        let pair = (extra[j].0.clone(), extra[j].1.clone());
        env.push(pair);
        proof {
            assert(extra@.take(j + 1).drop_last() =~= extra@.take(j as int));
            assert(env_views(env@) =~= env_views(before).push((extra@[j as int].0@, extra@[
                j as int].1@)));
            assert(env_views(extra@.take(j + 1)) =~= env_views(extra@.take(j as int)).push(
                (extra@[j as int].0@, extra@[j as int].1@),
            ));
            assert(env_views(env@) =~= base_env(state_dir@) + env_views(extra@.take(j + 1)));
        }
        j += 1;
    }
    proof {
        assert(extra@.take(extra@.len() as int) =~= extra@);
    }
    env
}

/// Whether the user's shell is nushell, which needs a leading `^` to run
/// an external command.
pub open spec fn ends_with_slash_nu(s: Seq<char>) -> bool {
    s.len() >= 3 && s[s.len() - 3] == '/' && s[s.len() - 2] == 'n' && s[s.len() - 1] == 'u'
}

/// The line handed to the login shell: the quoted sidecar path and the raw
/// argument text, with a `^` prefix for nushell.
pub open spec fn shell_line(shell: Seq<char>, sidecar: Seq<char>, args: Seq<char>) -> Seq<char> {
    if ends_with_slash_nu(shell) {
        seq!['^', '"'] + sidecar + seq!['"', ' '] + args
    } else {
        seq!['"'] + sidecar + seq!['"', ' '] + args
    }
}

fn build_shell_line(shell: &str, sidecar: &str, args: &str) -> (r: String)
    ensures
        r@ == shell_line(shell@, sidecar@, args@),
{
    let n = shell.unicode_len();
    let is_nu = n >= 3 && shell.get_char(n - 3) == '/' && shell.get_char(n - 2) == 'n'
        && shell.get_char(n - 1) == 'u';
    let mut out = String::new();
    if is_nu {
        push_char(&mut out, '^');
    }
    push_char(&mut out, '"');
    out.append(sidecar);
    push_char(&mut out, '"');
    push_char(&mut out, ' ');
    out.append(args);
    proof {
        assert(out@ =~= shell_line(shell@, sidecar@, args@));
    }
    out
}

/// The environment keys the WSL script already sets itself; entries under
/// these names are not forwarded a second time.
pub open spec fn is_reserved_env_key(k: Seq<char>) -> bool {
    k == "OPENCODE_EXPERIMENTAL_ICON_DISCOVERY"@ || k == "OPENCODE_EXPERIMENTAL_FILEWATCHER"@ || k
        == "OPENCODE_CLIENT"@ || k == "XDG_STATE_HOME"@
}

/// The forwarded environment assignments embedded in the WSL command line:
/// each non-reserved entry as `KEY=<escaped value>`, in order.
pub open spec fn wsl_extra_prefix(extra: Seq<(Seq<char>, Seq<char>)>) -> Seq<Seq<char>>
    decreases extra.len(),
{
    if extra.len() == 0 {
        Seq::empty()
    } else {
        let rest = wsl_extra_prefix(extra.drop_last());
        if is_reserved_env_key(extra.last().0) {
            rest
        } else {
            rest.push(extra.last().0 + seq!['='] + spec_shell_escape(extra.last().1))
        }
    }
}

/// Every assignment prefixed to the `exec` line inside WSL.
pub open spec fn wsl_env_prefix(extra: Seq<(Seq<char>, Seq<char>)>) -> Seq<Seq<char>> {
    seq![
        "OPENCODE_EXPERIMENTAL_ICON_DISCOVERY=true"@,
        "OPENCODE_EXPERIMENTAL_FILEWATCHER=true"@,
        "OPENCODE_CLIENT=desktop"@,
        "XDG_STATE_HOME=\"$HOME/.local/state\""@,
    ] + wsl_extra_prefix(extra)
}

/// The bootstrap line that installs the pinned sidecar version when the
/// binary is missing.
pub open spec fn wsl_install_line(version: Seq<char>) -> Seq<char> {
    "  curl -fsSL https://opencode.ai/install | bash -s -- --version "@ + spec_shell_escape(
        version,
    ) + " --no-modify-path"@
}

/// The final line of the script: the forwarded environment, then `exec`
/// of the sidecar with the raw argument text.
pub open spec fn wsl_exec_line(extra: Seq<(Seq<char>, Seq<char>)>, args: Seq<char>) -> Seq<char> {
    join_with(wsl_env_prefix(extra), seq![' ']) + " exec \"$BIN\" "@ + args
}

/// The whole script handed to `bash -lc` inside WSL.
pub open spec fn wsl_script(
    version: Seq<char>,
    extra: Seq<(Seq<char>, Seq<char>)>,
    args: Seq<char>,
) -> Seq<char> {
    join_with(
        seq![
            "set -e"@,
            "BIN=\"$HOME/.opencode/bin/opencode\""@,
            "if [ ! -x \"$BIN\" ]; then"@,
            wsl_install_line(version),
            "fi"@,
            wsl_exec_line(extra, args),
        ],
        seq!['\n'],
    )
}

fn build_wsl_script(version: &str, extra: &Vec<(String, String)>, args: &str) -> (r: String)
    ensures
        r@ == wsl_script(version@, env_views(extra@), args@),
{
    let mut prefix: Vec<String> = Vec::new();
    prefix.push(String::from_str("OPENCODE_EXPERIMENTAL_ICON_DISCOVERY=true"));
    prefix.push(String::from_str("OPENCODE_EXPERIMENTAL_FILEWATCHER=true"));
    prefix.push(String::from_str("OPENCODE_CLIENT=desktop"));
    prefix.push(String::from_str("XDG_STATE_HOME=\"$HOME/.local/state\""));
    proof {
        assert(str_views(prefix@) =~= wsl_env_prefix(env_views(extra@.take(0))));
        assert(env_views(extra@.take(0)) =~= Seq::<(Seq<char>, Seq<char>)>::empty());
    }
    let mut j: usize = 0;
    while j < extra.len()
        invariant
            0 <= j <= extra@.len(),
            str_views(prefix@) == wsl_env_prefix(env_views(extra@.take(j as int))),
        decreases extra@.len() - j,
    {
        let ghost before = prefix@;
        let key = &extra[j].0;
        let reserved = crate::text::str_eq(key.as_str(), "OPENCODE_EXPERIMENTAL_ICON_DISCOVERY")
            || crate::text::str_eq(key.as_str(), "OPENCODE_EXPERIMENTAL_FILEWATCHER")
            || crate::text::str_eq(key.as_str(), "OPENCODE_CLIENT") || crate::text::str_eq(
            key.as_str(),
            "XDG_STATE_HOME",
        );
        proof {
            assert(env_views(extra@.take(j + 1)).drop_last() =~= env_views(extra@.take(j as int)));
            assert(env_views(extra@.take(j + 1)).last() == (extra@[j as int].0@, extra@[
                j as int].1@));
        }
        if !reserved {
            let mut entry = String::new();
            entry.append(extra[j].0.as_str());
            push_char(&mut entry, '=');
            let escaped = shell_escape(extra[j].1.as_str());
            entry.append(escaped.as_str());
            prefix.push(entry);
            proof {
                assert(entry@ =~= extra@[j as int].0@ + seq!['='] + spec_shell_escape(
                    extra@[j as int].1@,
                ));
                assert(str_views(prefix@) =~~= str_views(before).push(
                    extra@[j as int].0@ + seq!['='] + spec_shell_escape(extra@[j as int].1@),
                ));
                assert(str_views(prefix@) =~~= wsl_env_prefix(env_views(extra@.take(j + 1))));
            }
        } else {
            proof {
                assert(str_views(prefix@) =~= wsl_env_prefix(env_views(extra@.take(j + 1))));
            }
        }
        j += 1;
    }
    proof {
        assert(extra@.take(extra@.len() as int) =~= extra@);
    }
    let mut exec_line = String::new();
    push_joined(&mut exec_line, &prefix, " ");
    exec_line.append(" exec \"$BIN\" ");
    exec_line.append(args);
    proof {
        reveal_strlit(" ");
        assert(" "@ =~= seq![' ']);
        assert(exec_line@ =~= wsl_exec_line(env_views(extra@), args@));
    }
    let mut install_line = String::new();
    install_line.append("  curl -fsSL https://opencode.ai/install | bash -s -- --version ");
    let escaped_version = shell_escape(version);
    install_line.append(escaped_version.as_str());
    install_line.append(" --no-modify-path");
    let mut lines: Vec<String> = Vec::new();
    lines.push(String::from_str("set -e"));
    lines.push(String::from_str("BIN=\"$HOME/.opencode/bin/opencode\""));
    lines.push(String::from_str("if [ ! -x \"$BIN\" ]; then"));
    lines.push(install_line);
    lines.push(String::from_str("fi"));
    lines.push(exec_line);
    let mut script = String::new();
    push_joined(&mut script, &lines, "\n");
    proof {
        reveal_strlit("\n");
        assert("\n"@ =~= seq!['\n']);
        assert(str_views(lines@) =~= seq![
            "set -e"@,
            "BIN=\"$HOME/.opencode/bin/opencode\""@,
            "if [ ! -x \"$BIN\" ]; then"@,
            wsl_install_line(version@),
            "fi"@,
            wsl_exec_line(env_views(extra@), args@),
        ]);
        assert(script@ =~= wsl_script(version@, env_views(extra@), args@));
    }
    script
}

/// Builds the launch for one strategy: the executable path, its argument
/// list, and the environment handed to the process. The WSL strategy
/// carries its environment inside the script instead.
pub fn build_command_plan(
    strategy: LaunchStrategy,
    args: &str,
    extra_env: &Vec<(String, String)>,
    state_dir: &str,
) -> (r: CommandPlan)
    ensures
        match strategy {
            LaunchStrategy::Direct { sidecar } => r.program == sidecar && str_views(r.args@)
                == split_ws(args@) && env_views(r.env@) == base_env(state_dir@) + env_views(
                extra_env@,
            ),
            LaunchStrategy::LoginShell { shell, sidecar } => r.program == shell && r.args@.len()
                == 3 && r.args@[0]@ == "-il"@ && r.args@[1]@ == "-c"@ && r.args@[2]@ == shell_line(
                shell@,
                sidecar@,
                args@,
            ) && env_views(r.env@) == base_env(state_dir@) + env_views(extra_env@),
            LaunchStrategy::Wsl { version } => r.program@ == "wsl"@ && r.args@.len() == 4
                && r.args@[0]@ == "-e"@ && r.args@[1]@ == "bash"@ && r.args@[2]@ == "-lc"@
                && r.args@[3]@ == wsl_script(version@, env_views(extra_env@), args@) && r.env@.len()
                == 0,
        },
{
    match strategy {
        LaunchStrategy::Direct { sidecar } => {
            let words = split_whitespace_words(args);
            let env = build_env(state_dir, extra_env);
            CommandPlan { program: sidecar, args: words, env }
        },
        LaunchStrategy::LoginShell { shell, sidecar } => {
            let line = build_shell_line(shell.as_str(), sidecar.as_str(), args);
            let mut shell_args: Vec<String> = Vec::new();
            shell_args.push(String::from_str("-il"));
            shell_args.push(String::from_str("-c"));
            shell_args.push(line);
            let env = build_env(state_dir, extra_env);
            CommandPlan { program: shell, args: shell_args, env }
        },
        LaunchStrategy::Wsl { version } => {
            let script = build_wsl_script(version.as_str(), extra_env, args);
            let mut wsl_args: Vec<String> = Vec::new();
            wsl_args.push(String::from_str("-e"));
            wsl_args.push(String::from_str("bash"));
            wsl_args.push(String::from_str("-lc"));
            wsl_args.push(script);
            CommandPlan { program: String::from_str("wsl"), args: wsl_args, env: Vec::new() }
        },
    }
}

} // verus!
