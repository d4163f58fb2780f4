//! Configuration values and the command line.
use vstd::prelude::*;

use crate::text::{chars_of, has_prefix, slice_chars, starts_with, string_of};

verus! {

#[derive(Debug)]
pub struct Config {
    pub server: ServerConfig,
    pub tmux: TmuxConfig,
    pub buffer: BufferConfig,
    pub trades: TradesConfig,
}

#[derive(Debug)]
pub struct TradesConfig {
    pub data_dir: String,
}

#[derive(Debug)]
pub struct ServerConfig {
    pub host: String,
    pub port: u16,
    pub static_dir: String,
}

#[derive(Debug)]
pub struct TmuxConfig {
    pub pipe_dir: String,
    pub discovery_interval_ms: u64,
    pub sessions_to_watch: Vec<String>,
    pub initial_panes: Vec<String>,
}

#[derive(Debug)]
pub struct BufferConfig {
    pub replay_lines: usize,
    pub channel_capacity: usize,
    pub pipe_channel_capacity: usize,
}

/// Which trading bot writes the monitored output; the two print their
/// summaries differently.
#[derive(Clone, Copy, Debug, PartialEq, Eq, Structural)]
pub enum ProjectSource {
    Python,
    Rust,
}

/// The project named `value` on the command line.
pub open spec fn source_named(value: Seq<char>) -> Option<ProjectSource> {
    if value == "python"@ {
        Some(ProjectSource::Python)
    } else if value == "rust"@ {
        Some(ProjectSource::Rust)
    } else {
        None
    }
}

/// The command-line name of a project.
pub open spec fn source_name(source: ProjectSource) -> Seq<char> {
    match source {
        ProjectSource::Python => "python"@,
        ProjectSource::Rust => "rust"@,
    }
}

impl ProjectSource {
    /// The project named `value`: `python` or `rust`.
    pub fn parse(value: &str) -> (res: Option<ProjectSource>)
        ensures
            res == source_named(value@),
    {
        let v = chars_of(value);
        if crate::text::equals_str(&v, "python") {
            Some(ProjectSource::Python)
        } else if crate::text::equals_str(&v, "rust") {
            Some(ProjectSource::Rust)
        } else {
            None
        }
    }

    /// The name of the project, as `parse` reads it.
    pub fn as_str(&self) -> (res: &'static str)
        ensures
            res@ == source_name(*self),
    {
        match self {
            ProjectSource::Python => "python",
            ProjectSource::Rust => "rust",
        }
    }
}

impl Config {
    /// The directory that holds the FIFOs of attached panes.
    pub fn pipe_dir(&self) -> (res: String)
        ensures
            res@ == self.tmux.pipe_dir@,
    {
        self.tmux.pipe_dir.clone()
    }

    /// The directory that holds the trade logs: the configured `data_dir`,
    /// unless it is empty. Both bots share that one setting, so `source` is
    /// not used; it stays so that callers name the bot they serve.
    pub fn trades_data_dir_for(&self, source: ProjectSource) -> (res: Option<String>)
        ensures
            self.trades.data_dir@.len() == 0 ==> res is None,
            self.trades.data_dir@.len() != 0 ==> (res matches Some(d) && d@ == self.trades.data_dir@),
    {
        if self.trades.data_dir.as_str().is_empty() {
            None
        } else {
            Some(self.trades.data_dir.clone())
        }
    }
}

// ─── Command line ──────────────────────────────────────────────────────────

pub open spec fn invalid_project_message(value: Seq<char>) -> Seq<char> {
    "invalid --project value '"@ + value + "', expected python|rust"@
}

pub open spec fn missing_project_message() -> Seq<char> {
    "missing value after --project (expected python|rust)"@
}

pub open spec fn unknown_flag_message(arg: Seq<char>) -> Seq<char> {
    "unknown flag '"@ + arg + "'"@
}

pub open spec fn unexpected_argument_message(arg: Seq<char>) -> Seq<char> {
    "unexpected positional argument '"@ + arg + "'"@
}

/// What the arguments from position `i` on give, after a config path
/// `path` (given on the command line or not) and a project `source`.
pub open spec fn cli_from(
    args: Seq<Seq<char>>,
    i: int,
    path: Seq<char>,
    source: ProjectSource,
    has_path: bool,
) -> Result<(Seq<char>, ProjectSource), Seq<char>>
    decreases args.len() - i,
{
    if i < 0 || i >= args.len() {
        Ok((path, source))
    } else {
        let arg = args[i];
        if has_prefix(arg, "--project="@) {
            let value = arg.skip("--project="@.len() as int);
            match source_named(value) {
                Some(s) => cli_from(args, i + 1, path, s, has_path),
                None => Err(invalid_project_message(value)),
            }
        } else if arg == "--project"@ {
            if i + 1 >= args.len() {
                Err(missing_project_message())
            } else {
                match source_named(args[i + 1]) {
                    Some(s) => cli_from(args, i + 2, path, s, has_path),
                    None => Err(invalid_project_message(args[i + 1])),
                }
            }
        } else if has_prefix(arg, "-"@) {
            Err(unknown_flag_message(arg))
        } else if has_path {
            Err(unexpected_argument_message(arg))
        } else {
            cli_from(args, i + 1, arg, source, true)
        }
    }
}

pub open spec fn strings_model(v: Seq<String>) -> Seq<Seq<char>> {
    v.map_values(|s: String| s@)
}

/// The config path and project that the arguments (program name left out)
/// choose: `config.toml` and `python` unless given; `--project=NAME` or
/// `--project NAME` selects the project (the last one counts), one
/// positional argument is the config path.
pub open spec fn cli_spec(args: Seq<Seq<char>>) -> Result<(Seq<char>, ProjectSource), Seq<char>> {
    cli_from(args, 0, "config.toml"@, ProjectSource::Python, false)
}

fn concat3(a: &str, b: &Vec<char>, c: &str) -> (res: String)
    ensures
        res@ == a@ + b@ + c@,
{
    let mut v = chars_of(a);
    let mut i: usize = 0;
    let ghost start = v@;
    while i < b.len()
        invariant
            i <= b.len(),
            v@ == start + b@.take(i as int),
        decreases b.len() - i,
    {
        v.push(b[i]);
        i += 1;
        assert(v@ =~= start + b@.take(i as int));
    }
    assert(b@.take(b.len() as int) =~= b@);
    let cc = chars_of(c);
    let mut j: usize = 0;
    let ghost mid = v@;
    while j < cc.len()
        invariant
            j <= cc.len(),
            v@ == mid + cc@.take(j as int),
        decreases cc.len() - j,
    {
        v.push(cc[j]);
        j += 1;
        assert(v@ =~= mid + cc@.take(j as int));
    }
    assert(cc@.take(cc.len() as int) =~= cc@);
    string_of(&v)
}

fn parse_source_chars(value: &Vec<char>) -> (res: Option<ProjectSource>)
    ensures
        res == source_named(value@),
{
    if crate::text::equals_str(value, "python") {
        Some(ProjectSource::Python)
    } else if crate::text::equals_str(value, "rust") {
        Some(ProjectSource::Rust)
    } else {
        None
    }
}

/// Reads the command line (program name left out).
pub fn parse_cli_args(args: &Vec<String>) -> (res: Result<(String, ProjectSource), String>)
    ensures
        match res {
            Ok((path, source)) => cli_spec(strings_model(args@)) == Ok::<
                (Seq<char>, ProjectSource),
                Seq<char>,
            >((path@, source)),
            Err(msg) => cli_spec(strings_model(args@)) == Err::<
                (Seq<char>, ProjectSource),
                Seq<char>,
            >(msg@),
        },
{
    let ghost a = strings_model(args@);
    let mut config_path = "config.toml".to_owned();
    let mut source = ProjectSource::Python;
    let mut has_config_path = false;
    let mut i: usize = 0;
    while i < args.len()
        invariant
            i <= args.len(),
            a == strings_model(args@),
            cli_spec(a) == cli_from(a, i as int, config_path@, source, has_config_path),
        decreases args.len() - i,
    {
        let arg = chars_of(args[i].as_str());
        assert(arg@ == a[i as int]);
        if starts_with(&arg, "--project=") {
            let prefix_len = chars_of("--project=").len();
            let value = slice_chars(&arg, prefix_len, arg.len());
            assert(value@ =~= a[i as int].skip("--project="@.len() as int));
            match parse_source_chars(&value) {
                Some(s) => {
                    source = s;
                },
                None => {
                    return Err(
                        concat3("invalid --project value '", &value, "', expected python|rust"),
                    );
                },
            }
            i += 1;
        } else if crate::text::equals_str(&arg, "--project") {
            if i + 1 >= args.len() {
                return Err("missing value after --project (expected python|rust)".to_owned());
            }
            let value = chars_of(args[i + 1].as_str());
            assert(value@ == a[i + 1]);
            match parse_source_chars(&value) {
                Some(s) => {
                    source = s;
                },
                None => {
                    return Err(
                        concat3("invalid --project value '", &value, "', expected python|rust"),
                    );
                },
            }
            i += 2;
        } else if starts_with(&arg, "-") {
            return Err(concat3("unknown flag '", &arg, "'"));
        } else if has_config_path {
            return Err(concat3("unexpected positional argument '", &arg, "'"));
        } else {
            config_path = args[i].clone();
            has_config_path = true;
            i += 1;
        }
    }
    Ok((config_path, source))
}

/// The command line's rules: with no argument the config is `config.toml`
/// and the project Python; `--project=NAME` and `--project NAME` mean the
/// same; `python` and `rust` name the two projects; a lone argument that is
/// no flag is the config path; and the config path and the project option
/// may come in either order.
pub proof fn lemma_cli_rules(name: Seq<char>, path: Seq<char>)
    requires
        !has_prefix(path, "-"@),
    ensures
        cli_spec(Seq::empty()) == Ok::<(Seq<char>, ProjectSource), Seq<char>>(("config.toml"@, ProjectSource::Python)),
        cli_spec(seq!["--project="@ + name]) == cli_spec(seq!["--project"@, name]),
        source_named(name) is Some ==> cli_spec(seq!["--project"@, name]) == Ok::<(Seq<char>, ProjectSource), Seq<char>>(
            ("config.toml"@, source_named(name).unwrap()),
        ),
        source_named(name) is None ==> cli_spec(seq!["--project"@, name]) == Err::<(Seq<char>, ProjectSource), Seq<char>>(
            invalid_project_message(name),
        ),
        source_named("python"@) == Some(ProjectSource::Python),
        source_named("rust"@) == Some(ProjectSource::Rust),
        cli_spec(seq![path]) == Ok::<(Seq<char>, ProjectSource), Seq<char>>((path, ProjectSource::Python)),
        cli_spec(seq![path, "--project"@, name]) == cli_spec(seq!["--project"@, name, path]),
{
    reveal_strlit("--project=");
    reveal_strlit("--project");
    reveal_strlit("-");
    reveal_strlit("python");
    reveal_strlit("rust");
    let eq = "--project="@ + name;
    assert(has_prefix(eq, "--project="@)) by {
        assert(eq.subrange(0, 10) =~= "--project="@);
    }
    assert(eq.skip(10) =~= name);
    assert(!has_prefix("--project"@, "--project="@));
    assert(!has_prefix("--project"@, "--project="@));
    if has_prefix(path, "--project="@) {
        assert(path.subrange(0, 10)[0] == path[0]);
        assert(path[0] == '-');
        assert(has_prefix(path, "-"@)) by {
            assert(path.subrange(0, 1) =~= "-"@);
        }
    }
    if path == "--project"@ {
        assert(has_prefix(path, "-"@)) by {
            assert(path.subrange(0, 1) =~= "-"@);
        }
    }
    let a1 = seq![eq];
    let a2 = seq!["--project"@, name];
    let a3 = seq![path];
    let a4 = seq![path, "--project"@, name];
    let a5 = seq!["--project"@, name, path];
    assert(a1[0] == eq);
    assert(a2[0] == "--project"@ && a2[1] == name);
    assert(a3[0] == path);
    assert(a4[0] == path && a4[1] == "--project"@ && a4[2] == name);
    assert(a5[0] == "--project"@ && a5[1] == name && a5[2] == path);
    assert("rust"@.len() == 4 && "python"@.len() == 6);
    assert("rust"@ != "python"@);
    reveal_with_fuel(cli_from, 4);
}

} // verus!
