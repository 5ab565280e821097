//! Run settings: the `JALERT_*` environment variables give the defaults, and
//! the command-line flags override them.

use crate::model::string_views;
use crate::source::SourceConfig;
use crate::text::{parse_u64, str_eq, u64_text};
use vstd::prelude::*;

verus! {

/// The settings of one run.
#[derive(Clone, Debug)]
pub struct Config {
    pub source_host: String,
    pub source_port: u16,
    pub web_port: u16,
    pub web_enabled: bool,
    pub replay: Option<String>,
    pub replay_interval: u64,
    pub cloudflared: bool,
    pub cloudflared_bin: String,
    pub fullscreen: bool,
}

/// The settings as plain values.
#[verifier::ext_equal]
pub struct ConfigView {
    pub source_host: Seq<char>,
    pub source_port: u16,
    pub web_port: u16,
    pub web_enabled: bool,
    pub replay: Option<Seq<char>>,
    pub replay_interval: u64,
    pub cloudflared: bool,
    pub cloudflared_bin: Seq<char>,
    pub fullscreen: bool,
}

/// The view of an optional string.
pub open spec fn opt_text(o: Option<String>) -> Option<Seq<char>> {
    match o {
        Some(s) => Some(s@),
        None => None,
    }
}

impl View for Config {
    type V = ConfigView;

    open spec fn view(&self) -> ConfigView {
        ConfigView {
            source_host: self.source_host@,
            source_port: self.source_port,
            web_port: self.web_port,
            web_enabled: self.web_enabled,
            replay: opt_text(self.replay),
            replay_interval: self.replay_interval,
            cloudflared: self.cloudflared,
            cloudflared_bin: self.cloudflared_bin@,
            fullscreen: self.fullscreen,
        }
    }
}

/// The environment variables a run reads, as found (`None` when unset).
#[derive(Clone, Debug)]
pub struct EnvVars {
    /// `JALERT_SOURCE_HOST`
    pub source_host: Option<String>,
    /// `JALERT_SOURCE_PORT`
    pub source_port: Option<String>,
    /// `JALERT_WEB_PORT`
    pub web_port: Option<String>,
    /// `JALERT_CLOUDFLARED`
    pub cloudflared: Option<String>,
    /// `JALERT_CLOUDFLARED_BIN`
    pub cloudflared_bin: Option<String>,
}

/// A variable's value, or `default` when it is unset or empty.
pub open spec fn value_or(v: Option<Seq<char>>, default: Seq<char>) -> Seq<char> {
    match v {
        Some(s) => if s.len() > 0 {
            s
        } else {
            default
        },
        None => default,
    }
}

/// A port number (`parse::<u16>`), or `default` when the text is not one.
pub open spec fn port_or(text: Seq<char>, default: u16) -> u16 {
    match u64_text(text) {
        Some(n) => if n <= 65535 {
            n as u16
        } else {
            default
        },
        None => default,
    }
}

/// A number (`parse::<u64>`), or `default` when the text is not one.
pub open spec fn number_or(text: Seq<char>, default: u64) -> u64 {
    match u64_text(text) {
        Some(n) => n,
        None => default,
    }
}

/// A switch variable is on: `1` or `true`.
pub open spec fn switch_on(text: Seq<char>) -> bool {
    text == "1"@ || text == "true"@
}

/// The settings the environment gives before any flag is read.
pub open spec fn env_config(
    host: Option<Seq<char>>,
    port: Option<Seq<char>>,
    web_port: Option<Seq<char>>,
    cloudflared: Option<Seq<char>>,
    bin: Option<Seq<char>>,
) -> ConfigView {
    ConfigView {
        source_host: value_or(host, "127.0.0.1"@),
        source_port: port_or(value_or(port, "7355"@), 7355),
        web_port: port_or(value_or(web_port, "8080"@), 8080),
        web_enabled: false,
        replay: None,
        replay_interval: 800,
        cloudflared: switch_on(value_or(cloudflared, ""@)),
        cloudflared_bin: value_or(bin, "cloudflared"@),
        fullscreen: false,
    }
}

/// The flag takes the next argument as its value.
pub open spec fn takes_value(a: Seq<char>) -> bool {
    a == "--source-host"@ || a == "--source-port"@ || a == "--web-port"@ || a == "--replay"@ || a
        == "--replay-interval"@ || a == "--cloudflared-bin"@
}

/// The settings after flag `a` with value `v`.
pub open spec fn with_value(c: ConfigView, a: Seq<char>, v: Seq<char>) -> ConfigView {
    if a == "--source-host"@ {
        ConfigView { source_host: v, ..c }
    } else if a == "--source-port"@ {
        ConfigView { source_port: port_or(v, 7355), ..c }
    } else if a == "--web-port"@ {
        ConfigView { web_port: port_or(v, 8080), ..c }
    } else if a == "--replay"@ {
        ConfigView { replay: Some(v), ..c }
    } else if a == "--replay-interval"@ {
        ConfigView { replay_interval: number_or(v, 800), ..c }
    } else {
        ConfigView { cloudflared_bin: v, ..c }
    }
}

/// How reading the flags ended.
#[derive(Clone, Debug)]
pub enum ArgStop {
    /// Every argument was read.
    Finished,
    /// `-h` or `--help`: the help text is wanted and the run ends.
    Help,
    /// The flag needs a value and is the last argument.
    MissingValue(String),
}

/// How reading the flags ended, as plain values.
pub enum StopView {
    Finished,
    Help,
    MissingValue(Seq<char>),
}

/// How reading ended, as plain values.
pub open spec fn stop_view(s: ArgStop) -> StopView {
    match s {
        ArgStop::Finished => StopView::Finished,
        ArgStop::Help => StopView::Help,
        ArgStop::MissingValue(a) => StopView::MissingValue(a@),
    }
}

/// Reads the flags from index `i` on: the settings, the unknown arguments in
/// order, and how reading ended.
pub open spec fn args_from(
    c: ConfigView,
    unknown: Seq<Seq<char>>,
    args: Seq<Seq<char>>,
    i: int,
) -> (ConfigView, Seq<Seq<char>>, StopView)
    decreases args.len() - i,
{
    if i < 0 || i >= args.len() {
        (c, unknown, StopView::Finished)
    } else {
        let a = args[i];
        if takes_value(a) {
            if i + 1 < args.len() {
                args_from(with_value(c, a, args[i + 1]), unknown, args, i + 2)
            } else {
                (c, unknown, StopView::MissingValue(a))
            }
        } else if a == "--web"@ {
            args_from(ConfigView { web_enabled: true, ..c }, unknown, args, i + 1)
        } else if a == "--cloudflared"@ {
            args_from(ConfigView { cloudflared: true, web_enabled: true, ..c }, unknown, args, i + 1)
        } else if a == "--fullscreen"@ {
            args_from(ConfigView { fullscreen: true, ..c }, unknown, args, i + 1)
        } else if a == "-h"@ || a == "--help"@ {
            (c, unknown, StopView::Help)
        } else {
            args_from(c, unknown.push(a), args, i + 1)
        }
    }
}

/// The settings a run gets: the flags read over the environment's, and the
/// web server on whenever `cloudflared` is.
pub open spec fn final_config(c: ConfigView) -> ConfigView {
    if c.cloudflared {
        ConfigView { web_enabled: true, ..c }
    } else {
        c
    }
}

/// What reading the command line gave.
#[derive(Clone, Debug)]
pub struct ParsedArgs {
    pub config: Config,
    /// Arguments that are no flag, in order (each is reported, then ignored).
    pub unknown: Vec<String>,
    pub stop: ArgStop,
}

/// A variable's value, or `default` when it is unset or empty.
fn value_or_exec(v: &Option<String>, default: &str) -> (res: String)
    ensures
        res@ == value_or(opt_text(*v), default@),
{
    match v {
        Some(s) => if !s.as_str().is_empty() {
            s.clone()
        } else {
            default.to_owned()
        },
        None => default.to_owned(),
    }
}

/// A port number, or `default` when the text is not one.
fn port_or_exec(text: &str, default: u16) -> (res: u16)
    ensures
        res == port_or(text@, default),
{
    match parse_u64(text) {
        Some(n) => if n <= 65535 {
            n as u16
        } else {
            default
        },
        None => default,
    }
}

/// A number, or `default` when the text is not one.
fn number_or_exec(text: &str, default: u64) -> (res: u64)
    ensures
        res == number_or(text@, default),
{
    match parse_u64(text) {
        Some(n) => n,
        None => default,
    }
}

/// Whether the flag takes a value.
fn takes_value_exec(a: &str) -> (res: bool)
    ensures
        res == takes_value(a@),
{
    str_eq(a, "--source-host") || str_eq(a, "--source-port") || str_eq(a, "--web-port") || str_eq(
        a,
        "--replay",
    ) || str_eq(a, "--replay-interval") || str_eq(a, "--cloudflared-bin")
}

impl Config {
    /// The settings the environment gives before any flag is read.
    pub fn from_env(env: &EnvVars) -> (res: Config)
        ensures
            res@ == env_config(
                opt_text(env.source_host),
                opt_text(env.source_port),
                opt_text(env.web_port),
                opt_text(env.cloudflared),
                opt_text(env.cloudflared_bin),
            ),
    {
        let port = value_or_exec(&env.source_port, "7355");
        let web_port = value_or_exec(&env.web_port, "8080");
        let cf = value_or_exec(&env.cloudflared, "");
        Config {
            source_host: value_or_exec(&env.source_host, "127.0.0.1"),
            source_port: port_or_exec(port.as_str(), 7355),
            web_port: port_or_exec(web_port.as_str(), 8080),
            web_enabled: false,
            replay: None,
            replay_interval: 800,
            cloudflared: str_eq(cf.as_str(), "1") || str_eq(cf.as_str(), "true"),
            cloudflared_bin: value_or_exec(&env.cloudflared_bin, "cloudflared"),
            fullscreen: false,
        }
    }

    /// Applies flag `a` with value `v`.
    fn set_value(&mut self, a: &str, v: String)
        requires
            takes_value(a@),
        ensures
            final(self)@ == with_value(old(self)@, a@, v@),
    {
        if str_eq(a, "--source-host") {
            self.source_host = v;
        } else if str_eq(a, "--source-port") {
            self.source_port = port_or_exec(v.as_str(), 7355);
        } else if str_eq(a, "--web-port") {
            self.web_port = port_or_exec(v.as_str(), 8080);
        } else if str_eq(a, "--replay") {
            self.replay = Some(v);
        } else if str_eq(a, "--replay-interval") {
            self.replay_interval = number_or_exec(v.as_str(), 800);
        } else {
            self.cloudflared_bin = v;
        }
    }

    /// Reads the command-line arguments (without the program name) over the
    /// environment's settings.
    pub fn parse(env: &EnvVars, args: &Vec<String>) -> (res: ParsedArgs)
        ensures
            ({
                let (c, u, stop) = args_from(
                    env_config(
                        opt_text(env.source_host),
                        opt_text(env.source_port),
                        opt_text(env.web_port),
                        opt_text(env.cloudflared),
                        opt_text(env.cloudflared_bin),
                    ),
                    Seq::empty(),
                    string_views(args@),
                    0,
                );
                &&& res.config@ == final_config(c)
                &&& string_views(res.unknown@) == u
                &&& stop_view(res.stop) == stop
            }),
    {
        let ghost av = string_views(args@);
        let ghost start = env_config(
            opt_text(env.source_host),
            opt_text(env.source_port),
            opt_text(env.web_port),
            opt_text(env.cloudflared),
            opt_text(env.cloudflared_bin),
        );
        let mut c = Config::from_env(env);
        let mut unknown: Vec<String> = Vec::new();
        let mut i: usize = 0;
        let mut stop = ArgStop::Finished;
        assert(string_views(unknown@) =~= Seq::<Seq<char>>::empty());
        while i < args.len()
            invariant_except_break
                i <= args@.len(),
                av == string_views(args@),
                stop is Finished,
                args_from(c@, string_views(unknown@), av, i as int) == args_from(
                    start,
                    Seq::empty(),
                    av,
                    0,
                ),
            ensures
                args_from(start, Seq::empty(), av, 0) == (
                    c@,
                    string_views(unknown@),
                    stop_view(stop),
                ),
            decreases args@.len() - i,
        {
            let a = args[i].as_str();
            assert(av[i as int] == a@);
            if takes_value_exec(a) {
                if i + 1 < args.len() {
                    assert(av[i + 1] == args@[i + 1]@);
                    let v = args[i + 1].clone();
                    c.set_value(a, v);
                    i = i + 2;
                } else {
                    stop = ArgStop::MissingValue(a.to_owned());
                    break;
                }
            } else if str_eq(a, "--web") {
                c.web_enabled = true;
                assert(c@ =~= ConfigView { web_enabled: true, ..c@ });
                i = i + 1;
            } else if str_eq(a, "--cloudflared") {
                c.cloudflared = true;
                c.web_enabled = true;
                i = i + 1;
            } else if str_eq(a, "--fullscreen") {
                c.fullscreen = true;
                i = i + 1;
            } else if str_eq(a, "-h") || str_eq(a, "--help") {
                stop = ArgStop::Help;
                break;
            } else {
                let ghost before = unknown@;
                unknown.push(a.to_owned());
                assert(string_views(unknown@) =~= string_views(before).push(a@));
                i = i + 1;
            }
        }
        if c.cloudflared {
            c.web_enabled = true;
        }
        ParsedArgs { config: c, unknown, stop }
    }

    /// The feed settings of this run.
    pub fn source_config(&self) -> (res: SourceConfig)
        ensures
            res.host@ == self.source_host@,
            res.port == self.source_port,
            match (res.replay, self.replay) {
                (Some(a), Some(b)) => a@ == b@,
                (None, None) => true,
                _ => false,
            },
            res.replay_interval_ms == self.replay_interval,
    {
        SourceConfig {
            host: self.source_host.clone(),
            port: self.source_port,
            replay: self.replay.clone(),
            replay_interval_ms: self.replay_interval,
        }
    }
}


/// `--cloudflared` (or `JALERT_CLOUDFLARED`) always brings the web server up.
pub proof fn law_cloudflared_enables_web(c: ConfigView)
    ensures
        final_config(c).cloudflared ==> final_config(c).web_enabled,
        final_config(c).cloudflared == c.cloudflared,
{
}

} // verus!
