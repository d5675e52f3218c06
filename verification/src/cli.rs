//! Command-line options.

use vstd::prelude::*;
use crate::text::{copy_text, parse_u64, parse_unsigned, same_text};

verus! {

/// The options the monitor starts with.
pub struct Config {
    /// Refresh interval in milliseconds.
    pub tick_rate_ms: u64,
    /// Leave the mouse alone.
    pub no_mouse: bool,
    /// The process filter to start with.
    pub initial_filter: String,
    /// Use the 256-colour palette in place of true colour.
    pub no_truecolor: bool,
}

/// A `Config` as plain mathematical values.
pub struct ConfigView {
    pub tick_rate_ms: nat,
    pub no_mouse: bool,
    pub initial_filter: Seq<char>,
    pub no_truecolor: bool,
}

impl View for Config {
    type V = ConfigView;

    open spec fn view(&self) -> ConfigView {
        ConfigView {
            tick_rate_ms: self.tick_rate_ms as nat,
            no_mouse: self.no_mouse,
            initial_filter: self.initial_filter@,
            no_truecolor: self.no_truecolor,
        }
    }
}

/// The shortest refresh interval the command line may set.
pub const MIN_INTERVAL_MS: u64 = 50;

/// The refresh interval when none is given.
pub const DEFAULT_INTERVAL_MS: u64 = 500;

/// The options when the command line gives none.
pub open spec fn default_config() -> ConfigView {
    ConfigView {
        tick_rate_ms: DEFAULT_INTERVAL_MS as nat,
        no_mouse: false,
        initial_filter: Seq::empty(),
        no_truecolor: false,
    }
}

impl Default for Config {
    fn default() -> (c: Self)
        ensures
            c@ == default_config(),
    {
        Config {
            tick_rate_ms: DEFAULT_INTERVAL_MS,
            no_mouse: false,
            initial_filter: String::new(),
            no_truecolor: false,
        }
    }
}

/// The interval that `--interval` sets from a parsed number of milliseconds.
pub open spec fn clamp_interval(ms: nat) -> nat {
    if ms < MIN_INTERVAL_MS { MIN_INTERVAL_MS as nat } else { ms }
}

/// The options that the arguments from position `i` on give, starting
/// from `cfg`; `None` when they ask for the help text.
pub open spec fn options_from(args: Seq<Seq<char>>, i: int, cfg: ConfigView) -> Option<ConfigView>
    decreases args.len() - i,
{
    if i < 0 || i >= args.len() {
        Some(cfg)
    } else if args[i] == "--interval"@ {
        if i + 1 < args.len() {
            let next = match parse_unsigned(args[i + 1], u64::MAX as nat) {
                Some(ms) => ConfigView { tick_rate_ms: clamp_interval(ms), ..cfg },
                None => cfg,
            };
            options_from(args, i + 2, next)
        } else {
            options_from(args, i + 1, cfg)
        }
    } else if args[i] == "--no-mouse"@ {
        options_from(args, i + 1, ConfigView { no_mouse: true, ..cfg })
    } else if args[i] == "--filter"@ {
        if i + 1 < args.len() {
            options_from(args, i + 2, ConfigView { initial_filter: args[i + 1], ..cfg })
        } else {
            options_from(args, i + 1, cfg)
        }
    } else if args[i] == "--no-truecolor"@ {
        options_from(args, i + 1, ConfigView { no_truecolor: true, ..cfg })
    } else if args[i] == "--help"@ || args[i] == "-h"@ {
        None
    } else {
        options_from(args, i + 1, cfg)
    }
}

/// The texts of a list of strings.
pub open spec fn texts(args: Seq<String>) -> Seq<Seq<char>> {
    args.map_values(|a: String| a@)
}

/// Reads the options from the program's arguments, the program's own name
/// first. `None` means that `--help` or `-h` was asked for: the caller
/// shows the help text and stops.
pub fn parse_args(args: &Vec<String>) -> (r: Option<Config>)
    ensures
        match r {
            Some(c) => options_from(texts(args@), 1, default_config()) == Some(c@),
            None => options_from(texts(args@), 1, default_config()) is None,
        },
{
    let ghost all = texts(args@);
    let mut config = Config::default();
    let mut i: usize = 1;
    while i < args.len()
        invariant
            all == texts(args@),
            1 <= i,
            options_from(all, 1, default_config()) == options_from(all, i as int, config@),
        decreases args.len() - i,
    {
        let a = args[i].as_str();
        assert(all[i as int] == a@);
        if same_text(a, "--interval") {
            if i + 1 < args.len() {
                assert(all[i + 1] == args@[i + 1]@);
                match parse_u64(args[i + 1].as_str()) {
                    Some(ms) => {
                        config.tick_rate_ms = if ms < MIN_INTERVAL_MS { MIN_INTERVAL_MS } else { ms };
                    },
                    None => {},
                }
                i = i + 1;
            }
        } else if same_text(a, "--no-mouse") {
            config.no_mouse = true;
        } else if same_text(a, "--filter") {
            if i + 1 < args.len() {
                assert(all[i + 1] == args@[i + 1]@);
                config.initial_filter = copy_text(args[i + 1].as_str());
                i = i + 1;
            }
        } else if same_text(a, "--no-truecolor") {
            config.no_truecolor = true;
        } else if same_text(a, "--help") || same_text(a, "-h") {
            return None;
        }
        i = i + 1;
    }
    Some(config)
}

} // verus!
