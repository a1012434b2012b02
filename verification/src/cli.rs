use vstd::prelude::*;

use crate::config::{Effective, Format, OnDone, Quality};
use crate::paths::opt_view;

verus! {

/// The command line: `[INPUT] [-o PATH] [--format F] [--quality Q] [--on-done P] [-v]`.
#[derive(Debug, Clone)]
pub struct Cli {
    pub input: Option<String>,
    pub output: Option<String>,
    pub format: Option<Format>,
    pub quality: Option<Quality>,
    pub on_done: Option<OnDone>,
    pub verbose: bool,
}

/// What the editor starts with.
#[derive(Debug, Clone)]
pub struct LaunchOptions {
    pub input: Option<String>,
    pub output: Option<String>,
    pub format: Format,
    pub quality: Quality,
    pub on_done: OnDone,
    pub verbose: bool,
}

impl LaunchOptions {
    pub fn new(cli: Cli, effective: Effective) -> (r: Self)
        ensures
            opt_view(r.input) == opt_view(cli.input),
            opt_view(r.output) == opt_view(effective.output),
            r.format == effective.format,
            r.quality == effective.quality,
            r.on_done == effective.on_done,
            r.verbose == cli.verbose,
    {
        LaunchOptions {
            input: cli.input,
            output: effective.output,
            format: effective.format,
            quality: effective.quality,
            on_done: effective.on_done,
            verbose: cli.verbose,
        }
    }
}

} // verus!
