//! What the benchmarking tool is asked to do: how often to run each command
//! before and while measuring, and which commands to run.
//!
//! Reading the command line is the caller's part. The options it found, and
//! the commands, are handed over here, where the defaults are applied.

use vstd::prelude::*;

verus! {

/// Warm-up runs where the command line names none.
pub const DEFAULT_WARM: u8 = 0;

/// Measured runs where the command line names none.
pub const DEFAULT_ITER: u8 = 5;

/// What the command line asks for.
#[derive(Debug, Clone, PartialEq, Eq)]
pub struct Args {
    /// Runs of each command that are made before measuring and not
    /// measured.
    pub warm: u8,
    /// Measured runs of each command.
    pub iter: u8,
    /// The command lines to benchmark: one or more.
    pub commands: Vec<String>,
}

/// Mathematical model of an [`Args`].
pub struct ArgsView {
    pub warm: u8,
    pub iter: u8,
    pub commands: Seq<Seq<char>>,
}

impl ArgsView {
    /// What a command line asks for that gave the count `warm` of warm-up
    /// runs and the count `iter` of measured runs, where it gave them, and
    /// the commands `commands`: a count that was not given is its default.
    /// A command line without a command asks for nothing.
    pub open spec fn of(warm: Option<u8>, iter: Option<u8>, commands: Seq<Seq<char>>) -> Option<
        ArgsView,
    > {
        if commands.len() == 0 {
            None
        } else {
            Some(
                ArgsView {
                    warm: warm.unwrap_or(DEFAULT_WARM),
                    iter: iter.unwrap_or(DEFAULT_ITER),
                    commands,
                },
            )
        }
    }
}

impl View for Args {
    type V = ArgsView;

    open spec fn view(&self) -> ArgsView {
        ArgsView { warm: self.warm, iter: self.iter, commands: self.commands.deep_view() }
    }
}

impl Args {
    /// What a command line asks for that gave these counts and commands.
    ///
    /// There is none exactly when `commands` is empty.
    pub fn new(warm: Option<u8>, iter: Option<u8>, commands: Vec<String>) -> (args: Option<Args>)
        ensures
            match args {
                Some(args) => ArgsView::of(warm, iter, commands.deep_view()) == Some(args@),
                None => ArgsView::of(warm, iter, commands.deep_view()) is None,
            },
    {
        if commands.len() == 0 {
            return None;
        }
        Some(Args { warm: warm.unwrap_or(DEFAULT_WARM), iter: iter.unwrap_or(DEFAULT_ITER), commands })
    }
}

} // verus!
