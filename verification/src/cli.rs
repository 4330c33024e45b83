//! The decisions of the migration command line: which mode the arguments ask
//! for, which files the migration changed, and what the run reports. Reading,
//! writing and running git stay with the caller.

use vstd::prelude::*;
use crate::text::{owned, push_decimal, push_str, same_text, decimal_spec};

verus! {

/// The branch the in-place migration commit lands on.
pub const BRANCH: &'static str = "ttipc-migration";

/// The message of the in-place migration commit.
pub const COMMIT_MESSAGE: &'static str = "migrate from taurpc to ttipc";

/// What the command line asks for.
pub enum CliMode {
    /// `--write <FILE.rs>...`: migrate the files in place, as one commit.
    Write(Vec<String>),
    /// `--write` without files: print the write usage, exit 2.
    WriteUsage,
    /// `<FILE.rs>`: print the migrated file, leave it untouched.
    Preview(String),
    /// Anything else: print the usage, exit 2.
    Usage,
}

/// The mode the arguments (after the program name) ask for.
pub open spec fn cli_mode_ok(args: Seq<String>, m: CliMode) -> bool {
    if args.len() > 0 && args[0]@ == "--write"@ {
        if args.len() > 1 {
            m matches CliMode::Write(files) && files@ == args.skip(1)
        } else {
            m is WriteUsage
        }
    } else if args.len() == 1 {
        m matches CliMode::Preview(path) && path == args[0]
    } else {
        m is Usage
    }
}

/// Reads the arguments after the program name: `--write` and the files to
/// migrate in place, or a single file to preview.
pub fn parse_cli(args: Vec<String>) -> (m: CliMode)
    ensures
        cli_mode_ok(args@, m),
{
    if args.len() > 0 && same_text(args[0].as_str(), "--write") {
        if args.len() > 1 {
            let mut files = args;
            files.remove(0);
            assert(files@ =~= args@.skip(1));
            CliMode::Write(files)
        } else {
            CliMode::WriteUsage
        }
    } else if args.len() == 1 {
        let mut rest = args;
        let path = rest.remove(0);
        CliMode::Preview(path)
    } else {
        CliMode::Usage
    }
}

/// The positions among the first `n` files whose migrated source differs from
/// the file as read, in order.
pub open spec fn changed_spec(inputs: Seq<String>, outputs: Seq<String>, n: nat) -> Seq<usize>
    decreases n,
{
    if n == 0 {
        Seq::empty()
    } else if inputs[n - 1]@ != outputs[n - 1]@ {
        changed_spec(inputs, outputs, (n - 1) as nat).push((n - 1) as usize)
    } else {
        changed_spec(inputs, outputs, (n - 1) as nat)
    }
}

/// The files the migration actually changed: the positions whose output
/// differs from the input, in order. Only these are written and committed.
pub fn changed_files(inputs: &Vec<String>, outputs: &Vec<String>) -> (r: Vec<usize>)
    requires
        inputs@.len() == outputs@.len(),
    ensures
        r@ == changed_spec(inputs@, outputs@, inputs@.len()),
{
    let mut r: Vec<usize> = Vec::new();
    let mut i: usize = 0;
    while i < inputs.len()
        invariant
            inputs@.len() == outputs@.len(),
            i <= inputs@.len(),
            r@ == changed_spec(inputs@, outputs@, i as nat),
        decreases inputs.len() - i,
    {
        if !same_text(inputs[i].as_str(), outputs[i].as_str()) {
            r.push(i);
        }
        i += 1;
    }
    r
}

/// Whether `git status --porcelain` reports a clean working tree: the
/// migration refuses to run on a dirty one.
pub fn tree_is_clean(porcelain: &str) -> (r: bool)
    ensures
        r == (porcelain@.len() == 0),
{
    let r = same_text(porcelain, "");
    proof {
        reveal_strlit("");
        if porcelain@.len() == 0 {
            assert(porcelain@ =~= ""@);
        }
    }
    r
}

/// The report of a finished in-place migration.
pub open spec fn migrated_message_spec(count: nat) -> Seq<char> {
    "ttipc-migrate: migrated "@ + decimal_spec(count) + " file(s) on branch "@ + BRANCH@
}

/// The report of a finished in-place migration of `count` files.
pub fn migrated_message(count: usize) -> (out: String)
    ensures
        out@ == migrated_message_spec(count as nat),
{
    let mut out = owned("ttipc-migrate: migrated ");
    push_decimal(&mut out, count);
    push_str(&mut out, " file(s) on branch ");
    push_str(&mut out, BRANCH);
    out
}

} // verus!
