//! The grammar of the command line.
//!
//! An argument that begins with two dashes names one option in full. An
//! argument that begins with one dash names an option with each of its
//! letters. An option that takes a value takes the next argument that was
//! not read yet. Anything else is no option, and reading stops there.

use vstd::prelude::*;
use crate::text::{matches_at, occurs_at};

verus! {

/// The options of the renderer.
#[derive(Clone, Copy, Debug, PartialEq, Eq, Structural)]
pub enum Opt {
    Help,
    Quiet,
    Output,
    Scene,
    Resolution,
    Threads,
    Samples,
}

/// An option that was given, and the place among the arguments of the value
/// that was given with it, where it takes one.
#[derive(Clone, Copy, Debug, PartialEq, Eq, Structural)]
pub struct Given {
    pub option: Opt,
    pub value: Option<usize>,
}

/// Why reading the arguments stopped.
#[derive(Clone, Copy, Debug, PartialEq, Eq, Structural)]
pub enum ArgError {
    /// The argument at this place is no option.
    Stray(usize),
    /// The argument at place `arg` names, from its byte `at` on, an option
    /// that there is not.
    Unknown { arg: usize, at: usize },
    /// The option takes a value, and no argument is left for it.
    MissingValue(Opt),
}

/// What was read from the arguments: the options in the order in which they
/// were given, up to the end or to the first fault, and that fault.
pub struct Reading {
    pub given: Vec<Given>,
    pub error: Option<ArgError>,
}

/// Whether the option takes a value.
pub open spec fn takes_value(option: Opt) -> bool {
    !(option is Help || option is Quiet)
}

/// Whether `arg` is two dashes and then exactly `name`.
pub open spec fn spells(arg: Seq<u8>, name: Seq<u8>) -> bool {
    arg.len() == 2 + name.len() && occurs_at(arg, name, 2)
}

/// The option that an argument names in full: `--help`, `--quiet`,
/// `--output`, `--scene`, `--resolution`, `--threads` or `--samples`.
pub open spec fn long_option(arg: Seq<u8>) -> Option<Opt> {
    if spells(arg, seq![104u8, 101u8, 108u8, 112u8]) {
        Some(Opt::Help)
    } else if spells(arg, seq![113u8, 117u8, 105u8, 101u8, 116u8]) {
        Some(Opt::Quiet)
    } else if spells(arg, seq![111u8, 117u8, 116u8, 112u8, 117u8, 116u8]) {
        Some(Opt::Output)
    } else if spells(arg, seq![115u8, 99u8, 101u8, 110u8, 101u8]) {
        Some(Opt::Scene)
    } else if spells(arg, seq![114u8, 101u8, 115u8, 111u8, 108u8, 117u8, 116u8, 105u8, 111u8, 110u8]) {
        Some(Opt::Resolution)
    } else if spells(arg, seq![116u8, 104u8, 114u8, 101u8, 97u8, 100u8, 115u8]) {
        Some(Opt::Threads)
    } else if spells(arg, seq![115u8, 97u8, 109u8, 112u8, 108u8, 101u8, 115u8]) {
        Some(Opt::Samples)
    } else {
        None
    }
}

/// The option that a letter names: `h`, `q`, `o`, `s`, `r` or `t`. The
/// number of samples has no letter.
pub open spec fn short_option(letter: u8) -> Option<Opt> {
    if letter == 104 {
        Some(Opt::Help)
    } else if letter == 113 {
        Some(Opt::Quiet)
    } else if letter == 111 {
        Some(Opt::Output)
    } else if letter == 115 {
        Some(Opt::Scene)
    } else if letter == 114 {
        Some(Opt::Resolution)
    } else if letter == 116 {
        Some(Opt::Threads)
    } else {
        None
    }
}

/// Whether an argument begins with two dashes.
pub open spec fn is_long(arg: Seq<u8>) -> bool {
    arg.len() >= 2 && arg[0] == 45 && arg[1] == 45
}

/// Whether an argument begins with a dash.
pub open spec fn is_dashed(arg: Seq<u8>) -> bool {
    arg.len() >= 1 && arg[0] == 45
}

/// The arguments as byte strings.
pub open spec fn texts(args: Seq<Vec<u8>>) -> Seq<Seq<u8>> {
    Seq::new(args.len(), |i: int| args[i]@)
}

/// What is found after an option was named: the option is given, with the
/// argument at `next` as its value where it takes one.
pub open spec fn with_option(option: Opt, next: int, found: Seq<Given>) -> Seq<Given> {
    if takes_value(option) {
        found.push(Given { option, value: Some(next as usize) })
    } else {
        found.push(Given { option, value: None })
    }
}

/// The first argument not read yet after an option was named.
pub open spec fn after_option(option: Opt, next: int) -> int {
    if takes_value(option) {
        next + 1
    } else {
        next
    }
}

/// Reading goes on from argument `i`, of which the letters before `j` are
/// read; `j` is zero where the argument was not looked at yet. `next` is the
/// first argument after `i` that no option has taken as its value, and
/// `found` holds what was given so far.
pub open spec fn read_from(args: Seq<Seq<u8>>, i: int, j: int, next: int, found: Seq<Given>) -> (
    Seq<Given>,
    Option<ArgError>,
)
    decreases args.len() - i, args[i].len() - j,
{
    if i < 0 || i >= args.len() || next <= i || next > args.len() || j < 0 {
        (found, None)
    } else if j == 0 && is_long(args[i]) {
        match long_option(args[i]) {
            None => (found, Some(ArgError::Unknown { arg: i as usize, at: 2 })),
            Some(option) => if takes_value(option) && next >= args.len() {
                (found, Some(ArgError::MissingValue(option)))
            } else {
                read_from(
                    args,
                    after_option(option, next),
                    0,
                    after_option(option, next) + 1,
                    with_option(option, next, found),
                )
            },
        }
    } else if j == 0 && !is_dashed(args[i]) {
        (found, Some(ArgError::Stray(i as usize)))
    } else if j == 0 {
        read_from(args, i, 1, next, found)
    } else if j >= args[i].len() {
        read_from(args, next, 0, next + 1, found)
    } else {
        match short_option(args[i][j]) {
            None => (found, Some(ArgError::Unknown { arg: i as usize, at: j as usize })),
            Some(option) => if takes_value(option) && next >= args.len() {
                (found, Some(ArgError::MissingValue(option)))
            } else {
                read_from(args, i, j + 1, after_option(option, next), with_option(option, next, found))
            },
        }
    }
}

/// What the arguments of a command line give.
pub open spec fn reading_of(args: Seq<Seq<u8>>) -> (Seq<Given>, Option<ArgError>) {
    read_from(args, 0, 0, 1, Seq::empty())
}

/// Tells whether the option takes a value.
pub fn option_takes_value(option: Opt) -> (takes: bool)
    ensures
        takes == takes_value(option),
{
    match option {
        Opt::Help => false,
        Opt::Quiet => false,
        _ => true,
    }
}

/// Tells whether `arg` is two dashes and then exactly `name`.
fn arg_spells(arg: &[u8], name: &[u8]) -> (same: bool)
    ensures
        same == spells(arg@, name@),
{
    let n: usize = name.len();
    arg.len() >= 2 && arg.len() - 2 == n && matches_at(arg, name, 2)
}

/// Finds the option that an argument names in full.
pub fn find_long_option(arg: &[u8]) -> (option: Option<Opt>)
    ensures
        option == long_option(arg@),
{
    let help: [u8; 4] = [104, 101, 108, 112];
    let quiet: [u8; 5] = [113, 117, 105, 101, 116];
    let output: [u8; 6] = [111, 117, 116, 112, 117, 116];
    let scene: [u8; 5] = [115, 99, 101, 110, 101];
    let resolution: [u8; 10] = [114, 101, 115, 111, 108, 117, 116, 105, 111, 110];
    let threads: [u8; 7] = [116, 104, 114, 101, 97, 100, 115];
    let samples: [u8; 7] = [115, 97, 109, 112, 108, 101, 115];
    assert(help@ =~= seq![104u8, 101u8, 108u8, 112u8]);
    assert(quiet@ =~= seq![113u8, 117u8, 105u8, 101u8, 116u8]);
    assert(output@ =~= seq![111u8, 117u8, 116u8, 112u8, 117u8, 116u8]);
    assert(scene@ =~= seq![115u8, 99u8, 101u8, 110u8, 101u8]);
    assert(resolution@ =~= seq![114u8, 101u8, 115u8, 111u8, 108u8, 117u8, 116u8, 105u8, 111u8, 110u8]);
    assert(threads@ =~= seq![116u8, 104u8, 114u8, 101u8, 97u8, 100u8, 115u8]);
    assert(samples@ =~= seq![115u8, 97u8, 109u8, 112u8, 108u8, 101u8, 115u8]);
    if arg_spells(arg, help.as_slice()) {
        Some(Opt::Help)
    } else if arg_spells(arg, quiet.as_slice()) {
        Some(Opt::Quiet)
    } else if arg_spells(arg, output.as_slice()) {
        Some(Opt::Output)
    } else if arg_spells(arg, scene.as_slice()) {
        Some(Opt::Scene)
    } else if arg_spells(arg, resolution.as_slice()) {
        Some(Opt::Resolution)
    } else if arg_spells(arg, threads.as_slice()) {
        Some(Opt::Threads)
    } else if arg_spells(arg, samples.as_slice()) {
        Some(Opt::Samples)
    } else {
        None
    }
}

/// Finds the option that a letter names.
pub fn find_short_option(letter: u8) -> (option: Option<Opt>)
    ensures
        option == short_option(letter),
{
    if letter == 104 {
        Some(Opt::Help)
    } else if letter == 113 {
        Some(Opt::Quiet)
    } else if letter == 111 {
        Some(Opt::Output)
    } else if letter == 115 {
        Some(Opt::Scene)
    } else if letter == 114 {
        Some(Opt::Resolution)
    } else if letter == 116 {
        Some(Opt::Threads)
    } else {
        None
    }
}

/// Reads the arguments of a command line, the name of the program left out.
/// Every value that an option was given with is one of the arguments.
pub fn read_args(args: &Vec<Vec<u8>>) -> (reading: Reading)
    ensures
        (reading.given@, reading.error) == reading_of(texts(args@)),
        forall|k: int|
            0 <= k < reading.given@.len() ==> ((#[trigger] reading.given@[k]).value matches Some(v) ==> v < args@.len()),
{
    let ghost all = texts(args@);
    let count: usize = args.len();
    let mut given: Vec<Given> = Vec::new();
    if count == 0 {
        return Reading { given, error: None };
    }
    let mut i: usize = 0;
    let mut j: usize = 0;
    let mut next: usize = 1;
    loop
        invariant
            count == args@.len(),
            all == texts(args@),
            i < count,
            i < next <= count,
            j <= all[i as int].len(),
            read_from(all, i as int, j as int, next as int, given@) == reading_of(all),
            forall|k: int| 0 <= k < given@.len() ==> ((#[trigger] given@[k]).value matches Some(v) ==> v < count),
        decreases count - i, all[i as int].len() - j,
    {
        let arg: &Vec<u8> = &args[i];
        assert(all[i as int] == arg@);
        let len: usize = arg.len();
        let named: Option<Opt>;
        let at: usize;
        if j == 0 && len >= 2 && arg[0] == 45 && arg[1] == 45 {
            named = find_long_option(arg.as_slice());
            at = 2;
        } else if j == 0 && (len == 0 || arg[0] != 45) {
            return Reading { given, error: Some(ArgError::Stray(i)) };
        } else if j == 0 {
            j = 1;
            continue ;
        } else if j >= len {
            assert(read_from(all, i as int, j as int, next as int, given@) == read_from(
                all,
                next as int,
                0,
                next + 1,
                given@,
            ));
            if next >= count {
                return Reading { given, error: None };
            }
            i = next;
            j = 0;
            next = next + 1;
            continue ;
        } else {
            named = find_short_option(arg[j]);
            at = j;
        }
        let option = match named {
            Some(option) => option,
            None => {
                return Reading { given, error: Some(ArgError::Unknown { arg: i, at }) };
            },
        };
        let ghost before = given@;
        let ghost unread = next as int;
        if option_takes_value(option) {
            if next >= count {
                return Reading { given, error: Some(ArgError::MissingValue(option)) };
            }
            given.push(Given { option, value: Some(next) });
            next = next + 1;
        } else {
            given.push(Given { option, value: None });
        }
        assert(given@ == with_option(option, unread, before));
        assert(next == after_option(option, unread));
        if j == 0 {
            assert(reading_of(all) == read_from(all, next as int, 0, next + 1, given@));
            if next >= count {
                return Reading { given, error: None };
            }
            i = next;
            next = next + 1;
        } else {
            j = j + 1;
        }
    }
}

} // verus!
