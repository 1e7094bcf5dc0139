use raytrs::args::{
    find_long_option, find_short_option, option_takes_value, read_args, ArgError, Given, Opt,
};

fn read(args: &[&str]) -> (Vec<Given>, Option<ArgError>) {
    let bytes: Vec<Vec<u8>> = args.iter().map(|arg| arg.as_bytes().to_vec()).collect();
    let reading = read_args(&bytes);
    (reading.given, reading.error)
}

fn flag(option: Opt) -> Given {
    Given { option, value: None }
}

fn valued(option: Opt, value: usize) -> Given {
    Given { option, value: Some(value) }
}

#[test]
fn no_arguments_give_nothing() {
    assert_eq!(read(&[]), (vec![], None));
}

#[test]
fn long_options_are_named_in_full() {
    assert_eq!(find_long_option(b"--help"), Some(Opt::Help));
    assert_eq!(find_long_option(b"--quiet"), Some(Opt::Quiet));
    assert_eq!(find_long_option(b"--output"), Some(Opt::Output));
    assert_eq!(find_long_option(b"--scene"), Some(Opt::Scene));
    assert_eq!(find_long_option(b"--resolution"), Some(Opt::Resolution));
    assert_eq!(find_long_option(b"--threads"), Some(Opt::Threads));
    assert_eq!(find_long_option(b"--samples"), Some(Opt::Samples));
    assert_eq!(find_long_option(b"--sample"), None);
    assert_eq!(find_long_option(b"--samples "), None);
    assert_eq!(find_long_option(b"--Help"), None);
    assert_eq!(find_long_option(b"--"), None);
    assert_eq!(find_long_option(b"-help"), None);
    assert_eq!(find_long_option(b"help"), None);
    assert_eq!(find_long_option(b""), None);
}

#[test]
fn short_options_are_single_letters() {
    assert_eq!(find_short_option(b'h'), Some(Opt::Help));
    assert_eq!(find_short_option(b'q'), Some(Opt::Quiet));
    assert_eq!(find_short_option(b'o'), Some(Opt::Output));
    assert_eq!(find_short_option(b's'), Some(Opt::Scene));
    assert_eq!(find_short_option(b'r'), Some(Opt::Resolution));
    assert_eq!(find_short_option(b't'), Some(Opt::Threads));
    assert_eq!(find_short_option(b'x'), None);
    assert_eq!(find_short_option(b'H'), None);
    assert_eq!(find_short_option(b'-'), None);
}

#[test]
fn only_help_and_quiet_take_no_value() {
    assert!(!option_takes_value(Opt::Help));
    assert!(!option_takes_value(Opt::Quiet));
    assert!(option_takes_value(Opt::Output));
    assert!(option_takes_value(Opt::Scene));
    assert!(option_takes_value(Opt::Resolution));
    assert!(option_takes_value(Opt::Threads));
    assert!(option_takes_value(Opt::Samples));
}

#[test]
fn a_long_option_takes_the_next_argument_as_its_value() {
    assert_eq!(
        read(&["--resolution", "64x64", "--quiet", "--threads", "4"]),
        (vec![valued(Opt::Resolution, 1), flag(Opt::Quiet), valued(Opt::Threads, 4)], None)
    );
}

#[test]
fn a_value_may_look_like_an_option() {
    assert_eq!(read(&["--output", "--quiet"]), (vec![valued(Opt::Output, 1)], None));
}

#[test]
fn letters_may_be_chained() {
    assert_eq!(read(&["-qh"]), (vec![flag(Opt::Quiet), flag(Opt::Help)], None));
    assert_eq!(
        read(&["-qor", "out.png", "32x32", "-t", "2"]),
        (
            vec![flag(Opt::Quiet), valued(Opt::Output, 1), valued(Opt::Resolution, 2), valued(Opt::Threads, 4)],
            None
        )
    );
}

#[test]
fn a_lone_dash_gives_nothing() {
    assert_eq!(read(&["-"]), (vec![], None));
    assert_eq!(read(&["-", "-q"]), (vec![flag(Opt::Quiet)], None));
}

#[test]
fn an_argument_without_a_dash_is_stray() {
    assert_eq!(read(&["scene.json"]), (vec![], Some(ArgError::Stray(0))));
    assert_eq!(read(&["-q", "scene.json", "-h"]), (vec![flag(Opt::Quiet)], Some(ArgError::Stray(1))));
    assert_eq!(read(&[""]), (vec![], Some(ArgError::Stray(0))));
    assert_eq!(read(&["-o", "a", "b"]), (vec![valued(Opt::Output, 1)], Some(ArgError::Stray(2))));
}

#[test]
fn an_unknown_option_stops_the_reading() {
    assert_eq!(read(&["--verbose"]), (vec![], Some(ArgError::Unknown { arg: 0, at: 2 })));
    assert_eq!(read(&["--"]), (vec![], Some(ArgError::Unknown { arg: 0, at: 2 })));
    assert_eq!(
        read(&["-q", "-hxq"]),
        (vec![flag(Opt::Quiet), flag(Opt::Help)], Some(ArgError::Unknown { arg: 1, at: 2 }))
    );
}

#[test]
fn an_option_without_its_value_stops_the_reading() {
    assert_eq!(read(&["--scene"]), (vec![], Some(ArgError::MissingValue(Opt::Scene))));
    assert_eq!(read(&["-q", "-t"]), (vec![flag(Opt::Quiet)], Some(ArgError::MissingValue(Opt::Threads))));
    assert_eq!(
        read(&["-or", "out.png"]),
        (vec![valued(Opt::Output, 1)], Some(ArgError::MissingValue(Opt::Resolution)))
    );
}
