use brainsick::argparse::{parse, ParseError, ParseResult};

fn args(items: &[&str]) -> Vec<Vec<u8>> {
    items.iter().map(|s| s.as_bytes().to_vec()).collect()
}

fn ok(items: &[&str]) -> ParseResult {
    match parse(args(items)) {
        Ok(r) => r,
        Err(_) => panic!("expected success"),
    }
}

#[test]
fn no_arguments() {
    let r = ok(&[]);
    assert!(!r.options.help);
    assert!(!r.options.version);
    assert_eq!(r.options.optimisation_level, 0);
    assert_eq!(r.options.output_file, None);
    assert!(r.positional_arguments.is_empty());
}

#[test]
fn positional_arguments_keep_their_order() {
    let r = ok(&["a.bas", "b.bas", "c"]);
    assert_eq!(r.positional_arguments, args(&["a.bas", "b.bas", "c"]));
}

#[test]
fn options_set_their_values() {
    let r = ok(&["-O2", "x.bas", "-o", "out", "-O1"]);
    assert_eq!(r.options.optimisation_level, 1);
    assert_eq!(r.options.output_file, Some(b"out".to_vec()));
    assert_eq!(r.positional_arguments, args(&["x.bas"]));
    let r = ok(&["-oprog", "-O0"]);
    assert_eq!(r.options.output_file, Some(b"prog".to_vec()));
    assert_eq!(r.options.optimisation_level, 0);
}

#[test]
fn double_dash_ends_the_options() {
    let r = ok(&["a", "--", "-o", "--help", "b"]);
    assert_eq!(r.positional_arguments, args(&["a", "-o", "--help", "b"]));
    assert_eq!(r.options.output_file, None);
    assert!(!r.options.help);
}

#[test]
fn help_and_version_stop_reading() {
    let r = ok(&["a", "--help", "--bogus", "b"]);
    assert!(r.options.help);
    assert_eq!(r.positional_arguments, args(&["a"]));
    let r = ok(&["--version", "--bogus", "b"]);
    assert!(r.options.version);
    assert!(!r.options.help);
    assert!(r.positional_arguments.is_empty());
}

#[test]
fn help_takes_precedence_over_version() {
    let r = ok(&["--version", "--help"]);
    assert!(r.options.help);
    let r = ok(&["--help", "--version"]);
    assert!(r.options.help);
    let r = ok(&["--version", "x", "--help"]);
    assert!(r.options.help);
    let r = ok(&["--version", "--", "--help"]);
    assert!(r.options.version);
    assert!(!r.options.help);
}

#[test]
fn emit_llvm_assembly_options() {
    let r = ok(&["-S", "-emit-llvm", "a.bas"]);
    assert!(r.options.emit_assembly);
    assert!(r.options.emit_llvm);
    assert_eq!(r.positional_arguments, args(&["a.bas"]));
    let r = ok(&["a.bas"]);
    assert!(!r.options.emit_assembly);
    assert!(!r.options.emit_llvm);
}

#[test]
fn missing_output_file() {
    match parse(args(&["x", "-o"])) {
        Err(ParseError::MissingArgumentToOption(o)) => assert_eq!(o, b"-o".to_vec()),
        _ => panic!("expected a missing argument"),
    }
}

#[test]
fn invalid_options() {
    match parse(args(&["-O3"])) {
        Err(ParseError::InvalidOption(o)) => assert_eq!(o, b"-O3".to_vec()),
        _ => panic!("expected an invalid option"),
    }
    match parse(args(&["--output", "x"])) {
        Err(ParseError::InvalidOption(o)) => assert_eq!(o, b"--output".to_vec()),
        _ => panic!("expected an invalid option"),
    }
    match parse(args(&["-"])) {
        Err(ParseError::InvalidOption(o)) => assert_eq!(o, b"-".to_vec()),
        _ => panic!("expected an invalid option"),
    }
}
