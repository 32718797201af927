use kernel_glue::{
    invalid_value, parse_falsify_args, parse_subcommand, parse_u64, parse_usize, same_measurements,
    FalsifyRequest, MeasurementBits, Options, Subcommand,
};

fn args(items: &[&str]) -> Vec<String> {
    items.iter().map(|s| s.to_string()).collect()
}

fn run_options(items: &[&str]) -> Options {
    match parse_falsify_args(&args(items)) {
        Some(Ok(FalsifyRequest::Run(o))) => o,
        _ => panic!("expected a run"),
    }
}

fn parse_error(items: &[&str]) -> String {
    match parse_falsify_args(&args(items)) {
        Some(Err(e)) => e,
        _ => panic!("expected an error"),
    }
}

#[test]
fn parse_u64_reads_decimal_numbers() {
    assert_eq!(parse_u64("--seed", "103"), Ok(103));
    assert_eq!(parse_u64("--seed", "+7"), Ok(7));
    assert_eq!(parse_u64("--seed", "0042"), Ok(42));
    assert_eq!(parse_u64("--seed", "18446744073709551615"), Ok(u64::MAX));
}

#[test]
fn parse_u64_rejects_what_is_not_a_number() {
    assert_eq!(parse_u64("--seed", "-1"), Err("invalid value for --seed: -1".to_string()));
    assert_eq!(parse_u64("--seed", ""), Err("invalid value for --seed: ".to_string()));
    assert_eq!(parse_u64("--seed", " 1"), Err("invalid value for --seed:  1".to_string()));
    assert_eq!(parse_u64("--seed", "+"), Err("invalid value for --seed: +".to_string()));
    assert_eq!(
        parse_u64("--moments", "18446744073709551616"),
        Err("invalid value for --moments: 18446744073709551616".to_string())
    );
}

#[test]
fn parse_usize_reads_and_rejects() {
    assert_eq!(parse_usize("--width", "56"), Ok(56));
    assert_eq!(parse_usize("--width", "5x"), Err("invalid value for --width: 5x".to_string()));
}

#[test]
fn invalid_value_message_names_option_and_value() {
    assert_eq!(invalid_value("--height", "abc"), "invalid value for --height: abc");
}

#[test]
fn default_options_match_the_standard_run() {
    let o = Options::default();
    assert_eq!(o.width, 56);
    assert_eq!(o.height, 36);
    assert_eq!(o.moments, 1_200);
    assert_eq!(o.seed, 103);
    assert_eq!(o.output, "artifacts/host-falsify.txt");
}

#[test]
fn no_arguments_run_the_defaults() {
    let o = run_options(&[]);
    assert_eq!((o.width, o.height, o.moments, o.seed), (56, 36, 1_200, 103));
    assert_eq!(o.output, "artifacts/host-falsify.txt");
}

#[test]
fn options_are_read_and_later_ones_override() {
    let o = run_options(&[
        "--width", "80", "--height", "40", "--moments", "5", "--seed", "9", "--output", "r.txt",
        "--width", "81",
    ]);
    assert_eq!((o.width, o.height, o.moments, o.seed), (81, 40, 5, 9));
    assert_eq!(o.output, "r.txt");
}

#[test]
fn zero_moments_are_rejected() {
    assert_eq!(parse_error(&["--moments", "0"]), "--moments must be greater than zero");
}

#[test]
fn unknown_arguments_are_rejected() {
    assert_eq!(parse_error(&["--bogus"]), "unknown argument: --bogus");
    assert_eq!(parse_error(&["--bogus", "--help"]), "unknown argument: --bogus");
}

#[test]
fn unreadable_values_are_rejected() {
    assert_eq!(parse_error(&["--width", "x"]), "invalid value for --width: x");
    assert_eq!(parse_error(&["--seed", "1", "--moments", "-3"]), "invalid value for --moments: -3");
}

#[test]
fn help_ends_the_reading() {
    assert!(matches!(parse_falsify_args(&args(&["--help", "--bogus"])), Some(Ok(FalsifyRequest::Help))));
    assert!(matches!(parse_falsify_args(&args(&["--width", "3", "-h"])), Some(Ok(FalsifyRequest::Help))));
}

#[test]
fn an_option_without_its_value_is_reported() {
    assert!(parse_falsify_args(&args(&["--width"])).is_none());
    assert!(parse_falsify_args(&args(&["--seed", "1", "--output"])).is_none());
}

#[test]
fn subcommands_are_recognised() {
    assert!(matches!(parse_subcommand(&args(&["falsify", "--width", "3"])), Subcommand::Falsify));
    assert!(matches!(parse_subcommand(&args(&["check"])), Subcommand::Check));
    assert!(matches!(parse_subcommand(&args(&[])), Subcommand::Missing));
    match parse_subcommand(&args(&["sweep"])) {
        Subcommand::Unknown(s) => assert_eq!(s, "sweep"),
        _ => panic!("expected an unknown subcommand"),
    }
}

#[test]
fn measurements_compare_bit_for_bit() {
    let a = MeasurementBits {
        age: 50,
        introduced: 1,
        resident: 2,
        radiated: 3,
        dissipated: 4,
        accounting_error: 5,
        channel_information_bits: 6,
    };
    assert!(same_measurements(a, a));
    let mut b = a;
    b.dissipated = 40;
    assert!(!same_measurements(a, b));
    let mut c = a;
    c.age = 51;
    assert!(!same_measurements(a, c));
}
