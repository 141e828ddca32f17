use secrets::parsing::{ParseError, Parser, Table};
use secrets::utils::{get_password, parse_size, size_from_captures, PasswordError, PasswordSource, SizeError, SizeSpec};

fn strings(items: &[&str]) -> Vec<String> {
    items.iter().map(|s| s.to_string()).collect()
}

fn parser() -> Parser {
    let mut parser = Parser::new();
    parser.add_argument("encrypt", Some("e"), 0);
    parser.add_argument("decrypt", Some("d"), 0);
    parser.add_argument("input", Some("i"), 1);
    parser.add_argument("output", Some("o"), 1);
    parser.add_argument("passfile", Some("P"), 1);
    parser.add_argument("password", Some("p"), 1);
    parser.add_argument("verbose", None, 0);
    parser
}

#[test]
fn table_keeps_the_last_value() {
    let mut table: Table<u32> = Table::new();
    assert_eq!(table.get("a"), None);
    assert!(!table.contains_key("a"));
    table.insert("a".to_string(), 1);
    table.insert("b".to_string(), 2);
    table.insert("a".to_string(), 3);
    assert_eq!(table.get("a"), Some(&3));
    assert_eq!(table.get("b"), Some(&2));
    assert_eq!(table.get(""), None);
    assert!(table.contains_key("b"));
}

#[test]
fn flags_and_positionals_are_told_apart() {
    let args = parser()
        .parse_args(&strings(&["-e", "one", "--input", "in.txt", "-o", "-", "two", "--verbose"]))
        .unwrap();
    assert_eq!(args.positionals, strings(&["one", "two"]));
    assert_eq!(args.flags.get("encrypt"), Some(&None));
    assert_eq!(args.flags.get("input"), Some(&Some("in.txt".to_string())));
    assert_eq!(args.flags.get("output"), Some(&Some("-".to_string())));
    assert_eq!(args.flags.get("verbose"), Some(&None));
    assert_eq!(args.flags.get("decrypt"), None);
    assert!(!args.flags.contains_key("e"));
}

#[test]
fn a_flag_takes_whatever_follows() {
    let args = parser().parse_args(&strings(&["-i", "--output", "x"])).unwrap();
    assert_eq!(args.flags.get("input"), Some(&Some("--output".to_string())));
    assert_eq!(args.positionals, strings(&["x"]));
    let args = parser().parse_args(&strings(&["-i", "a", "--input", "b"])).unwrap();
    assert_eq!(args.flags.get("input"), Some(&Some("b".to_string())));
}

#[test]
fn no_arguments_give_nothing() {
    let args = parser().parse_args(&[]).unwrap();
    assert!(args.positionals.is_empty());
    assert!(!args.flags.contains_key("input"));
}

#[test]
fn unknown_flags_are_errors() {
    assert_eq!(parser().parse_args(&strings(&["-x"])).err(), Some(ParseError::InvalidShortFlag));
    assert_eq!(parser().parse_args(&strings(&["-"])).err(), Some(ParseError::InvalidShortFlag));
    assert_eq!(parser().parse_args(&strings(&["-input"])).err(), Some(ParseError::InvalidShortFlag));
    assert_eq!(parser().parse_args(&strings(&["--e"])).err(), Some(ParseError::InvalidLongFlag));
    assert_eq!(parser().parse_args(&strings(&["--"])).err(), Some(ParseError::InvalidLongFlag));
    assert_eq!(parser().parse_args(&strings(&["a", "--nope", "b"])).err(), Some(ParseError::InvalidLongFlag));
    assert_eq!(parser().parse_args(&strings(&["a", "-i"])).err(), Some(ParseError::NoValue));
    assert_eq!(parser().parse_args(&strings(&["--output"])).err(), Some(ParseError::NoValue));
    assert_eq!(ParseError::InvalidShortFlag.message(), "Invalid short flag");
    assert_eq!(ParseError::InvalidLongFlag.message(), "Invalid long flag");
    assert_eq!(ParseError::NoValue.message(), "No value provided for flag");
}

#[test]
fn short_flag_without_long_flag_is_invalid() {
    let mut parser = Parser::new();
    parser.short_flags.insert("z".to_string(), "zeta".to_string());
    assert_eq!(parser.parse_args(&strings(&["-z"])).err(), Some(ParseError::InvalidLongFlag));
}

#[test]
fn password_comes_from_one_flag() {
    let args = parser().parse_args(&strings(&["-p", "secret"])).unwrap();
    match get_password(&args).unwrap() {
        PasswordSource::Literal(text) => assert_eq!(text, "secret"),
        PasswordSource::File(_) => panic!("not a file"),
    }
    let args = parser().parse_args(&strings(&["--passfile", "/tmp/pw"])).unwrap();
    match get_password(&args).unwrap() {
        PasswordSource::File(path) => assert_eq!(path, "/tmp/pw"),
        PasswordSource::Literal(_) => panic!("not a literal"),
    }
    let args = parser().parse_args(&strings(&["-p", "a", "-P", "b"])).unwrap();
    assert_eq!(get_password(&args).err(), Some(PasswordError::Conflict));
    let args = parser().parse_args(&strings(&["-e"])).unwrap();
    assert_eq!(get_password(&args).err(), Some(PasswordError::Missing));
    assert_eq!(
        PasswordError::Conflict.message(),
        "-p/--password and -P/--passfile are in conflict"
    );
    assert_eq!(PasswordError::Missing.message(), "Please specify password or passfile");
}

#[test]
fn password_flag_without_value_counts_as_missing() {
    let mut parser = Parser::new();
    parser.add_argument("password", Some("p"), 0);
    let args = parser.parse_args(&strings(&["-p"])).unwrap();
    assert_eq!(get_password(&args).err(), Some(PasswordError::Missing));
}

#[test]
fn size_test() {
    assert_eq!(parse_size("16G").unwrap().whole().unwrap(), 16 * 1024 * 1024 * 1024);
    assert_eq!(parse_size("4G").unwrap().whole().unwrap(), 4 * 1024 * 1024 * 1024);
    assert_eq!(parse_size("512M").unwrap().whole().unwrap(), 512 * 1024 * 1024);
    assert_eq!(parse_size("128K").unwrap().whole().unwrap(), 128 * 1024);
}

#[test]
fn sizes_have_a_number_and_a_unit() {
    let size = parse_size("1.5K").unwrap();
    assert_eq!(size.number, "1.5");
    assert_eq!(size.multiplier, 1024);
    assert_eq!(size.whole(), None);
    let size = parse_size("42").unwrap();
    assert_eq!(size.number, "42");
    assert_eq!(size.multiplier, 1);
    assert_eq!(size.whole(), Some(42));
    assert_eq!(parse_size("0M").unwrap().whole(), Some(0));
    assert_eq!(parse_size("007K").unwrap().whole(), Some(7 * 1024));
    assert_eq!(parse_size("").err(), Some(SizeError::Invalid));
    assert_eq!(parse_size("K").err(), Some(SizeError::Invalid));
    assert_eq!(parse_size("12k").err(), Some(SizeError::Invalid));
    assert_eq!(parse_size("12KB").err(), Some(SizeError::Invalid));
    assert_eq!(parse_size(" 12").err(), Some(SizeError::Invalid));
    assert_eq!(parse_size("12\n").err(), Some(SizeError::Invalid));
    assert_eq!(parse_size("-1").err(), Some(SizeError::Invalid));
}

#[test]
fn whole_sizes_are_exact_or_left_out() {
    let exact = SizeSpec { number: "9007199254740992".to_string(), multiplier: 1 };
    assert_eq!(exact.whole(), Some(9_007_199_254_740_992));
    let above = SizeSpec { number: "9007199254740993".to_string(), multiplier: 1 };
    assert_eq!(above.whole(), None);
    let huge = SizeSpec { number: "99999999999999999999999999".to_string(), multiplier: 1 };
    assert_eq!(huge.whole(), None);
    let product = SizeSpec { number: "8388608".to_string(), multiplier: 1024 * 1024 * 1024 };
    assert_eq!(product.whole(), Some(9_007_199_254_740_992));
    let over = SizeSpec { number: "8388609".to_string(), multiplier: 1024 * 1024 * 1024 };
    assert_eq!(over.whole(), None);
    let empty = SizeSpec { number: String::new(), multiplier: 1 };
    assert_eq!(empty.whole(), None);
    let zero = SizeSpec { number: "5".to_string(), multiplier: 0 };
    assert_eq!(zero.whole(), None);
}

#[test]
fn sizes_from_groups() {
    assert_eq!(size_from_captures(None).err(), Some(SizeError::Invalid));
    assert_eq!(size_from_captures(Some(None)).err(), Some(SizeError::Invalid));
    assert_eq!(size_from_captures(Some(Some(vec![Some("1".into())]))).err(), Some(SizeError::Invalid));
    assert_eq!(
        size_from_captures(Some(Some(vec![Some("1".into()), None, None]))).err(),
        Some(SizeError::Invalid)
    );
    let size =
        size_from_captures(Some(Some(vec![Some("3M".into()), Some("3".into()), Some("M".into())])))
            .unwrap();
    assert_eq!(size.number, "3");
    assert_eq!(size.multiplier, 1024 * 1024);
    let size = size_from_captures(Some(Some(vec![Some("3".into()), Some("3".into())]))).unwrap();
    assert_eq!(size.multiplier, 1);
    let size =
        size_from_captures(Some(Some(vec![None, Some("3".into()), Some("T".into())]))).unwrap();
    assert_eq!(size.multiplier, 1);
}
