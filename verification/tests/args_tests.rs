use clap::builder::RangedI64ValueParser;
use clap::Arg;
use clap::ArgAction;
use clap::Command;
use lens::args::Args;
use lens::args::DEFAULT_ITER;
use lens::args::DEFAULT_WARM;

/// The command line of the tool, read as the tool reads it, and handed to
/// the library.
fn try_parse_from<const N: usize>(argv: [&str; N]) -> Result<Args, clap::Error> {
    let matches = Command::new("lens")
        .arg(Arg::new("warm").short('w').long("warm").value_parser(RangedI64ValueParser::<u8>::new()))
        .arg(Arg::new("iter").short('i').long("iter").value_parser(RangedI64ValueParser::<u8>::new()))
        .arg(Arg::new("commands").required(true).action(ArgAction::Append))
        .try_get_matches_from(argv)?;
    let commands: Vec<String> =
        matches.get_many::<String>("commands").unwrap_or_default().cloned().collect();
    let args = Args::new(
        matches.get_one::<u8>("warm").copied(),
        matches.get_one::<u8>("iter").copied(),
        commands,
    );
    Ok(args.unwrap())
}

#[test]
fn test_args_default() {
    let args = try_parse_from(["test", "ruby a.rb"]).unwrap();
    assert_eq!(args.warm, 0);
}

#[test]
fn test_args_custom_warm() {
    let args = try_parse_from(["test", "-w", "3", "ruby a.rb"]).unwrap();
    assert_eq!(args.warm, 3);
}

#[test]
fn test_args_custom_iter() {
    let args = try_parse_from(["test", "-i", "5", "ruby a.rb"]).unwrap();
    assert_eq!(args.iter, 5);
}

#[test]
fn test_args_giving_multiple_commands() {
    let args =
        try_parse_from(["test", "ruby a.rb", "another command to compare"]).unwrap();
    assert_eq!(args.commands.len(), 2);
    assert_eq!(args.commands[0], "ruby a.rb");
    assert_eq!(args.commands[1], "another command to compare");
}

#[test]
fn counts_that_were_not_given_are_the_defaults() {
    assert_eq!((DEFAULT_WARM, DEFAULT_ITER), (0, 5));
    let commands = vec!["true".to_string()];
    assert_eq!(
        Args::new(None, None, commands.clone()),
        Some(Args { warm: 0, iter: 5, commands: commands.clone() })
    );
    assert_eq!(
        Args::new(Some(3), None, commands.clone()),
        Some(Args { warm: 3, iter: 5, commands: commands.clone() })
    );
    assert_eq!(
        Args::new(None, Some(0), commands.clone()),
        Some(Args { warm: 0, iter: 0, commands: commands.clone() })
    );
    assert_eq!(
        Args::new(Some(255), Some(1), commands.clone()),
        Some(Args { warm: 255, iter: 1, commands })
    );
}

#[test]
fn a_command_is_required() {
    assert_eq!(Args::new(None, None, vec![]), None);
    assert_eq!(Args::new(Some(1), Some(2), vec![]), None);
    assert!(try_parse_from(["test"]).is_err());
    assert!(try_parse_from(["test", "-w", "3"]).is_err());
}

#[test]
fn commands_keep_their_order() {
    let commands = vec!["b".to_string(), "a".to_string(), "b".to_string()];
    let args = Args::new(None, None, commands.clone()).unwrap();
    assert_eq!(args.commands, commands);
    let args = try_parse_from(["test", "-i", "2", "b", "--warm", "1", "a"]).unwrap();
    assert_eq!(args, Args { warm: 1, iter: 2, commands: vec!["b".to_string(), "a".to_string()] });
}
