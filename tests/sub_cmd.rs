use sub_command::{Command, CommandError, SubCommand, SubCommandBuilder, SubCommandBuilderError};

const DEFAULT_SUB: &str = "SUB\tFOO\tpouet\r\n";

#[test]
fn it_parses() {
    let parse_res = SubCommand::try_parse(DEFAULT_SUB.as_bytes());
    assert!(parse_res.is_ok());
    let cmd = parse_res.unwrap();
    assert_eq!(&cmd.subject, "FOO");
    assert_eq!(&cmd.sid, "pouet")
}

#[test]
fn it_stringifies() {
    let cmd = SubCommandBuilder::default()
        .subject("FOO")
        .sid("pouet")
        .build()
        .unwrap();

    let cmd_bytes_res = cmd.into_vec();
    assert!(cmd_bytes_res.is_ok());
    let cmd_bytes = cmd_bytes_res.unwrap();

    assert_eq!(DEFAULT_SUB, cmd_bytes);
}

#[test]
fn parses_without_queue_group() {
    let cmd = SubCommand::try_parse(b"SUB\tFOO\tpouet\r\n").unwrap();
    assert_eq!(cmd.subject, "FOO");
    assert_eq!(cmd.queue_group, None);
    assert_eq!(cmd.sid, "pouet");
}

#[test]
fn parses_queue_group() {
    let cmd = SubCommand::try_parse(b"SUB\tFOO\tGRP1\tpouet\r\n").unwrap();
    assert_eq!(cmd.subject, "FOO");
    assert_eq!(cmd.queue_group, Some("GRP1".to_string()));
    assert_eq!(cmd.sid, "pouet");
}

#[test]
fn parses_through_the_trait() {
    let cmd = <SubCommand as Command>::try_parse(b"SUB FOO  pouet\r\n").unwrap();
    assert_eq!(cmd.subject, "FOO");
    assert_eq!(cmd.queue_group, None);
    assert_eq!(cmd.sid, "pouet");
}

#[test]
fn missing_terminator_is_incomplete() {
    let r = SubCommand::try_parse(b"SUB\tFOO\tpouet");
    assert!(matches!(r, Err(CommandError::IncompleteCommandError)));
}

#[test]
fn short_buffers_are_incomplete() {
    assert!(matches!(SubCommand::try_parse(b""), Err(CommandError::IncompleteCommandError)));
    assert!(matches!(SubCommand::try_parse(b"\n"), Err(CommandError::IncompleteCommandError)));
    assert!(matches!(SubCommand::try_parse(b"SUB\tFOO\tpouet\n\r"), Err(CommandError::IncompleteCommandError)));
}

#[test]
fn other_tag_is_malformed() {
    let r = SubCommand::try_parse(b"PUB\tFOO\tpouet\r\n");
    assert!(matches!(r, Err(CommandError::CommandMalformed)));
    let r = SubCommand::try_parse(b"sub\tFOO\tpouet\r\n");
    assert!(matches!(r, Err(CommandError::CommandMalformed)));
}

#[test]
fn missing_fields_are_malformed() {
    assert!(matches!(SubCommand::try_parse(b"\r\n"), Err(CommandError::CommandMalformed)));
    assert!(matches!(SubCommand::try_parse(b"SUB\r\n"), Err(CommandError::CommandMalformed)));
    assert!(matches!(SubCommand::try_parse(b"SUB\tFOO\r\n"), Err(CommandError::CommandMalformed)));
}

#[test]
fn invalid_text_is_a_decoding_error() {
    let r = SubCommand::try_parse(b"SUB\tFOO\t\xff\r\n");
    assert!(matches!(r, Err(CommandError::Utf8Error)));
}

#[test]
fn unicode_whitespace_separates_fields() {
    let r = SubCommand::try_parse("SUB\u{a0}FOO\u{3000}pouet\r\n".as_bytes()).unwrap();
    assert_eq!(r.subject, "FOO");
    assert_eq!(r.sid, "pouet");
}

#[test]
fn encodes_exact_bytes() {
    let cmd = SubCommand { subject: "FOO".to_string(), queue_group: None, sid: "pouet".to_string() };
    assert_eq!(cmd.encode(), b"SUB\tFOO\tpouet\r\n".to_vec());
    let cmd = SubCommand {
        subject: "FOO".to_string(),
        queue_group: Some("GRP1".to_string()),
        sid: "pouet".to_string(),
    };
    assert_eq!(cmd.encode(), b"SUB\tFOO\tGRP1\tpouet\r\n".to_vec());
    let bytes = cmd.into_vec().unwrap();
    assert_eq!(&bytes[..], b"SUB\tFOO\tGRP1\tpouet\r\n");
}

#[test]
fn round_trips_with_and_without_queue_group() {
    for qg in [None, Some("workers".to_string())] {
        let cmd = SubCommand::builder()
            .subject("orders.créées")
            .queue_group(qg.clone())
            .sid("a1")
            .build()
            .unwrap();
        let bytes = cmd.clone().into_vec().unwrap();
        let back = SubCommand::try_parse(&bytes).unwrap();
        assert_eq!(back.subject, cmd.subject);
        assert_eq!(back.queue_group, qg);
        assert_eq!(back.sid, cmd.sid);
    }
}

#[test]
fn no_double_separator_without_queue_group() {
    let cmd = SubCommand::builder().subject("FOO").sid("x").build().unwrap();
    let bytes = cmd.encode();
    assert!(!bytes.windows(2).any(|w| w == b"\t\t"));
}

#[test]
fn rejects_bad_subject() {
    for bad in ["", "FOO BAR", "a\tb"] {
        match SubCommand::builder().subject(bad).sid("x").build() {
            Err(SubCommandBuilderError::ValidationError(f)) => assert_eq!(f, "subject"),
            other => panic!("unexpected {:?}", other),
        }
    }
}

#[test]
fn rejects_bad_queue_group() {
    for bad in ["", "GRP 1"] {
        match SubCommand::builder().subject("FOO").queue_group(Some(bad.to_string())).build() {
            Err(SubCommandBuilderError::ValidationError(f)) => assert_eq!(f, "queue group"),
            other => panic!("unexpected {:?}", other),
        }
    }
}

#[test]
fn rejects_bad_sid() {
    match SubCommand::builder().subject("FOO").sid("a b").build() {
        Err(SubCommandBuilderError::ValidationError(f)) => assert_eq!(f, "sid"),
        other => panic!("unexpected {:?}", other),
    }
}

#[test]
fn subject_must_be_set() {
    match SubCommandBuilder::default().sid("x").build() {
        Err(SubCommandBuilderError::UninitializedField(f)) => assert_eq!(f, "subject"),
        other => panic!("unexpected {:?}", other),
    }
}

#[test]
fn generated_sid_shape() {
    for _ in 0..20 {
        let sid = SubCommand::generate_sid();
        assert_eq!(sid.chars().count(), 12);
        assert!(sid.chars().all(|c| c.is_ascii_alphanumeric()));
    }
    let cmd = SubCommand::builder().subject("FOO").build().unwrap();
    assert_eq!(cmd.sid.len(), 12);
    assert!(cmd.sid.chars().all(|c| c.is_ascii_alphanumeric()));
}

#[test]
fn splits_on_runs_of_whitespace() {
    let t = sub_command::split_whitespace("  a\t\tbc \r\nd ");
    assert_eq!(t, vec!["a".to_string(), "bc".to_string(), "d".to_string()]);
    assert!(sub_command::split_whitespace(" \t ").is_empty());
    assert!(sub_command::valid_arg("abc"));
    assert!(!sub_command::valid_arg(""));
    assert!(!sub_command::valid_arg("a\u{2028}b"));
    assert!(sub_command::is_whitespace('\u{85}'));
    assert!(!sub_command::is_whitespace('x'));
}

#[test]
fn command_tag_is_sub() {
    assert_eq!(<SubCommand as Command>::CMD_NAME.as_bytes(), b"SUB");
    let frame = SubCommand::builder().subject("FOO").build().unwrap().encode();
    assert!(frame.starts_with(<SubCommand as Command>::CMD_NAME.as_bytes()));
}
