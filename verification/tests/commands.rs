use resp_kv::command::{calculate_expire_time, calculate_expire_time_at};
use resp_kv::interpreter::interpret_named;
use resp_kv::{
    interpret, interpret_at, parse, tokenize, Command, CommandError, Data, Database, Echo, Error,
    Execute, ExecutionContext, ExecutionError, Get, Ping, RespValue, SetCommand, SetCondition,
};

fn bulk(s: &str) -> RespValue {
    RespValue::BulkString(s.to_owned())
}

fn request(words: &[&str]) -> RespValue {
    RespValue::Array(words.iter().map(|word| bulk(word)).collect())
}

fn set(key: &str, value: &str) -> SetCommand {
    SetCommand {
        key: key.to_owned(),
        value: value.to_owned(),
        ..SetCommand::default()
    }
}

fn run(command: &Command, db: &mut Database, now: Option<u128>) -> Vec<u8> {
    command.execute(ExecutionContext { db, now }).unwrap()
}

fn command_error(words: &[&str]) -> Error {
    interpret_at(&request(words), Some(0)).unwrap_err()
}

#[test]
fn round_trip_of_each_command_in_each_casing() {
    for name in ["echo", "ECHO", "Echo", "eChO"] {
        let query = format!("*2\r\n$4\r\n{}\r\n$3\r\nhey\r\n", name);
        let command = interpret(&parse(&tokenize(&query).unwrap()).unwrap()).unwrap();
        assert_eq!(
            command,
            Command::Echo(Echo {
                message: "hey".to_owned()
            })
        );
    }
    for name in ["ping", "PING", "Ping"] {
        let query = format!("*1\r\n$4\r\n{}\r\n", name);
        let command = interpret(&parse(&tokenize(&query).unwrap()).unwrap()).unwrap();
        assert_eq!(command, Command::Ping(Ping { message: None }));
    }
    for name in ["get", "GET", "gEt"] {
        let query = format!("*2\r\n$3\r\n{}\r\n$1\r\nk\r\n", name);
        let command = interpret(&parse(&tokenize(&query).unwrap()).unwrap()).unwrap();
        assert_eq!(
            command,
            Command::Get(Get {
                key: "k".to_owned()
            })
        );
    }
    for name in ["set", "SET", "Set"] {
        let query = format!("*3\r\n$3\r\n{}\r\n$1\r\nk\r\n$1\r\nv\r\n", name);
        let command = interpret(&parse(&tokenize(&query).unwrap()).unwrap()).unwrap();
        assert_eq!(command, Command::SetCommand(set("k", "v")));
    }
}

#[test]
fn command_name_is_folded_as_unicode_text() {
    // The long s folds to S, so this name reads SET.
    let command = interpret_at(&request(&["\u{17f}et", "k", "v"]), Some(0)).unwrap();
    assert_eq!(command, Command::SetCommand(set("k", "v")));
}

#[test]
fn interpret_named_wants_the_name_in_upper_case() {
    let arguments = [bulk("hey")];
    assert_eq!(
        interpret_named("ECHO", &arguments, Some(0)).unwrap(),
        Command::Echo(Echo {
            message: "hey".to_owned()
        })
    );
    assert_eq!(
        interpret_named("echo", &arguments, Some(0)),
        Err(Error::Command(CommandError::UnknownCommand))
    );
}

#[test]
fn default_set_has_no_options() {
    let plain = SetCommand::default();
    assert_eq!(plain.key, "");
    assert_eq!(plain.value, "");
    assert_eq!(plain.nx_or_xx, None);
    assert!(!plain.get);
    assert_eq!(plain.expire_time, None);
}

#[test]
fn set_options_are_read_whatever_their_case() {
    let command = interpret_at(
        &request(&["set", "k", "v", "nx", "Get", "pX", "5"]),
        Some(1_000),
    )
    .unwrap();
    assert_eq!(
        command,
        Command::SetCommand(SetCommand {
            nx_or_xx: Some(SetCondition::NX),
            get: true,
            expire_time: Some(1_005),
            ..set("k", "v")
        })
    );
}

#[test]
fn later_condition_replaces_earlier() {
    let command = interpret_at(&request(&["SET", "k", "v", "NX", "XX"]), None).unwrap();
    assert_eq!(
        command,
        Command::SetCommand(SetCommand {
            nx_or_xx: Some(SetCondition::XX),
            ..set("k", "v")
        })
    );
    let command = interpret_at(&request(&["SET", "k", "v", "XX", "NX", "NX"]), None).unwrap();
    assert_eq!(
        command,
        Command::SetCommand(SetCommand {
            nx_or_xx: Some(SetCondition::NX),
            ..set("k", "v")
        })
    );
}

#[test]
fn later_expiry_replaces_earlier() {
    let command = interpret_at(
        &request(&["SET", "k", "v", "EX", "1", "PXAT", "77"]),
        Some(5),
    )
    .unwrap();
    assert_eq!(
        command,
        Command::SetCommand(SetCommand {
            expire_time: Some(77),
            ..set("k", "v")
        })
    );
}

#[test]
fn expiry_options_give_absolute_milliseconds() {
    let now = Some(1_700_000_000_000u128);
    assert_eq!(
        calculate_expire_time_at("EX", 10, now),
        Ok(1_700_000_010_000)
    );
    assert_eq!(
        calculate_expire_time_at("PX", 10, now),
        Ok(1_700_000_000_010)
    );
    assert_eq!(calculate_expire_time_at("EXAT", 10, now), Ok(10_000));
    assert_eq!(calculate_expire_time_at("PXAT", 10, now), Ok(10));
    assert_eq!(calculate_expire_time_at("PX", 0, now), Ok(1_700_000_000_000));
    assert_eq!(
        calculate_expire_time_at("EXAT", u64::MAX, None),
        Ok(u64::MAX as u128 * 1000)
    );
    assert_eq!(
        calculate_expire_time_at("PXAT", u64::MAX, None),
        Ok(u64::MAX as u128)
    );
    assert_eq!(
        calculate_expire_time_at("EX", u64::MAX, Some(1)),
        Ok(u64::MAX as u128 * 1000 + 1)
    );
}

#[test]
fn expiry_option_name_is_matched_exactly() {
    assert_eq!(
        calculate_expire_time_at("ex", 10, Some(0)),
        Err(Error::Command(CommandError::UnknownOption))
    );
    assert_eq!(
        calculate_expire_time_at("NX", 10, Some(0)),
        Err(Error::Command(CommandError::UnknownOption))
    );
    assert_eq!(
        calculate_expire_time("", 10),
        Err(Error::Command(CommandError::UnknownOption))
    );
}

#[test]
fn relative_expiry_needs_the_clock() {
    assert_eq!(
        calculate_expire_time_at("EX", 10, None),
        Err(Error::Execution(ExecutionError::ClockBeforeEpoch))
    );
    assert_eq!(
        calculate_expire_time_at("PX", 10, None),
        Err(Error::Execution(ExecutionError::ClockBeforeEpoch))
    );
    assert_eq!(
        interpret_at(&request(&["SET", "k", "v", "PX", "1"]), None),
        Err(Error::Execution(ExecutionError::ClockBeforeEpoch))
    );
}

#[test]
fn relative_expiry_beyond_the_range_fails() {
    assert_eq!(
        calculate_expire_time_at("PX", 1, Some(u128::MAX)),
        Err(Error::Execution(ExecutionError::ExpireTimeOverflow))
    );
    assert_eq!(
        calculate_expire_time_at("EX", 1, Some(u128::MAX - 999)),
        Err(Error::Execution(ExecutionError::ExpireTimeOverflow))
    );
    assert_eq!(
        calculate_expire_time_at("EX", 1, Some(u128::MAX - 1000)),
        Ok(u128::MAX)
    );
}

#[test]
fn relative_expiry_counts_from_the_system_clock() {
    let before = resp_kv::clock::unix_millis().unwrap();
    let expire_time = calculate_expire_time("EX", 100).unwrap();
    let after = resp_kv::clock::unix_millis().unwrap();
    assert!(before + 100_000 <= expire_time);
    assert!(expire_time <= after + 100_000);
}

#[test]
fn set_option_applies_options_in_order() {
    let mut command = set("k", "v");
    let options = [bulk("xx"), bulk("get"), bulk("EXAT"), bulk("3")];
    assert_eq!(command.set_option_at(&options, Some(9)), Ok(()));
    assert_eq!(
        command,
        SetCommand {
            nx_or_xx: Some(SetCondition::XX),
            get: true,
            expire_time: Some(3_000),
            ..set("k", "v")
        }
    );
    let mut command = set("k", "v");
    assert_eq!(command.set_option(&[bulk("PXAT"), bulk("12")]), Ok(()));
    assert_eq!(command.expire_time, Some(12));
    let mut command = set("k", "v");
    assert_eq!(command.set_option(&[]), Ok(()));
    assert_eq!(command, set("k", "v"));
}

#[test]
fn set_option_stops_at_the_first_failure() {
    let mut command = set("k", "v");
    let options = [bulk("NX"), bulk("BOGUS"), bulk("GET")];
    assert_eq!(
        command.set_option_at(&options, Some(9)),
        Err(Error::Command(CommandError::UnknownOption))
    );
    assert_eq!(
        command,
        SetCommand {
            nx_or_xx: Some(SetCondition::NX),
            ..set("k", "v")
        }
    );
}

#[test]
fn apply_option_says_whether_it_took_the_argument() {
    let mut command = set("k", "v");
    let next = bulk("5");
    assert_eq!(command.apply_option("GET", Some(&next), Some(1)), Ok(false));
    assert!(command.get);
    assert_eq!(command.apply_option("PX", Some(&next), Some(1)), Ok(true));
    assert_eq!(command.expire_time, Some(6));
    assert_eq!(
        command.apply_option("px", Some(&next), Some(1)),
        Err(Error::Command(CommandError::UnknownOption))
    );
    assert_eq!(command.expire_time, Some(6));
}

#[test]
fn interpret_rejects_what_is_not_an_array() {
    assert_eq!(
        interpret_at(&bulk("PING"), Some(0)),
        Err(Error::Command(CommandError::NotAnArray))
    );
    assert_eq!(
        interpret(&RespValue::NullBulkString),
        Err(Error::Command(CommandError::NotAnArray))
    );
}

#[test]
fn interpret_rejects_array_without_command_name() {
    assert_eq!(
        interpret(&RespValue::Array(vec![])),
        Err(Error::Command(CommandError::MissingCommandName))
    );
    assert_eq!(
        interpret(&RespValue::Array(vec![RespValue::NullBulkString])),
        Err(Error::Command(CommandError::MissingCommandName))
    );
    assert_eq!(
        interpret(&RespValue::Array(vec![request(&["PING"])])),
        Err(Error::Command(CommandError::MissingCommandName))
    );
}

#[test]
fn interpret_rejects_unknown_command() {
    assert_eq!(
        command_error(&["DEL", "k"]),
        Error::Command(CommandError::UnknownCommand)
    );
    assert_eq!(
        command_error(&[""]),
        Error::Command(CommandError::UnknownCommand)
    );
    assert_eq!(
        command_error(&["PINGS"]),
        Error::Command(CommandError::UnknownCommand)
    );
}

#[test]
fn interpret_rejects_missing_arguments() {
    assert_eq!(
        command_error(&["ECHO"]),
        Error::Command(CommandError::MissingArgument)
    );
    assert_eq!(
        command_error(&["GET"]),
        Error::Command(CommandError::MissingArgument)
    );
    assert_eq!(
        command_error(&["SET"]),
        Error::Command(CommandError::MissingArgument)
    );
    assert_eq!(
        command_error(&["SET", "k"]),
        Error::Command(CommandError::MissingArgument)
    );
}

#[test]
fn interpret_rejects_too_many_arguments() {
    assert_eq!(
        command_error(&["ECHO", "a", "b"]),
        Error::Command(CommandError::TooManyArguments)
    );
    assert_eq!(
        command_error(&["GET", "a", "b"]),
        Error::Command(CommandError::TooManyArguments)
    );
    assert_eq!(
        command_error(&["PING", "a", "b"]),
        Error::Command(CommandError::TooManyArguments)
    );
}

#[test]
fn interpret_rejects_arguments_that_are_no_bulk_strings() {
    let null = RespValue::NullBulkString;
    let with = |words: Vec<RespValue>| interpret_at(&RespValue::Array(words), Some(0));
    let invalid = Err(Error::Command(CommandError::InvalidArgument));
    assert_eq!(with(vec![bulk("ECHO"), null.clone()]), invalid);
    assert_eq!(with(vec![bulk("PING"), null.clone()]), invalid);
    assert_eq!(with(vec![bulk("GET"), request(&["k"])]), invalid);
    assert_eq!(with(vec![bulk("SET"), null.clone(), bulk("v")]), invalid);
    assert_eq!(with(vec![bulk("SET"), bulk("k"), null.clone()]), invalid);
    assert_eq!(
        with(vec![bulk("SET"), bulk("k"), bulk("v"), null.clone()]),
        invalid
    );
    assert_eq!(
        with(vec![bulk("SET"), bulk("k"), bulk("v"), bulk("EX"), null.clone()]),
        invalid
    );
}

#[test]
fn interpret_counts_arguments_before_it_looks_at_them() {
    let null = RespValue::NullBulkString;
    assert_eq!(
        interpret_at(
            &RespValue::Array(vec![bulk("ECHO"), null.clone(), null.clone()]),
            Some(0)
        ),
        Err(Error::Command(CommandError::TooManyArguments))
    );
    assert_eq!(
        interpret_at(&RespValue::Array(vec![bulk("SET"), null.clone()]), Some(0)),
        Err(Error::Command(CommandError::MissingArgument))
    );
}

#[test]
fn interpret_rejects_unknown_set_option() {
    assert_eq!(
        command_error(&["SET", "k", "v", "KEEPTTL"]),
        Error::Command(CommandError::UnknownOption)
    );
    assert_eq!(
        command_error(&["SET", "k", "v", ""]),
        Error::Command(CommandError::UnknownOption)
    );
}

#[test]
fn interpret_rejects_expiry_option_without_time() {
    for option in ["EX", "PX", "EXAT", "PXAT"] {
        assert_eq!(
            command_error(&["SET", "k", "v", option]),
            Error::Command(CommandError::MissingExpireTime)
        );
    }
}

#[test]
fn interpret_rejects_expire_time_that_is_no_unsigned_number() {
    for amount in ["", "-1", "abc", "1.5", " 1", "18446744073709551616"] {
        assert_eq!(
            command_error(&["SET", "k", "v", "EX", amount]),
            Error::Command(CommandError::InvalidExpireTime)
        );
    }
    assert_eq!(
        interpret_at(
            &request(&["SET", "k", "v", "PXAT", "18446744073709551615"]),
            None
        )
        .unwrap(),
        Command::SetCommand(SetCommand {
            expire_time: Some(u64::MAX as u128),
            ..set("k", "v")
        })
    );
}

#[test]
fn expiry_option_takes_the_next_argument_whatever_it_says() {
    let command = interpret_at(&request(&["SET", "k", "v", "EXAT", "2", "GET"]), None).unwrap();
    assert_eq!(
        command,
        Command::SetCommand(SetCommand {
            get: true,
            expire_time: Some(2_000),
            ..set("k", "v")
        })
    );
    assert_eq!(
        command_error(&["SET", "k", "v", "EX", "NX"]),
        Error::Command(CommandError::InvalidExpireTime)
    );
}

#[test]
fn ping_replies_pong_or_its_message() {
    let mut db = Database::new();
    assert_eq!(
        run(&Command::Ping(Ping { message: None }), &mut db, None),
        b"+PONG\r\n".to_vec()
    );
    assert_eq!(
        run(
            &Command::Ping(Ping {
                message: Some("hello".to_owned())
            }),
            &mut db,
            None
        ),
        b"+hello\r\n".to_vec()
    );
}

#[test]
fn echo_replies_its_message() {
    let mut db = Database::new();
    let echo = Echo {
        message: "gr\u{fc}\u{df}e".to_owned(),
    };
    assert_eq!(
        echo.execute(ExecutionContext {
            db: &mut db,
            now: None
        })
        .unwrap(),
        "+gr\u{fc}\u{df}e\r\n".as_bytes().to_vec()
    );
    assert_eq!(
        run(
            &Command::Echo(Echo {
                message: "".to_owned()
            }),
            &mut db,
            None
        ),
        b"+\r\n".to_vec()
    );
}

#[test]
fn get_on_absent_key_replies_null() {
    let mut db = Database::new();
    let get = Command::Get(Get {
        key: "k".to_owned(),
    });
    assert_eq!(run(&get, &mut db, Some(1)), b"$-1\r\n".to_vec());
}

#[test]
fn set_then_get_replies_the_value() {
    let mut db = Database::new();
    let get = Command::Get(Get {
        key: "k".to_owned(),
    });
    assert_eq!(
        run(&Command::SetCommand(set("k", "v")), &mut db, Some(1)),
        b"+OK\r\n".to_vec()
    );
    assert_eq!(run(&get, &mut db, Some(2)), b"+v\r\n".to_vec());
    assert_eq!(run(&get, &mut db, None), b"+v\r\n".to_vec());
}

#[test]
fn expired_entry_is_not_seen_and_leaves_the_store() {
    let mut db = Database::new();
    let get = Command::Get(Get {
        key: "k".to_owned(),
    });
    let with_expiry = Command::SetCommand(SetCommand {
        expire_time: Some(100),
        ..set("k", "v")
    });
    assert_eq!(run(&with_expiry, &mut db, Some(100)), b"+OK\r\n".to_vec());
    assert_eq!(run(&get, &mut db, Some(100)), b"+v\r\n".to_vec());
    assert_eq!(run(&get, &mut db, Some(101)), b"$-1\r\n".to_vec());
    // Gone for good: not even a look from before the expiry finds it.
    assert_eq!(run(&get, &mut db, Some(0)), b"$-1\r\n".to_vec());
}

#[test]
fn nx_does_not_overwrite() {
    let mut db = Database::new();
    let first = Command::SetCommand(SetCommand {
        nx_or_xx: Some(SetCondition::NX),
        ..set("k", "v1")
    });
    let second = Command::SetCommand(SetCommand {
        nx_or_xx: Some(SetCondition::NX),
        ..set("k", "v2")
    });
    assert_eq!(run(&first, &mut db, Some(1)), b"+OK\r\n".to_vec());
    assert_eq!(run(&second, &mut db, Some(2)), b"+OK\r\n".to_vec());
    assert_eq!(db.get_at("k", Some(3)).unwrap().value, "v1");
}

#[test]
fn nx_writes_over_an_expired_entry() {
    let mut db = Database::new();
    db.set_at(
        "k",
        &Data {
            value: "old".to_owned(),
            expire_time: Some(10),
        },
        Some(0),
    );
    let nx = Command::SetCommand(SetCommand {
        nx_or_xx: Some(SetCondition::NX),
        ..set("k", "new")
    });
    assert_eq!(run(&nx, &mut db, Some(11)), b"+OK\r\n".to_vec());
    let found = db.get_at("k", Some(12)).unwrap();
    assert_eq!(found.value, "new");
    assert_eq!(found.expire_time, None);
}

#[test]
fn xx_on_absent_key_creates_nothing() {
    let mut db = Database::new();
    let xx = Command::SetCommand(SetCommand {
        nx_or_xx: Some(SetCondition::XX),
        ..set("k", "v")
    });
    let get = Command::Get(Get {
        key: "k".to_owned(),
    });
    assert_eq!(run(&xx, &mut db, Some(1)), b"+OK\r\n".to_vec());
    assert_eq!(run(&get, &mut db, Some(2)), b"$-1\r\n".to_vec());
    assert!(db.get_at("k", Some(0)).is_none());
}

#[test]
fn xx_overwrites_a_visible_entry() {
    let mut db = Database::new();
    run(&Command::SetCommand(set("k", "v1")), &mut db, Some(1));
    let xx = Command::SetCommand(SetCommand {
        nx_or_xx: Some(SetCondition::XX),
        expire_time: Some(50),
        ..set("k", "v2")
    });
    assert_eq!(run(&xx, &mut db, Some(2)), b"+OK\r\n".to_vec());
    let found = db.get_at("k", Some(3)).unwrap();
    assert_eq!(found.value, "v2");
    assert_eq!(found.expire_time, Some(50));
}

#[test]
fn xx_on_expired_entry_removes_it_and_writes_nothing() {
    let mut db = Database::new();
    db.set_at(
        "k",
        &Data {
            value: "old".to_owned(),
            expire_time: Some(10),
        },
        Some(0),
    );
    let xx = Command::SetCommand(SetCommand {
        nx_or_xx: Some(SetCondition::XX),
        ..set("k", "new")
    });
    assert_eq!(run(&xx, &mut db, Some(11)), b"+OK\r\n".to_vec());
    assert!(db.get_at("k", Some(0)).is_none());
}

#[test]
fn set_with_get_replies_the_previous_value() {
    let mut db = Database::new();
    run(&Command::SetCommand(set("k", "v1")), &mut db, Some(1));
    let swap = Command::SetCommand(SetCommand {
        get: true,
        ..set("k", "v2")
    });
    assert_eq!(run(&swap, &mut db, Some(2)), b"+v1\r\n".to_vec());
    assert_eq!(db.get_at("k", Some(3)).unwrap().value, "v2");
}

#[test]
fn set_with_get_on_absent_key_replies_null_and_writes() {
    let mut db = Database::new();
    let swap = Command::SetCommand(SetCommand {
        get: true,
        ..set("k", "v")
    });
    assert_eq!(run(&swap, &mut db, Some(1)), b"$-1\r\n".to_vec());
    assert_eq!(db.get_at("k", Some(2)).unwrap().value, "v");
}

#[test]
fn set_with_get_replies_previous_value_also_where_the_write_is_blocked() {
    let mut db = Database::new();
    run(&Command::SetCommand(set("k", "v1")), &mut db, Some(1));
    let blocked = Command::SetCommand(SetCommand {
        nx_or_xx: Some(SetCondition::NX),
        get: true,
        ..set("k", "v2")
    });
    assert_eq!(run(&blocked, &mut db, Some(2)), b"+v1\r\n".to_vec());
    assert_eq!(db.get_at("k", Some(3)).unwrap().value, "v1");
    let blocked = Command::SetCommand(SetCommand {
        nx_or_xx: Some(SetCondition::XX),
        get: true,
        ..set("other", "v")
    });
    assert_eq!(run(&blocked, &mut db, Some(2)), b"$-1\r\n".to_vec());
    assert!(db.get_at("other", Some(3)).is_none());
}

#[test]
fn set_leaves_other_keys_alone() {
    let mut db = Database::new();
    run(&Command::SetCommand(set("a", "1")), &mut db, Some(1));
    run(&Command::SetCommand(set("b", "2")), &mut db, Some(1));
    run(&Command::SetCommand(set("a", "3")), &mut db, Some(1));
    assert_eq!(db.get_at("a", Some(2)).unwrap().value, "3");
    assert_eq!(db.get_at("b", Some(2)).unwrap().value, "2");
}

#[test]
fn command_clone_is_equal() {
    let commands = vec![
        Command::Ping(Ping {
            message: Some("a".to_owned()),
        }),
        Command::Echo(Echo {
            message: "b".to_owned(),
        }),
        Command::Get(Get {
            key: "c".to_owned(),
        }),
        Command::SetCommand(SetCommand {
            nx_or_xx: Some(SetCondition::XX),
            get: true,
            expire_time: Some(4),
            ..set("d", "e")
        }),
    ];
    for command in &commands {
        assert_eq!(&command.clone(), command);
    }
}
