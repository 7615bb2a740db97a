use git_toolkit::credentials::context::Context;
use git_toolkit::credentials::context::Field;
use git_toolkit::credentials::context::IllegalValue;
use git_toolkit::credentials::context::MissingSeparator;
use git_toolkit::credentials::helper;
use git_toolkit::credentials::helper::Account;
use git_toolkit::credentials::helper::Action;
use git_toolkit::credentials::helper::Error;
use git_toolkit::credentials::helper::Exchange;
use git_toolkit::credentials::helper::Outcome;
use git_toolkit::credentials::program::HelperKind;
use git_toolkit::credentials::program::ProcessSpec;
use git_toolkit::credentials::program::Program;
use git_toolkit::credentials::program::Verb;

fn script_path(name: &str) -> Vec<u8> {
    format!("/fixtures/{}.sh", name).into_bytes()
}

fn script_helper(name: &str) -> Program {
    Program::from_kind(HelperKind::ExternalShellScript(script_path(name)))
}

/// What the helper scripts of the fixtures write, by name and verb.
fn mock_output(name: &str, verb: Verb) -> Vec<u8> {
    match (name, verb) {
        ("last-pass", Verb::Get) => b"username=user\npassword=pass\nquit=1\n".to_vec(),
        ("custom-helper", Verb::Get) => b"username=user-script\npassword=pass-script\n".to_vec(),
        _ => Vec::new(),
    }
}

fn exited(code: i32, output: &[u8]) -> Exchange {
    Exchange::Exited { code: Some(code), output: output.to_vec() }
}

/// Both halves of an exchange, with the helper's part played by `exchange`.
fn invoke(program: &Program, action: &Action, exchange: Exchange) -> Result<Option<Outcome>, Error> {
    helper::prepare(program, action)?;
    helper::conclude(action, &exchange)
}

fn account(username: &str, password: &str) -> Account {
    Account { username: username.into(), password: password.into() }
}

#[test]
fn get() {
    let action = Action::get_for_url("https://github.com/byron/gitoxide".into());
    let mut outcome = invoke(
        &script_helper("last-pass"),
        &action,
        exited(0, &mock_output("last-pass", action.verb())),
    )
    .unwrap()
    .expect("mock provides credentials");
    assert_eq!(outcome.consume_identity().expect("complete"), account("user", "pass"));
    assert_eq!(
        outcome.next.store().payload().unwrap(),
        b"username=user\npassword=pass\nquit=1\n"
    );
}

#[test]
fn store_and_reject() {
    let ctx = Context {
        url: Some("https://github.com/byron/gitoxide".into()),
        ..Default::default()
    };
    let ctxbuf = || -> Context {
        let mut buf = Vec::<u8>::new();
        ctx.write_to(&mut buf).expect("cannot fail");
        Context::from_bytes(&buf).expect("cannot fail")
    };
    for action in [Action::Store(ctxbuf()), Action::Erase(ctxbuf())] {
        for code in [0, 1, 128] {
            let outcome = invoke(
                &script_helper("last-pass"),
                &action,
                exited(code, &mock_output("last-pass", action.verb())),
            )
            .unwrap();
            assert!(
                outcome.is_none(),
                "store and erase have no outcome, they just shouln't fail"
            );
        }
    }
}

#[test]
fn builtin() {
    let program = Program::from_kind(HelperKind::Builtin).suppress_stderr();
    let action = Action::get_for_url("/path/without/scheme/fails/with/error".into());
    assert!(
        matches!(
            invoke(&program, &action, exited(128, b"")).unwrap_err(),
            Error::CredentialsHelperFailed { .. }
        ),
        "this failure indicates we could launch the helper, even though it wasn't happy which is fine. It doesn't like the URL"
    );
    assert_eq!(
        program.resolve(Verb::Get),
        ProcessSpec {
            executable: b"git".to_vec(),
            args: vec![b"credential".to_vec(), b"get".to_vec()],
            discard_stderr: true,
        }
    );
}

#[test]
fn script() {
    let program = Program::from_custom_definition(
        "!f() { test \"$1\" = get && echo \"password=pass\" && echo \"username=user\"; }; f".into(),
    );
    let action = Action::get_for_url("/does/not/matter".into());
    assert_eq!(
        program.resolve(action.verb()),
        ProcessSpec {
            executable: b"sh".to_vec(),
            args: vec![
                b"-c".to_vec(),
                b"f() { test \"$1\" = get && echo \"password=pass\" && echo \"username=user\"; }; f \"$@\""
                    .to_vec(),
                b"--".to_vec(),
                b"get".to_vec(),
            ],
            discard_stderr: false,
        }
    );
    assert_eq!(
        invoke(&program, &action, exited(0, b"password=pass\nusername=user\n"))
            .unwrap()
            .expect("present")
            .consume_identity()
            .expect("complete"),
        account("user", "pass")
    );
}

#[test]
fn path_to_helper_script() {
    let program = Program::from_custom_definition(script_path("custom-helper"));
    let action = Action::get_for_url("/does/not/matter".into());
    assert_eq!(
        program.resolve(action.verb()),
        ProcessSpec {
            executable: b"/fixtures/custom-helper.sh".to_vec(),
            args: vec![b"get".to_vec()],
            discard_stderr: false,
        }
    );
    assert_eq!(
        invoke(&program, &action, exited(0, &mock_output("custom-helper", action.verb())))
            .unwrap()
            .expect("present")
            .consume_identity()
            .expect("complete"),
        account("user-script", "pass-script")
    );
}

#[test]
fn path_to_helper_as_script_to_workaround_executable_bits() {
    let program = script_helper("custom-helper");
    let action = Action::get_for_url("/does/not/matter".into());
    assert_eq!(
        program.resolve(action.verb()),
        ProcessSpec {
            executable: b"sh".to_vec(),
            args: vec![b"/fixtures/custom-helper.sh".to_vec(), b"get".to_vec()],
            discard_stderr: false,
        }
    );
    assert_eq!(
        invoke(&program, &action, exited(0, &mock_output("custom-helper", action.verb())))
            .unwrap()
            .expect("present")
            .consume_identity()
            .expect("complete"),
        account("user-script", "pass-script")
    );
}

#[test]
fn named_helper_is_a_git_subcommand() {
    let program = Program::from_custom_definition("cache".into());
    for (verb, word) in [(Verb::Get, "get"), (Verb::Store, "store"), (Verb::Erase, "erase")] {
        assert_eq!(
            program.resolve(verb),
            ProcessSpec {
                executable: b"git".to_vec(),
                args: vec![b"credential-cache".to_vec(), word.as_bytes().to_vec()],
                discard_stderr: false,
            }
        );
    }
    assert_eq!(Verb::Store.as_arg(), b"store");
    assert!(Verb::Get.strict());
    assert!(!Verb::Store.strict());
    assert!(!Verb::Erase.strict());
}

#[test]
fn empty_definition_is_an_empty_name() {
    assert_eq!(
        Program::from_custom_definition(Vec::new()).resolve(Verb::Erase),
        ProcessSpec {
            executable: b"git".to_vec(),
            args: vec![b"credential-".to_vec(), b"erase".to_vec()],
            discard_stderr: false,
        }
    );
}

#[test]
fn spawn_failure_is_fatal_for_every_verb() {
    let context = Context::default();
    for action in [
        Action::Get(context.clone()),
        Action::Store(context.clone()),
        Action::Erase(context.clone()),
    ] {
        assert_eq!(
            invoke(&script_helper("missing"), &action, Exchange::NotLaunched),
            Err(Error::SpawnFailed)
        );
    }
}

#[test]
fn get_distinguishes_failure_from_no_credentials() {
    let action = Action::get_for_url("https://example.com".into());
    assert_eq!(helper::conclude(&action, &exited(0, b"")), Ok(None));
    assert_eq!(
        helper::conclude(&action, &exited(1, b"username=user\npassword=pass\n")),
        Err(Error::CredentialsHelperFailed { code: Some(1) })
    );
    assert_eq!(
        helper::conclude(&action, &Exchange::Exited { code: None, output: Vec::new() }),
        Err(Error::CredentialsHelperFailed { code: None })
    );
    assert_eq!(
        helper::conclude(&action, &exited(0, b"username=user\nno separator\n")),
        Err(Error::ProtocolViolation)
    );
    assert!(action.expects_output());
    assert_eq!(action.context().url.as_deref(), Some(&b"https://example.com"[..]));
}

#[test]
fn storing_twice_ends_the_same_way() {
    let action = Action::Store(Context {
        username: Some("user".into()),
        password: Some("pass".into()),
        ..Default::default()
    });
    let program = script_helper("last-pass");
    let first = helper::prepare(&program, &action).unwrap();
    let second = helper::prepare(&program, &action).unwrap();
    assert_eq!(first, second);
    assert_eq!(first.input, b"username=user\npassword=pass\n");
    assert_eq!(helper::conclude(&action, &exited(0, b"")), Ok(None));
    assert_eq!(helper::conclude(&action, &exited(1, b"already stored\n")), Ok(None));
    assert!(!action.expects_output());
}

#[test]
fn unsendable_context_is_refused_before_anything_is_written() {
    let context = Context {
        url: Some("https://example.com".into()),
        username: Some("us\ner".into()),
        password: Some("pa\0ss".into()),
        ..Default::default()
    };
    let mut out = b"kept".to_vec();
    assert_eq!(context.write_to(&mut out), Err(IllegalValue { field: Field::Username }));
    assert_eq!(out, b"kept");
    assert_eq!(context.first_illegal(), Some(Field::Username));
    assert_eq!(context.to_bytes(), Err(IllegalValue { field: Field::Username }));
    let action = Action::Store(context);
    assert_eq!(action.payload(), Err(Error::IllegalValue { field: Field::Username }));
    assert_eq!(
        helper::prepare(&script_helper("last-pass"), &action),
        Err(Error::IllegalValue { field: Field::Username })
    );
    let nul = Context { password: Some("pa\0ss".into()), ..Default::default() };
    assert_eq!(nul.first_illegal(), Some(Field::Password));
}

#[test]
fn fields_are_written_in_a_fixed_order() {
    let context = Context {
        url: Some("https://example.com/repo".into()),
        protocol: Some("https".into()),
        host: Some("example.com".into()),
        path: Some("repo".into()),
        username: Some("user".into()),
        password: Some("a=b".into()),
        quit: true,
    };
    let mut out = b"get\n".to_vec();
    assert_eq!(context.write_to(&mut out), Ok(()));
    assert_eq!(
        out,
        b"get\nurl=https://example.com/repo\nprotocol=https\nhost=example.com\npath=repo\nusername=user\npassword=a=b\nquit=1\n"
    );
    assert_eq!(Context::default().to_bytes(), Ok(Vec::new()));
    assert_eq!(context.duplicate(), context);
}

#[test]
fn written_context_is_read_back() {
    let contexts = [
        Context::default(),
        Context { quit: true, ..Default::default() },
        Context { url: Some(Vec::new()), ..Default::default() },
        Context {
            url: Some("https://example.com/repo?a=b".into()),
            protocol: Some("https".into()),
            host: Some("example.com:8080".into()),
            path: Some("repo".into()),
            username: Some("user name".into()),
            password: Some("=pass=\r".into()),
            quit: true,
        },
        Context { host: Some("h".into()), password: Some(vec![0xff, 0xfe]), ..Default::default() },
    ];
    for context in contexts {
        let bytes = context.to_bytes().unwrap();
        assert_eq!(Context::from_bytes(&bytes), Ok(context));
    }
}

#[test]
fn reading_stops_at_an_empty_line_or_the_end() {
    let expected = Context {
        username: Some("user".into()),
        password: Some("pass".into()),
        ..Default::default()
    };
    assert_eq!(Context::from_bytes(b"username=user\npassword=pass"), Ok(expected.clone()));
    assert_eq!(Context::from_bytes(b"username=user\npassword=pass\n"), Ok(expected.clone()));
    assert_eq!(
        Context::from_bytes(b"username=user\npassword=pass\n\nquit=1\nnot a line"),
        Ok(expected.clone())
    );
    assert_eq!(Context::from_bytes(b""), Ok(Context::default()));
    assert_eq!(Context::from_bytes(b"\nusername=user\n"), Ok(Context::default()));
}

#[test]
fn reading_ignores_unknown_keys_and_keeps_the_last_value() {
    assert_eq!(
        Context::from_bytes(b"capability=authtype\nusername=first\nusername=second\nquit=true\n"),
        Ok(Context { username: Some("second".into()), quit: true, ..Default::default() })
    );
    assert_eq!(
        Context::from_bytes(b"quit=1\nquit=0\n=value\nhost=\n"),
        Ok(Context { host: Some(Vec::new()), ..Default::default() })
    );
    let mut context = Context::default();
    context.set_field(b"path", b"a/b".to_vec());
    context.set_field(b"Path", b"ignored".to_vec());
    assert_eq!(context, Context { path: Some("a/b".into()), ..Default::default() });
}

#[test]
fn reading_fails_on_a_line_without_separator() {
    assert_eq!(Context::from_bytes(b"username"), Err(MissingSeparator));
    assert_eq!(Context::from_bytes(b"username=user\npassword\n"), Err(MissingSeparator));
    assert_eq!(Context::from_bytes(b" \n"), Err(MissingSeparator));
}

#[test]
fn incomplete_identity_is_refused_and_nothing_is_taken() {
    let action = Action::get_for_url("https://example.com".into());
    let mut outcome =
        helper::conclude(&action, &exited(0, b"username=user\n")).unwrap().expect("present");
    let before = outcome.clone();
    assert_eq!(outcome.consume_identity(), Err(Error::IncompleteIdentity));
    assert_eq!(outcome, before);
    let mut outcome =
        helper::conclude(&action, &exited(0, b"password=pass\n")).unwrap().expect("present");
    assert_eq!(outcome.consume_identity(), Err(Error::IncompleteIdentity));
}

#[test]
fn identity_is_taken_once_and_follow_ups_keep_the_answer() {
    let action = Action::get_for_url("https://example.com".into());
    let mut outcome = helper::conclude(&action, &exited(0, b"host=example.com\nusername=user\npassword=pass\n"))
        .unwrap()
        .expect("present");
    assert_eq!(outcome.consume_identity(), Ok(account("user", "pass")));
    assert_eq!(outcome.context, Context { host: Some("example.com".into()), ..Default::default() });
    assert_eq!(outcome.consume_identity(), Err(Error::IncompleteIdentity));
    let answer = Context {
        host: Some("example.com".into()),
        username: Some("user".into()),
        password: Some("pass".into()),
        ..Default::default()
    };
    assert_eq!(outcome.next.store(), Action::Store(answer.clone()));
    assert_eq!(outcome.next.erase(), Action::Erase(answer));
    assert_eq!(
        outcome.next.erase().payload().unwrap(),
        b"host=example.com\nusername=user\npassword=pass\n"
    );
}
