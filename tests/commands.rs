use codecrafters_shell::{
    classify, dispatch, get_binaries_from_paths, get_command_info, Builtin, CdCommand, CdTarget,
    Classification, Command, EchoCommand, ExecutableIndex, ExitCommand, FileEntry,
    InvalidCommand, ParsedCommand, Parser, SearchDir, Shell, TypeCommand,
};

fn index() -> ExecutableIndex {
    get_binaries_from_paths(vec![
        SearchDir::Listed(vec![
            FileEntry {
                file_name: "tool".to_string(),
                full_path: "/d1/tool".to_string(),
                is_file: true,
            },
            FileEntry {
                file_name: "echo".to_string(),
                full_path: "/d1/echo".to_string(),
                is_file: true,
            },
        ]),
        SearchDir::Listed(vec![FileEntry {
            file_name: "tool".to_string(),
            full_path: "/d2/tool".to_string(),
            is_file: true,
        }]),
    ])
}

fn parsed(line: &str) -> ParsedCommand {
    Parser::default().parse_input(line)
}

#[test]
fn builtins_come_before_the_index() {
    assert!(matches!(classify("echo", &index()), Classification::Builtin(Builtin::Echo)));
    assert!(matches!(classify("exit", &index()), Classification::Builtin(Builtin::Exit)));
    assert!(matches!(classify("type", &index()), Classification::Builtin(Builtin::Type)));
    assert!(matches!(classify("pwd", &index()), Classification::Builtin(Builtin::Pwd)));
    assert!(matches!(classify("cd", &index()), Classification::Builtin(Builtin::Cd)));
}

#[test]
fn indexed_names_are_external() {
    match classify("tool", &index()) {
        Classification::External(path) => assert_eq!(path, "/d1/tool"),
        _ => panic!("tool should be external"),
    }
    assert!(matches!(classify("nope", &index()), Classification::NotFound));
    assert!(matches!(classify("", &index()), Classification::NotFound));
}

#[test]
fn exit_status_follows_the_argument() {
    assert_eq!(ExitCommand::new(parsed("exit 0")).status(), 0);
    assert_eq!(ExitCommand::new(parsed("exit 1")).status(), 64);
    assert_eq!(ExitCommand::new(parsed("exit")).status(), 64);
}

#[test]
fn echo_joins_arguments_with_spaces() {
    assert_eq!(EchoCommand::new(parsed("echo a   'b  c' d")).text(), "a b  c d");
    assert_eq!(EchoCommand::new(parsed("echo")).text(), "");
}

#[test]
fn invalid_command_report() {
    assert_eq!(
        InvalidCommand::new(parsed("nope x")).message(),
        Some("nope: command not found".to_string())
    );
    assert_eq!(InvalidCommand::new(parsed("  ")).message(), None);
}

#[test]
fn type_reports_each_kind() {
    assert_eq!(TypeCommand::new(parsed("type echo"), index()).report(), "echo is a shell builtin");
    assert_eq!(TypeCommand::new(parsed("type tool"), index()).report(), "tool is /d1/tool");
    assert_eq!(TypeCommand::new(parsed("type nope"), index()).report(), "nope: not found");
    assert_eq!(TypeCommand::new(parsed("type"), index()).report(), "Wrong usage");
}

#[test]
fn cd_targets() {
    assert!(matches!(CdCommand::new(parsed("cd ~")).target(), CdTarget::Home));
    assert!(matches!(CdCommand::new(parsed("cd")).target(), CdTarget::Stay));
    match CdCommand::new(parsed("cd /tmp")).target() {
        CdTarget::Dir(d) => assert_eq!(d, "/tmp"),
        _ => panic!("cd /tmp should name a directory"),
    }
}

#[test]
fn command_info_of_indexed_name() {
    let info = get_command_info(&index(), "tool");
    assert_eq!(info.bin, "tool");
    assert_eq!(info.path, "/d1/tool");
}

#[test]
fn dispatch_binds_each_kind() {
    assert!(matches!(dispatch(parsed("exit 0"), &index()), Command::Exit(_)));
    assert!(matches!(dispatch(parsed("echo hi"), &index()), Command::Echo(_)));
    assert!(matches!(dispatch(parsed("type ls"), &index()), Command::Type(_)));
    assert!(matches!(dispatch(parsed("pwd"), &index()), Command::Pwd(_)));
    assert!(matches!(dispatch(parsed("cd /"), &index()), Command::Cd(_)));
    assert!(matches!(dispatch(parsed("nope"), &index()), Command::Invalid(_)));
    match dispatch(parsed("tool -x > out.txt"), &index()) {
        Command::Run(run) => {
            assert_eq!(run.command.bin, "tool");
            assert_eq!(run.command.path, "/d1/tool");
            assert_eq!(run.options.args, Some(vec!["-x".to_string()]));
            assert_eq!(run.options.output, Some("out.txt".to_string()));
        }
        _ => panic!("tool should run"),
    }
}

#[test]
fn shell_parses_and_dispatches() {
    let shell = Shell::init(index());
    assert!(matches!(shell.parse("'echo' hi".to_string()), Command::Echo(_)));
    assert!(matches!(shell.parse("".to_string()), Command::Invalid(_)));
    match shell.parse("tool a".to_string()) {
        Command::Run(run) => assert_eq!(run.command.path, "/d1/tool"),
        _ => panic!("tool should run"),
    }
}
