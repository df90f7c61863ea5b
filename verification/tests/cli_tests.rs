use tailcall::cli::{
    check_display, check_next, check_outcome, display_config, display_schema, file_name_of, graphqlrc_contents, init_start,
    init_step, join_path, CheckAction, DisplayItem, InitAction, InitEvent, InitMachine, InitPhase,
};

fn s(x: &str) -> String {
    x.to_string()
}

#[test]
fn file_name_adds_the_suffix_once() {
    assert_eq!(file_name_of("schema"), "schema.graphql");
    assert_eq!(file_name_of("schema.graphql"), "schema.graphql");
    assert_eq!(file_name_of(".graphql"), ".graphql");
    assert_eq!(file_name_of(""), ".graphql");
    assert_eq!(file_name_of("a.graphql.graphql"), "a.graphql.graphql");
    assert_eq!(file_name_of("ünï"), "ünï.graphql");
}

#[test]
fn file_name_is_idempotent() {
    for a in ["x", "x.graphql", "", "graphql", "é.graphql"] {
        let once = file_name_of(a);
        assert_eq!(file_name_of(&once), once);
        assert!(once.ends_with(".graphql"));
    }
}

#[test]
fn graphqlrc_lists_the_files() {
    assert_eq!(
        graphqlrc_contents("api.graphql"),
        "schema:\n- './api.graphql'\n- './.tailcallrc.graphql'\n          "
    );
}

#[test]
fn join_path_puts_a_slash_between() {
    assert_eq!(join_path("dir", "f.graphql"), "dir/f.graphql");
}

fn confirm_message(a: &InitAction) -> String {
    match a {
        InitAction::Confirm { message, default } => {
            assert!(!default);
            message.clone()
        },
        _ => panic!("expected a question"),
    }
}

#[test]
fn init_full_dialog_writes_three_files() {
    let (m, a) = init_start(s("proj"));
    assert_eq!(confirm_message(&a), "Do you want to add a file to the project?");
    let (m, a) = init_step(m, InitEvent::Confirmed(true));
    match &a {
        InitAction::AskText { message, initial } => {
            assert_eq!(message, "Enter the file name:");
            assert_eq!(initial, ".graphql");
        },
        _ => panic!("expected a text question"),
    }
    let (m, a) = init_step(m, InitEvent::TextEntered(s("api")));
    assert_eq!(confirm_message(&a), "Do you want to create the file api.graphql?");
    let (m, a) = init_step(m, InitEvent::Confirmed(true));
    match &a {
        InitAction::WriteFile { path, contents } => {
            assert_eq!(path, "proj/api.graphql");
            assert_eq!(contents, "");
        },
        _ => panic!("expected a write"),
    }
    let (m, a) = init_step(m, InitEvent::Written);
    match &a {
        InitAction::WriteFile { path, contents } => {
            assert_eq!(path, "proj/.graphqlrc.yml");
            assert_eq!(contents, &graphqlrc_contents("api.graphql"));
        },
        _ => panic!("expected a write"),
    }
    let (m, a) = init_step(m, InitEvent::Written);
    match &a {
        InitAction::WriteTailcallrc { path } => assert_eq!(path, "proj/.tailcallrc.graphql"),
        _ => panic!("expected the tailcallrc"),
    }
    let (m, a) = init_step(m, InitEvent::Written);
    assert!(matches!(a, InitAction::Finish(Ok(()))));
    assert!(matches!(m.phase, InitPhase::Done));
    assert_eq!(m.file_path, "proj");
}

#[test]
fn init_declining_writes_only_the_tailcallrc() {
    let (m, _) = init_start(s("d"));
    let (m, a) = init_step(m, InitEvent::Confirmed(false));
    assert!(matches!(a, InitAction::WriteTailcallrc { .. }));
    let (_, a) = init_step(m, InitEvent::Written);
    assert!(matches!(a, InitAction::Finish(Ok(()))));
}

#[test]
fn init_declining_the_file_skips_it() {
    let m = InitMachine { file_path: s("d"), phase: InitPhase::AskCreate { file_name: s("x.graphql") } };
    let (m, a) = init_step(m, InitEvent::Confirmed(false));
    assert!(matches!(m.phase, InitPhase::WriteTailcallrc));
    match a {
        InitAction::WriteTailcallrc { path } => assert_eq!(path, "d/.tailcallrc.graphql"),
        _ => panic!("expected the tailcallrc"),
    }
}

#[test]
fn init_unreadable_name_falls_back_to_graphql() {
    let m = InitMachine { file_path: s("d"), phase: InitPhase::AskFileName };
    let (m, a) = init_step(m, InitEvent::TextFailed);
    assert_eq!(confirm_message(&a), "Do you want to create the file .graphql?");
    match m.phase {
        InitPhase::AskCreate { file_name } => assert_eq!(file_name, ".graphql"),
        _ => panic!("expected a question"),
    }
}

#[test]
fn init_failures_stop_the_dialog() {
    let (m, _) = init_start(s("d"));
    let (m, a) = init_step(m, InitEvent::PromptFailed(s("interrupted")));
    assert!(matches!(m.phase, InitPhase::Done));
    match a {
        InitAction::Finish(Err(e)) => assert_eq!(e, "interrupted"),
        _ => panic!("expected a failure"),
    }
    let m = InitMachine { file_path: s("d"), phase: InitPhase::WriteTailcallrc };
    let (_, a) = init_step(m, InitEvent::WriteFailed(s("denied")));
    match a {
        InitAction::Finish(Err(e)) => assert_eq!(e, "denied"),
        _ => panic!("expected a failure"),
    }
}

#[test]
fn display_schema_shows_heading_then_schema() {
    let items = display_schema(s("type Query"));
    assert_eq!(items.len(), 2);
    assert!(matches!(&items[0], DisplayItem::Heading(h) if h == "GraphQL Schema:\n"));
    assert!(matches!(&items[1], DisplayItem::Text(t) if t == "type Query"));
}

#[test]
fn display_config_shows_success_then_table() {
    let items = display_config((s("N + 1"), s("0")));
    assert!(matches!(&items[0], DisplayItem::Success(m) if m == "No errors found"));
    match &items[1] {
        DisplayItem::Table(rows) => assert_eq!(rows, &vec![(s("N + 1"), s("0"))]),
        _ => panic!("expected a table"),
    }
}

#[test]
fn check_validates_only_the_first_operation() {
    match check_next(Some(vec![s("a.graphql"), s("b.graphql")]), true) {
        CheckAction::ValidateOperation(p) => assert_eq!(p, "a.graphql"),
        _ => panic!("expected a validation"),
    }
    assert!(matches!(check_next(Some(vec![]), true), CheckAction::Display { schema: true }));
    assert!(matches!(check_next(None, false), CheckAction::Display { schema: false }));
}

#[test]
fn check_outcome_carries_server_errors() {
    assert!(check_outcome(Ok(())).is_ok());
    let e = check_outcome(Err(vec![s("e1"), s("e2")])).err().unwrap();
    assert_eq!(e.causes(), &vec![s("e1"), s("e2")]);
}

use tailcall::cli::{run_start, run_step, Command, LogLevel, RunAction, RunEvent, RunPhase};

#[test]
fn run_start_serves_at_info_by_default() {
    let (p, a) = run_start(Command::Start { file_paths: vec![s("c.graphql")], log_level: None });
    assert!(matches!(a, RunAction::InitLogger(LogLevel::Info)));
    let (p, a) = run_step(p, RunEvent::LoggerReady);
    match a {
        RunAction::LoadConfig(paths) => assert_eq!(paths, vec![s("c.graphql")]),
        _ => panic!("expected loading"),
    }
    let (p, a) = run_step(p, RunEvent::ConfigLoaded);
    assert!(matches!(a, RunAction::StartServer));
    let (p, a) = run_step(p, RunEvent::ServerStopped(Ok(())));
    assert!(matches!(a, RunAction::Finish(Ok(()))));
    assert!(matches!(p, RunPhase::Done));
    let (_, a) = run_start(Command::Start { file_paths: vec![], log_level: Some(LogLevel::Trace) });
    assert!(matches!(a, RunAction::InitLogger(LogLevel::Trace)));
}

#[test]
fn run_check_validates_first_operation_and_stops() {
    let cmd = Command::Check {
        file_paths: vec![s("c.graphql")],
        n_plus_one_queries: true,
        schema: true,
        operations: Some(vec![s("op1.graphql"), s("op2.graphql")]),
    };
    let (p, _) = run_start(cmd);
    let (p, a) = run_step(p, RunEvent::ConfigLoaded);
    assert!(matches!(a, RunAction::BuildBlueprint));
    let (p, a) = run_step(p, RunEvent::BlueprintBuilt);
    match a {
        RunAction::ValidateOperation(f) => assert_eq!(f, "op1.graphql"),
        _ => panic!("expected a validation"),
    }
    let (_, a) = run_step(p, RunEvent::Validated(Err(vec![s("bad field")])));
    match a {
        RunAction::Finish(Err(e)) => assert_eq!(e.causes(), &vec![s("bad field")]),
        _ => panic!("expected a failure"),
    }
}

#[test]
fn run_check_without_operations_shows_findings() {
    let cmd = Command::Check { file_paths: vec![], n_plus_one_queries: false, schema: true, operations: None };
    let (p, _) = run_start(cmd);
    let (p, _) = run_step(p, RunEvent::ConfigLoaded);
    let (p, a) = run_step(p, RunEvent::BlueprintBuilt);
    assert!(matches!(a, RunAction::Describe { n_plus_one_queries: false, schema: true }));
    let (p, a) = run_step(p, RunEvent::Described { n_plus_one_row: (s("N + 1"), s("0")), sdl: Some(s("type Query")) });
    match &a {
        RunAction::Display(items) => {
            assert_eq!(items.len(), 4);
            assert!(matches!(&items[0], DisplayItem::Success(m) if m == "No errors found"));
            assert!(matches!(&items[1], DisplayItem::Table(t) if t == &vec![(s("N + 1"), s("0"))]));
            assert!(matches!(&items[2], DisplayItem::Heading(h) if h == "GraphQL Schema:\n"));
            assert!(matches!(&items[3], DisplayItem::Text(t) if t == "type Query"));
        },
        _ => panic!("expected a display"),
    }
    let (_, a) = run_step(p, RunEvent::Shown);
    assert!(matches!(a, RunAction::Finish(Ok(()))));
}

#[test]
fn run_check_without_schema_shows_only_findings() {
    let cmd = Command::Check { file_paths: vec![], n_plus_one_queries: true, schema: false, operations: Some(vec![]) };
    let (p, _) = run_start(cmd);
    let (p, _) = run_step(p, RunEvent::ConfigLoaded);
    let (p, a) = run_step(p, RunEvent::BlueprintBuilt);
    assert!(matches!(a, RunAction::Describe { n_plus_one_queries: true, schema: false }));
    let (_, a) = run_step(p, RunEvent::Described { n_plus_one_row: (s("N + 1"), s("2")), sdl: None });
    match &a {
        RunAction::Display(items) => {
            assert_eq!(items.len(), 2);
            assert!(matches!(&items[0], DisplayItem::Success(m) if m == "No errors found"));
        },
        _ => panic!("expected a display"),
    }
}

#[test]
fn run_failures_end_with_their_messages() {
    let cmd = Command::Check { file_paths: vec![], n_plus_one_queries: false, schema: false, operations: None };
    let (p, _) = run_start(cmd);
    let (_, a) = run_step(p, RunEvent::ConfigFailed(s("no such file")));
    match a {
        RunAction::Finish(Err(e)) => assert_eq!(e.causes(), &vec![s("no such file")]),
        _ => panic!("expected a failure"),
    }
    let cmd = Command::Check { file_paths: vec![], n_plus_one_queries: false, schema: false, operations: None };
    let (p, _) = run_start(cmd);
    let (p, _) = run_step(p, RunEvent::ConfigLoaded);
    let (_, a) = run_step(p, RunEvent::BlueprintFailed(vec![s("a"), s("b")]));
    match a {
        RunAction::Finish(Err(e)) => assert_eq!(e.causes(), &vec![s("a"), s("b")]),
        _ => panic!("expected a failure"),
    }
    let (p, a) = run_start(Command::Init { file_path: s("dir") });
    assert!(matches!(a, RunAction::RunInit(ref d) if d == "dir"));
    let (_, a) = run_step(p, RunEvent::InitFinished(Err(s("aborted"))));
    match a {
        RunAction::Finish(Err(e)) => assert_eq!(e.causes(), &vec![s("aborted")]),
        _ => panic!("expected a failure"),
    }
}

#[test]
fn graphqlrc_lines_for_a_name_with_spaces() {
    assert_eq!(
        graphqlrc_contents("my users.graphql"),
        "schema:\n- './my users.graphql'\n- './.tailcallrc.graphql'\n          "
    );
}

#[test]
fn check_display_puts_schema_after_findings() {
    let items = check_display((s("N + 1"), s("0")), Some(s("type Query")));
    assert_eq!(items.len(), 4);
    assert!(matches!(&items[3], DisplayItem::Text(t) if t == "type Query"));
    assert_eq!(check_display((s("N + 1"), s("0")), None).len(), 2);
}
