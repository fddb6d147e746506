use ftp_server::cmd::{Command, TransferType};
use ftp_server::config::{Config, User};
use ftp_server::ftp::ResultCode;
use ftp_server::session::{ListStep, Reply, RetrStep, Session};

fn anonymous_config() -> Config {
    Config {
        server_port: Some(1234),
        server_addr: Some("127.0.0.1".to_owned()),
        admin: None,
        users: vec![
            User { name: "anonymous".to_owned(), password: "".to_owned() },
            User { name: "ferris".to_owned(), password: "".to_owned() },
        ],
    }
}

fn admin_config() -> Config {
    Config {
        server_port: Some(1234),
        server_addr: Some("127.0.0.1".to_owned()),
        admin: Some(User { name: "admin".to_owned(), password: "secret".to_owned() }),
        users: vec![User { name: "anonymous".to_owned(), password: "".to_owned() }],
    }
}

fn new_session(config: Config) -> Session {
    Session::new("/srv".to_owned(), config)
}

fn answer_of(reply: Reply) -> ftp_server::ftp::Answer {
    match reply {
        Reply::Answer(a) => a,
        other => panic!("expected a direct answer, got {:?}", other),
    }
}

#[test]
fn test_pwd() {
    let mut session = new_session(anonymous_config());

    let a = answer_of(session.handle_command(Command::User("ferris".to_owned())));
    assert_eq!(a.code, ResultCode::UserLoggedIn);

    let a = answer_of(session.handle_command(Command::Pwd));
    assert_eq!(a.code, ResultCode::PATHNAMECreated);
    assert_eq!(a.message, "\"/\" ");

    match session.handle_command(Command::Cwd("src".to_owned())) {
        Reply::ResolveCwd { target, client } => {
            assert_eq!(target, "/srv/src");
            assert_eq!(client, "src");
        }
        other => panic!("CWD must resolve a path, got {:?}", other),
    }
    let a = session.cwd_apply("src", Some("/srv/src"));
    assert_eq!(a.code, ResultCode::RequestedFileActionOkay);

    let a = answer_of(session.handle_command(Command::Pwd));
    assert_eq!(a.message, "\"/src\" ");

    let a = answer_of(session.handle_command(Command::CdUp));
    assert_eq!(a.code, ResultCode::Okay);
    let a = answer_of(session.handle_command(Command::Pwd));
    assert_eq!(a.message, "\"/\" ");

    match session.handle_command(Command::Quit) {
        Reply::Close(a) => assert_eq!(a.code, ResultCode::ServiceClosingControlConnection),
        other => panic!("QUIT must close the connection, got {:?}", other),
    }
}

#[test]
fn passwordless_user_logs_in_at_once() {
    let mut session = new_session(anonymous_config());
    let a = answer_of(session.handle_command(Command::User("anonymous".to_owned())));
    assert_eq!(a.code, ResultCode::UserLoggedIn);
    assert_eq!(a.message, "Welcome anonymous!");
    assert!(session.is_logged());
}

#[test]
fn wrong_password_keeps_waiting() {
    let mut session = new_session(admin_config());

    let a = answer_of(session.handle_command(Command::User("admin".to_owned())));
    assert_eq!(a.code, ResultCode::UserNameOkayNeedPassword);
    assert!(!session.is_logged());

    let a = answer_of(session.handle_command(Command::Pass("wrongsecret".to_owned())));
    assert_eq!(a.code, ResultCode::NotLoggedIn);
    assert_eq!(a.message, "Invalid password");
    assert!(!session.is_logged());
    assert!(session.waiting_password);

    let a = answer_of(session.handle_command(Command::Pass("secret".to_owned())));
    assert_eq!(a.code, ResultCode::UserLoggedIn);
    assert!(session.is_logged());
    assert!(session.is_admin);
}

#[test]
fn unknown_user_is_rejected() {
    let mut session = new_session(anonymous_config());
    let a = answer_of(session.handle_command(Command::User("nobody".to_owned())));
    assert_eq!(a.code, ResultCode::NotLoggedIn);
    assert_eq!(a.message, "Unknown user...");
    assert!(!session.is_logged());

    let a = answer_of(session.handle_command(Command::User("".to_owned())));
    assert_eq!(a.code, ResultCode::InvalidParameterOrArgument);
}

#[test]
fn commands_before_login_are_refused() {
    let mut session = new_session(anonymous_config());
    let a = answer_of(session.handle_command(Command::Cwd("src".to_owned())));
    assert_eq!(a.code, ResultCode::NotLoggedIn);
    assert_eq!(a.message, "Please log first");

    let a = answer_of(session.handle_command(Command::Type(TransferType::Image)));
    assert_eq!(a.code, ResultCode::NotLoggedIn);
    assert_eq!(session.transfer_type, TransferType::Ascii);

    let a = answer_of(session.handle_command(Command::Syst));
    assert_eq!(a.code, ResultCode::Okay);

    let a = answer_of(session.handle_command(Command::Unknown("EPSV".to_owned())));
    assert_eq!(a.code, ResultCode::UnknownCommand);
    assert_eq!(a.message, "\"EPSV\": Not implemented");
}

#[test]
fn traversal_cwd_leaves_working_dir_unchanged() {
    let mut session = new_session(anonymous_config());
    answer_of(session.handle_command(Command::User("anonymous".to_owned())));

    match session.handle_command(Command::Cwd("../../etc".to_owned())) {
        Reply::ResolveCwd { target, .. } => assert_eq!(target, "/srv/../../etc"),
        other => panic!("CWD must resolve a path, got {:?}", other),
    }
    // The canonicalized path escapes the root, so it is refused.
    let a = session.cwd_apply("../../etc", Some("/etc"));
    assert_eq!(a.code, ResultCode::FileNotFound);
    assert_eq!(session.cwd, "/");

    // A path that does not exist is refused too.
    let a = session.cwd_apply("missing", None);
    assert_eq!(a.code, ResultCode::FileNotFound);
    assert_eq!(session.cwd, "/");
}

#[test]
fn stor_with_parent_component_is_rejected_before_any_file() {
    let mut session = new_session(anonymous_config());
    answer_of(session.handle_command(Command::User("anonymous".to_owned())));

    // Rejected whether or not a data channel is open.
    let a = answer_of(session.handle_command(Command::Stor("../escape.txt".to_owned())));
    assert_eq!(a.code, ResultCode::FileNotFound);
    assert_eq!(a.message, "Permission denied");

    session.data_connected();
    let a = answer_of(session.handle_command(Command::Stor("../escape.txt".to_owned())));
    assert_eq!(a.message, "Permission denied");
}

#[test]
fn transfers_need_a_data_channel() {
    let mut session = new_session(anonymous_config());
    answer_of(session.handle_command(Command::User("anonymous".to_owned())));

    let a = answer_of(session.handle_command(Command::Stor("foo.txt".to_owned())));
    assert_eq!(a.code, ResultCode::ConnectionClosed);
    let a = answer_of(session.handle_command(Command::Retr("foo.txt".to_owned())));
    assert_eq!(a.code, ResultCode::ConnectionClosed);
    let a = answer_of(session.handle_command(Command::List(None)));
    assert_eq!(a.code, ResultCode::ConnectionClosed);
    assert_eq!(a.message, "No opened data connection");
}

#[test]
fn passive_mode_transfer_round_trip() {
    let mut session = new_session(anonymous_config());
    answer_of(session.handle_command(Command::User("anonymous".to_owned())));

    // PASV binds a listener; the announced port is split into two bytes.
    match session.handle_command(Command::Pasv) {
        Reply::PasvBind { port } => assert_eq!(port, 0),
        other => panic!("PASV must bind, got {:?}", other),
    }
    let a = Session::pasv_entering(8080);
    assert_eq!(a.code, ResultCode::EnteringPassiveMode);
    assert_eq!(a.message, "127,0,0,1,31,144");
    session.data_connected();

    // A second PASV leaves the open channel untouched.
    let a = answer_of(session.handle_command(Command::Pasv));
    assert_eq!(a.code, ResultCode::DataConnectionAlreadyOpen);
    assert_eq!(a.message, "Already listening...");

    // STOR writes the payload at the resolved target.
    match session.handle_command(Command::Stor("foo.txt".to_owned())) {
        Reply::StoreFile { target, first } => {
            assert_eq!(target, "/srv/foo.txt");
            assert_eq!(first.code, ResultCode::DataConnectionAlreadyOpen);
        }
        other => panic!("STOR must accept, got {:?}", other),
    }
    let a = session.stor_finish(true);
    assert_eq!(a.code, ResultCode::ClosingDataConnection);
    assert_eq!(a.message, "Transfer done");
    assert!(!session.data_open);

    // RETR streams the same file back over a fresh data channel.
    match session.handle_command(Command::Pasv) {
        Reply::PasvBind { .. } => {}
        other => panic!("PASV must bind again, got {:?}", other),
    }
    session.data_connected();
    match session.handle_command(Command::Retr("foo.txt".to_owned())) {
        Reply::ResolveRetr { target, client } => {
            assert_eq!(target, "/srv/foo.txt");
            assert_eq!(client, "/foo.txt");
        }
        other => panic!("RETR must resolve, got {:?}", other),
    }
    match session.retr_apply("/foo.txt", Some("/srv/foo.txt"), true) {
        RetrStep::Send { target, first } => {
            assert_eq!(target, "/srv/foo.txt");
            assert_eq!(first.code, ResultCode::DataConnectionAlreadyOpen);
        }
        RetrStep::Deny { first } => panic!("RETR must send, got {:?}", first),
    }
    let a = session.data_done();
    assert_eq!(a.code, ResultCode::ClosingDataConnection);
    assert!(!session.data_open);
}

#[test]
fn retr_refuses_missing_escaping_and_config_files() {
    let mut session = new_session(anonymous_config());
    answer_of(session.handle_command(Command::User("anonymous".to_owned())));
    session.data_connected();

    match session.retr_apply("/nope", None, false) {
        RetrStep::Deny { first } => {
            assert_eq!(first.code, ResultCode::LocalErrorInProcessing);
            assert_eq!(first.message, "\"/nope\" doesn't exist");
        }
        RetrStep::Send { .. } => panic!("a missing file cannot be sent"),
    }
    assert!(matches!(
        session.retr_apply("/x", Some("/etc/passwd"), true),
        RetrStep::Deny { .. }
    ));
    assert!(matches!(
        session.retr_apply("/d", Some("/srv/d"), false),
        RetrStep::Deny { .. }
    ));
    assert!(matches!(
        session.retr_apply("/config.toml", Some("/srv/config.toml"), true),
        RetrStep::Deny { .. }
    ));
}

#[test]
fn admin_may_fetch_the_config_file() {
    let mut session = new_session(admin_config());
    answer_of(session.handle_command(Command::User("admin".to_owned())));
    answer_of(session.handle_command(Command::Pass("secret".to_owned())));
    session.data_connected();

    assert!(session.is_entry_listed("/srv/config.toml"));
    assert!(matches!(
        session.retr_apply("/config.toml", Some("/srv/config.toml"), true),
        RetrStep::Send { .. }
    ));

    let mut other = new_session(anonymous_config());
    answer_of(other.handle_command(Command::User("anonymous".to_owned())));
    assert!(!other.is_entry_listed("/srv/config.toml"));
    assert!(other.is_entry_listed("/srv/readme.txt"));
}

#[test]
fn list_resolution_decides_sending() {
    let mut session = new_session(anonymous_config());
    answer_of(session.handle_command(Command::User("anonymous".to_owned())));
    session.data_connected();

    match session.handle_command(Command::List(Some("docs".to_owned()))) {
        Reply::ResolveList { target } => assert_eq!(target, "/srv/docs"),
        other => panic!("LIST must resolve, got {:?}", other),
    }
    assert!(matches!(session.list_apply(Some("/srv/docs")), ListStep::Send(_)));
    match session.list_apply(Some("/etc")) {
        ListStep::Deny(a) => assert_eq!(a.code, ResultCode::InvalidParameterOrArgument),
        ListStep::Send(_) => panic!("an escaping path cannot be listed"),
    }
    assert!(matches!(session.list_apply(None), ListStep::Deny(_)));
}

#[test]
fn mkd_and_rmd_resolve_inside_the_root() {
    let mut session = new_session(anonymous_config());
    answer_of(session.handle_command(Command::User("anonymous".to_owned())));

    match session.handle_command(Command::Mkd("docs/new".to_owned())) {
        Reply::ResolveMkd { parent_target, filename } => {
            assert_eq!(parent_target, "/srv/docs");
            assert_eq!(filename, "new");
        }
        other => panic!("MKD must resolve its parent, got {:?}", other),
    }
    assert_eq!(
        session.mkd_apply(Some("/srv/docs"), true, "new"),
        Some("/srv/docs/new".to_owned())
    );
    assert_eq!(session.mkd_apply(Some("/tmp"), true, "new"), None);
    assert_eq!(session.mkd_apply(Some("/srv/docs"), false, "new"), None);
    assert_eq!(session.mkd_apply(None, true, "new"), None);
    assert_eq!(Session::mkd_answer(true).code, ResultCode::PATHNAMECreated);
    assert_eq!(Session::mkd_answer(false).code, ResultCode::FileNotFound);

    match session.handle_command(Command::Rmd("docs".to_owned())) {
        Reply::ResolveRmd { target } => assert_eq!(target, "/srv/docs"),
        other => panic!("RMD must resolve, got {:?}", other),
    }
    assert_eq!(session.rmd_apply(Some("/srv/docs")), Some("/srv/docs".to_owned()));
    assert_eq!(session.rmd_apply(Some("/root")), None);
    assert_eq!(Session::rmd_answer(true).code, ResultCode::RequestedFileActionOkay);
    assert_eq!(Session::rmd_answer(false).code, ResultCode::FileNotFound);
}

#[test]
fn port_records_the_data_port() {
    let mut session = new_session(anonymous_config());
    answer_of(session.handle_command(Command::User("anonymous".to_owned())));

    let a = answer_of(session.handle_command(Command::Port(1025)));
    assert_eq!(a.code, ResultCode::Okay);
    assert_eq!(a.message, "Data port is now 1025");
    assert_eq!(session.data_port, Some(1025));

    match session.handle_command(Command::Pasv) {
        Reply::PasvBind { port } => assert_eq!(port, 1025),
        other => panic!("PASV must bind the recorded port, got {:?}", other),
    }
}

#[test]
fn type_changes_the_transfer_type() {
    let mut session = new_session(anonymous_config());
    answer_of(session.handle_command(Command::User("anonymous".to_owned())));
    let a = answer_of(session.handle_command(Command::Type(TransferType::Image)));
    assert_eq!(a.code, ResultCode::Okay);
    assert_eq!(session.transfer_type, TransferType::Image);
}

#[test]
fn noop_changes_nothing_and_replies_ok() {
    let mut session = new_session(anonymous_config());
    answer_of(session.handle_command(Command::User("anonymous".to_owned())));
    let before = session.clone();
    for _ in 0..5 {
        let a = answer_of(session.handle_command(Command::NoOp));
        assert_eq!(a.code, ResultCode::Okay);
        assert_eq!(a.message, "Doing nothing");
        assert_eq!(session, before);
    }
}

#[test]
fn auth_is_not_implemented() {
    let mut session = new_session(anonymous_config());
    let a = answer_of(session.handle_command(Command::Auth));
    assert_eq!(a.code, ResultCode::CommandNotImplemented);
}
