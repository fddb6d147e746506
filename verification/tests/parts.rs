use ftp_server::config::{Config, DEFAULT_PORT};
use ftp_server::error::Error;
use ftp_server::ftp::{Answer, ResultCode};
use ftp_server::listing::{add_file_info, format_entry, month_str};
use ftp_server::paths::{
    get_filename, get_parent, invalid_path, join_paths, path_starts_with, prefix_slash, real_path,
    strip_root,
};

#[test]
fn join_follows_the_working_directory() {
    assert_eq!(join_paths("/", "src"), "/src");
    assert_eq!(join_paths("/a", "b/c"), "/a/b/c");
    assert_eq!(join_paths("/a", "/b"), "/b");
    assert_eq!(join_paths("/", ""), "/");
    assert_eq!(join_paths("/a/", "b"), "/a/b");
}

#[test]
fn parent_components_are_spotted() {
    assert!(invalid_path(".."));
    assert!(invalid_path("../escape.txt"));
    assert!(invalid_path("a/../b"));
    assert!(invalid_path("a/.."));
    assert!(!invalid_path("a..b"));
    assert!(!invalid_path("..."));
    assert!(!invalid_path("a.b/c"));
    assert!(!invalid_path(""));
}

#[test]
fn parent_and_filename_split_a_path() {
    assert_eq!(get_parent("/a/b"), Some("/a".to_owned()));
    assert_eq!(get_parent("/a"), Some("/".to_owned()));
    assert_eq!(get_parent("/"), None);
    assert_eq!(get_parent("name"), None);

    assert_eq!(get_filename("/a/b"), Some("b".to_owned()));
    assert_eq!(get_filename("/a"), Some("a".to_owned()));
    assert_eq!(get_filename("/a/"), None);
}

#[test]
fn prefix_slash_makes_paths_absolute() {
    let mut p = "src".to_owned();
    prefix_slash(&mut p);
    assert_eq!(p, "/src");
    prefix_slash(&mut p);
    assert_eq!(p, "/src");
}

#[test]
fn the_prefix_test_is_component_wise() {
    assert!(path_starts_with("/srv/x", "/srv"));
    assert!(path_starts_with("/srv", "/srv"));
    assert!(!path_starts_with("/srvx", "/srv"));
    assert!(!path_starts_with("/etc/srv", "/srv"));
    assert_eq!(strip_root("/srv/x/y", "/srv"), "/x/y");
    assert_eq!(strip_root("/srv", "/srv"), "/");
    assert_eq!(real_path("/srv", "/x"), "/srv/x");
}

#[test]
fn listing_lines_have_the_fixed_format() {
    let line = format_entry("foo.txt", false, false, 42, 1, 5, 7, 9);
    assert_eq!(line, "-rw-rw-rw- 1 anonymous anonymous 42 Jan 5 7:9 foo.txt\r\n");
    let line = format_entry("docs", true, true, 4096, 12, 31, 23, 59);
    assert_eq!(line, "dr--r--r-- 1 anonymous anonymous 4096 Dec 31 23:59 docs/\r\n");
    assert_eq!(month_str(2), "Feb");
}

#[test]
fn listing_stamps_the_modification_time() {
    let mut out: Vec<u8> = Vec::new();
    // The Unix epoch falls on Jan 1 0:0 UTC.
    add_file_info("x", false, false, 5, 0, &mut out);
    assert_eq!(out, b"-rw-rw-rw- 1 anonymous anonymous 5 Jan 1 0:0 x\r\n".to_vec());

    let mut out: Vec<u8> = Vec::new();
    // 2021-03-04 05:06:07 UTC.
    add_file_info("y", true, false, 1, 1614834367, &mut out);
    assert_eq!(out, b"drw-rw-rw- 1 anonymous anonymous 1 Mar 4 5:6 y/\r\n".to_vec());
}

#[test]
fn the_default_config_has_one_anonymous_user() {
    let c = Config::default();
    assert_eq!(c.server_port, Some(DEFAULT_PORT));
    assert_eq!(c.server_addr, Some("127.0.0.1".to_owned()));
    assert!(c.admin.is_none());
    assert_eq!(c.users.len(), 1);
    assert_eq!(c.users[0].name, "anonymous");
    assert_eq!(c.users[0].password, "");
}

#[test]
fn errors_map_to_their_reply_codes() {
    assert_eq!(Error::msg("whatever").answer().code, ResultCode::InvalidParameterOrArgument);
    assert_eq!(
        Error::msg("command not implemented for that parameter").answer().code,
        ResultCode::CommandNotImplementedForThatParameter
    );
    assert_eq!(Error::Utf8.answer().code, ResultCode::InvalidParameterOrArgument);
    assert_eq!(Error::FromUtf8.answer().code, ResultCode::InvalidParameterOrArgument);
}

#[test]
fn errors_collapse_into_io_errors() {
    let io = Error::msg("x").to_io_error();
    assert_eq!(io.kind(), std::io::ErrorKind::Other);
    let inner = std::io::Error::new(std::io::ErrorKind::NotFound, "gone");
    let io = Error::Io(inner).to_io_error();
    assert_eq!(io.kind(), std::io::ErrorKind::NotFound);
}

#[test]
fn answers_carry_code_and_message() {
    let a = Answer::new(ResultCode::ServiceReadyForNewUser, "Welcome to this FTP server!");
    assert_eq!(a.code, ResultCode::ServiceReadyForNewUser);
    assert_eq!(a.code.to_u32(), 220);
    assert_eq!(a.message, "Welcome to this FTP server!");
    assert_eq!(ResultCode::NotLoggedIn.to_u32(), 530);
    assert_eq!(ResultCode::Okay.to_u32(), 200);
}
