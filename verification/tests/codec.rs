use ftp_server::cmd::{Command, TransferType};
use ftp_server::codec::{decode_answer, find_crlf, BytesCodec, FtpCodec};
use ftp_server::ftp::{Answer, ResultCode};

#[test]
fn test_encoder() {
    let mut codec = FtpCodec;
    let message = "bad sequence of commands";
    let answer = Answer::new(ResultCode::BadSequenceOfCommands, message);
    let mut buf: Vec<u8> = Vec::new();
    let result = codec.encode(answer, &mut buf);
    assert!(result.is_ok());
    assert_eq!(buf, format!("503 {}\r\n", message).into_bytes());

    let answer = Answer::new(ResultCode::CantOpenDataConnection, "");
    let mut buf: Vec<u8> = Vec::new();
    let result = codec.encode(answer, &mut buf);
    assert!(result.is_ok(), "Result is ok");
    assert_eq!(buf, format!("425\r\n").into_bytes(), "Buffer contains 425");
}

#[test]
fn test_decoder() {
    let mut codec = FtpCodec;
    let mut buf: Vec<u8> = Vec::new();
    buf.extend_from_slice(b"PWD");
    let result = codec.decode(&mut buf);
    assert!(result.is_ok());
    let command = result.unwrap();
    assert!(command.is_none());

    buf.extend_from_slice(b"\r\n");
    let result = codec.decode(&mut buf);
    assert!(result.is_ok());
    let command = result.unwrap();
    assert_eq!(command, Some(Command::Pwd));

    let mut buf: Vec<u8> = Vec::new();
    buf.extend_from_slice(b"LIST /tmp\r\n");
    let result = codec.decode(&mut buf);
    assert!(result.is_ok());
    let command = result.unwrap();
    assert_eq!(command, Some(Command::List(Some("/tmp".to_owned()))));
}

#[test]
fn decoder_keeps_partial_frame() {
    let mut codec = FtpCodec;
    let mut buf: Vec<u8> = Vec::new();
    buf.extend_from_slice(b"RETR foo.tx");
    let result = codec.decode(&mut buf);
    assert!(result.is_ok());
    assert!(result.unwrap().is_none());
    assert_eq!(buf, b"RETR foo.tx".to_vec());
}

#[test]
fn decoder_consumes_one_frame() {
    let mut codec = FtpCodec;
    let mut buf: Vec<u8> = Vec::new();
    buf.extend_from_slice(b"SYST\r\nNOOP\r\n");
    let first = codec.decode(&mut buf).unwrap();
    assert_eq!(first, Some(Command::Syst));
    assert_eq!(buf, b"NOOP\r\n".to_vec());
    let second = codec.decode(&mut buf).unwrap();
    assert_eq!(second, Some(Command::NoOp));
    assert!(buf.is_empty());
}

#[test]
fn decoder_trims_one_leading_space() {
    let mut codec = FtpCodec;
    let mut buf: Vec<u8> = Vec::new();
    buf.extend_from_slice(b" PWD\r\n");
    let command = codec.decode(&mut buf).unwrap();
    assert_eq!(command, Some(Command::Pwd));
}

#[test]
fn decoder_matches_verbs_case_insensitively() {
    let mut codec = FtpCodec;
    let mut buf: Vec<u8> = Vec::new();
    buf.extend_from_slice(b"type I\r\n");
    let command = codec.decode(&mut buf).unwrap();
    assert_eq!(command, Some(Command::Type(TransferType::Image)));
    // Only the verb is case-insensitive: a lower-case argument is refused.
    buf.extend_from_slice(b"TYPE i\r\n");
    assert!(codec.decode(&mut buf).is_err());
}

#[test]
fn decoder_reports_unknown_verbs() {
    let mut codec = FtpCodec;
    let mut buf: Vec<u8> = Vec::new();
    buf.extend_from_slice(b"FOO bar\r\n");
    let command = codec.decode(&mut buf).unwrap();
    assert_eq!(command, Some(Command::Unknown("FOO".to_owned())));
}

#[test]
fn decoder_decodes_utf8_arguments() {
    let mut codec = FtpCodec;
    let mut buf: Vec<u8> = Vec::new();
    buf.extend_from_slice("CWD h\u{e9}llo\r\n".as_bytes());
    let command = codec.decode(&mut buf).unwrap();
    assert_eq!(command, Some(Command::Cwd("h\u{e9}llo".to_owned())));
}

#[test]
fn decoder_rejects_invalid_utf8_path() {
    let mut codec = FtpCodec;
    let mut buf: Vec<u8> = Vec::new();
    buf.extend_from_slice(b"CWD \xff\xfe\r\n");
    let result = codec.decode(&mut buf);
    let err = result.err().expect("invalid UTF-8 must be rejected");
    let answer = err.answer();
    assert_eq!(answer.code, ResultCode::InvalidParameterOrArgument);
}

#[test]
fn missing_parameter_is_rejected() {
    let err = Command::new(b"CWD".to_vec()).err().expect("CWD needs an argument");
    let answer = err.answer();
    assert_eq!(answer.code, ResultCode::InvalidParameterOrArgument);
    assert_eq!(answer.message, "no command parameter");
}

#[test]
fn type_argument_errors_get_their_own_code() {
    let err = Command::new(b"TYPE X".to_vec()).err().expect("TYPE X is not implemented");
    let answer = err.answer();
    assert_eq!(answer.code, ResultCode::CommandNotImplementedForThatParameter);
}

#[test]
fn type_accepts_ascii_and_image() {
    assert_eq!(Command::new(b"TYPE A".to_vec()).unwrap(), Command::Type(TransferType::Ascii));
    assert_eq!(Command::new(b"TYPE I".to_vec()).unwrap(), Command::Type(TransferType::Image));
}

#[test]
fn port_parses_the_six_byte_tuple() {
    let cmd = Command::new(b"PORT 127,0,0,1,4,1".to_vec()).unwrap();
    assert_eq!(cmd, Command::Port(4 * 256 + 1));
}

#[test]
fn port_rejects_malformed_tuples() {
    for line in [
        b"PORT 1,2,3,4,5".to_vec(),
        b"PORT 1,2,3,4,5,6,7".to_vec(),
        b"PORT 1,2,3,4,5,x".to_vec(),
        b"PORT 1,2,3,4,5,999".to_vec(),
        b"PORT ".to_vec(),
    ] {
        let err = Command::new(line).err().expect("malformed PORT must be rejected");
        assert_eq!(err.answer().code, ResultCode::InvalidParameterOrArgument);
    }
}

#[test]
fn port_rejects_privileged_ports() {
    let err = Command::new(b"PORT 127,0,0,1,4,0".to_vec()).err().expect("port 1024 is privileged");
    assert_eq!(err.answer().code, ResultCode::InvalidParameterOrArgument);
    assert_eq!(err.answer().message, "Port can't be less than 10025");
}

#[test]
fn answer_round_trip_reproduces_code_and_message() {
    let mut codec = FtpCodec;
    let mut buf: Vec<u8> = Vec::new();
    let answer = Answer::new(ResultCode::PATHNAMECreated, "\"/\" ");
    codec.encode(answer, &mut buf).unwrap();
    let (code, message) = decode_answer(&buf).expect("a full frame decodes");
    assert_eq!(code, 257);
    assert_eq!(message, b"\"/\" ".to_vec());
}

#[test]
fn answer_round_trip_with_empty_message() {
    let mut codec = FtpCodec;
    let mut buf: Vec<u8> = Vec::new();
    codec.encode(Answer::new(ResultCode::ConnectionClosed, ""), &mut buf).unwrap();
    let (code, message) = decode_answer(&buf).expect("a full frame decodes");
    assert_eq!(code, 426);
    assert!(message.is_empty());
}

#[test]
fn answer_decoder_needs_a_full_frame() {
    assert!(decode_answer(&b"230 Welcome".to_vec()).is_none());
    assert!(find_crlf(&b"230 Welcome".to_vec()).is_none());
    assert_eq!(find_crlf(&b"230 ok\r\n".to_vec()), Some(6));
}

#[test]
fn bytes_codec_moves_whole_chunks() {
    let mut codec = BytesCodec;
    let mut buf: Vec<u8> = Vec::new();
    assert!(codec.decode(&mut buf).unwrap().is_none());
    buf.extend_from_slice(b"payload");
    let chunk = codec.decode(&mut buf).unwrap().unwrap();
    assert_eq!(chunk, b"payload".to_vec());
    assert!(buf.is_empty());

    let mut out: Vec<u8> = Vec::new();
    codec.encode(b"abc".to_vec(), &mut out).unwrap();
    codec.encode(b"def".to_vec(), &mut out).unwrap();
    assert_eq!(out, b"abcdef".to_vec());
}

#[test]
fn keyword_names_each_verb() {
    assert_eq!(Command::Pwd.keyword(), "PWD");
    assert_eq!(Command::Cwd("x".to_owned()).keyword(), "CWD");
    assert_eq!(Command::Unknown("zzz".to_owned()).keyword(), "UNKN");
}
