//! The command model: the verbs the server understands, and the parser that
//! turns one line of the control connection into a [`Command`].

use vstd::prelude::*;

use crate::digits::{all_digit_bytes, dec_val, is_digit_byte};
use crate::error::{Error, ErrorV};
use vstd::utf8::{decode_utf8, valid_utf8};

verus! {

/// How file contents are transferred; changed only by `TYPE`.
#[derive(Clone, Copy, Debug, PartialEq, Eq, Structural)]
pub enum TransferType {
    Ascii,
    Image,
    Unknown,
}

/// The transfer type selected by the given `TYPE` argument character.
pub open spec fn transfer_type_of(c: u8) -> TransferType {
    if c == 65 {
        TransferType::Ascii
    } else if c == 73 {
        TransferType::Image
    } else {
        TransferType::Unknown
    }
}

impl From<u8> for TransferType {
    fn from(c: u8) -> (t: TransferType) {
        match c {
            65 => TransferType::Ascii,
            73 => TransferType::Image,
            _ => TransferType::Unknown,
        }
    }
}

impl vstd::std_specs::convert::FromSpecImpl<u8> for TransferType {
    open spec fn obeys_from_spec() -> bool {
        true
    }

    open spec fn from_spec(c: u8) -> TransferType {
        transfer_type_of(c)
    }
}

/// One parsed command from the control connection.
#[derive(Clone, Debug, PartialEq, Eq)]
pub enum Command {
    Auth,
    Cwd(String),
    List(Option<String>),
    Mkd(String),
    NoOp,
    Port(u16),
    Pass(String),
    Pasv,
    Pwd,
    Quit,
    Retr(String),
    Rmd(String),
    Stor(String),
    Syst,
    Type(TransferType),
    CdUp,
    Unknown(String),
    User(String),
}

/// Mathematical view of a [`Command`]: arguments as character sequences.
pub enum CommandV {
    Auth,
    Cwd(Seq<char>),
    List(Option<Seq<char>>),
    Mkd(Seq<char>),
    NoOp,
    Port(u16),
    Pass(Seq<char>),
    Pasv,
    Pwd,
    Quit,
    Retr(Seq<char>),
    Rmd(Seq<char>),
    Stor(Seq<char>),
    Syst,
    Type(TransferType),
    CdUp,
    Unknown(Seq<char>),
    User(Seq<char>),
}

impl View for Command {
    type V = CommandV;

    open spec fn view(&self) -> CommandV {
        match self {
            Command::Auth => CommandV::Auth,
            Command::Cwd(p) => CommandV::Cwd(p@),
            Command::List(p) => CommandV::List(
                match p {
                    Some(s) => Some(s@),
                    None => None,
                },
            ),
            Command::Mkd(p) => CommandV::Mkd(p@),
            Command::NoOp => CommandV::NoOp,
            Command::Port(p) => CommandV::Port(*p),
            Command::Pass(s) => CommandV::Pass(s@),
            Command::Pasv => CommandV::Pasv,
            Command::Pwd => CommandV::Pwd,
            Command::Quit => CommandV::Quit,
            Command::Retr(p) => CommandV::Retr(p@),
            Command::Rmd(p) => CommandV::Rmd(p@),
            Command::Stor(p) => CommandV::Stor(p@),
            Command::Syst => CommandV::Syst,
            Command::Type(t) => CommandV::Type(*t),
            Command::CdUp => CommandV::CdUp,
            Command::Unknown(s) => CommandV::Unknown(s@),
            Command::User(s) => CommandV::User(s@),
        }
    }
}

impl Command {
    /// The canonical verb keyword of this command.
    pub open spec fn spec_keyword(&self) -> Seq<char> {
        match self {
            Command::Auth => "AUTH"@,
            Command::Cwd(_) => "CWD"@,
            Command::List(_) => "LIST"@,
            Command::Pass(_) => "PASS"@,
            Command::Pasv => "PASV"@,
            Command::Port(_) => "PORT"@,
            Command::Pwd => "PWD"@,
            Command::Quit => "QUIT"@,
            Command::Retr(_) => "RETR"@,
            Command::Stor(_) => "STOR"@,
            Command::Syst => "SYST"@,
            Command::Type(_) => "TYPE"@,
            Command::User(_) => "USER"@,
            Command::CdUp => "CDUP"@,
            Command::Mkd(_) => "MKD"@,
            Command::Rmd(_) => "RMD"@,
            Command::NoOp => "NOOP"@,
            Command::Unknown(_) => "UNKN"@,
        }
    }

    /// The canonical verb keyword of this command.
    pub fn keyword(&self) -> (r: &'static str)
        ensures
            r@ == self.spec_keyword(),
    {
        match self {
            Command::Auth => "AUTH",
            Command::Cwd(_) => "CWD",
            Command::List(_) => "LIST",
            Command::Pass(_) => "PASS",
            Command::Pasv => "PASV",
            Command::Port(_) => "PORT",
            Command::Pwd => "PWD",
            Command::Quit => "QUIT",
            Command::Retr(_) => "RETR",
            Command::Stor(_) => "STOR",
            Command::Syst => "SYST",
            Command::Type(_) => "TYPE",
            Command::User(_) => "USER",
            Command::CdUp => "CDUP",
            Command::Mkd(_) => "MKD",
            Command::Rmd(_) => "RMD",
            Command::NoOp => "NOOP",
            Command::Unknown(_) => "UNKN",
        }
    }
}

/// The index of the first occurrence of `sep` in `s`, or `s.len()` if absent.
pub open spec fn sep_index(s: Seq<u8>, sep: u8) -> int
    decreases s.len(),
{
    if s.len() == 0 {
        0
    } else if s[0] == sep {
        0
    } else {
        1 + sep_index(s.drop_first(), sep)
    }
}

/// `sep_index` is in range, points at `sep` when one exists, and nothing
/// before it is `sep`.
pub proof fn lemma_sep_index(s: Seq<u8>, sep: u8)
    ensures
        0 <= sep_index(s, sep) <= s.len(),
        sep_index(s, sep) < s.len() ==> s[sep_index(s, sep)] == sep,
        forall|i: int| 0 <= i < sep_index(s, sep) ==> s[i] != sep,
    decreases s.len(),
{
    if s.len() == 0 {
    } else if s[0] == sep {
    } else {
        lemma_sep_index(s.drop_first(), sep);
        let k = sep_index(s.drop_first(), sep);
        if k < s.drop_first().len() {
            assert(s[1 + k] == s.drop_first()[k]);
        }
        assert forall|i: int| 0 <= i < sep_index(s, sep) implies s[i] != sep by {
            if i >= 1 {
                assert(s.drop_first()[i - 1] == s[i]);
            }
        }
    }
}

/// Find the first occurrence of `sep` in `v`, or `v.len()` if absent.
fn find_byte(v: &Vec<u8>, sep: u8) -> (r: usize)
    ensures
        r == sep_index(v@, sep),
{
    proof {
        lemma_sep_index(v@, sep);
    }
    let n = v.len();
    let mut i: usize = 0;
    while i < n
        invariant
            n == v@.len(),
            i <= n,
            forall|j: int| 0 <= j < i ==> v@[j] != sep,
        decreases n - i,
    {
        if v[i] == sep {
            proof {
                lemma_sep_index(v@, sep);
            }
            return i;
        }
        i += 1;
    }
    proof {
        lemma_sep_index(v@, sep);
    }
    i
}

/// Copy the bytes `v[from..to]` into a fresh vector.
pub(crate) fn copy_range(v: &Vec<u8>, from: usize, to: usize) -> (r: Vec<u8>)
    requires
        from <= to <= v@.len(),
    ensures
        r@ == v@.subrange(from as int, to as int),
{
    let mut r: Vec<u8> = Vec::new();
    assert(r@ =~= v@.subrange(from as int, from as int));
    let mut i = from;
    while i < to
        invariant
            from <= i <= to <= v@.len(),
            r@ == v@.subrange(from as int, i as int),
        decreases to - i,
    {
        r.push(v[i]);
        i += 1;
        assert(r@ =~= v@.subrange(from as int, i as int));
    }
    r
}

/// Whether `v` holds exactly the three given bytes.
fn is3(v: &Vec<u8>, a: u8, b: u8, c: u8) -> (r: bool)
    ensures
        r == (v@ == seq![a, b, c]),
{
    if v.len() == 3 {
        let r = v[0] == a && v[1] == b && v[2] == c;
        proof {
            if r {
                assert(v@ =~= seq![a, b, c]);
            }
        }
        r
    } else {
        false
    }
}

/// Whether `v` holds exactly the four given bytes.
fn is4(v: &Vec<u8>, a: u8, b: u8, c: u8, d: u8) -> (r: bool)
    ensures
        r == (v@ == seq![a, b, c, d]),
{
    if v.len() == 4 {
        let r = v[0] == a && v[1] == b && v[2] == c && v[3] == d;
        proof {
            if r {
                assert(v@ =~= seq![a, b, c, d]);
            }
        }
        r
    } else {
        false
    }
}

/// The ASCII upper-case form of one byte.
pub open spec fn upper_byte(b: u8) -> u8 {
    if 97 <= b <= 122 {
        (b - 32) as u8
    } else {
        b
    }
}

/// The ASCII upper-case form of a byte sequence.
pub open spec fn upper_bytes(s: Seq<u8>) -> Seq<u8> {
    Seq::new(s.len(), |i: int| upper_byte(s[i]))
}

/// Upper-case every ASCII letter of `data` in place.
pub fn to_uppercase(data: &mut Vec<u8>)
    ensures
        final(data)@ == upper_bytes(old(data)@),
{
    let ghost orig: Seq<u8> = data@;
    let n = data.len();
    let mut i: usize = 0;
    while i < n
        invariant
            n == orig.len(),
            data@.len() == n,
            i <= n,
            forall|j: int| 0 <= j < i ==> data@[j] == upper_byte(orig[j]),
            forall|j: int| i <= j < n ==> data@[j] == orig[j],
        decreases n - i,
    {
        let b = data[i];
        if b >= 97 && b <= 122 {
            data.set(i, b - 32);
        }
        i += 1;
    }
    assert(data@ =~= upper_bytes(orig));
}

/// Relies on `String::from_utf8`: succeeds exactly on valid UTF-8 input and
/// decodes it.
#[verifier::external_body]
pub(crate) fn string_from_utf8(bytes: Vec<u8>) -> (r: Option<String>)
    ensures
        r is Some <==> valid_utf8(bytes@),
        r matches Some(s) ==> s@ == decode_utf8(bytes@),
{
    String::from_utf8(bytes).ok()
}

/// The pieces of `s` between occurrences of `sep`.
pub open spec fn spec_split(s: Seq<u8>, sep: u8) -> Seq<Seq<u8>>
    decreases s.len(),
{
    let i = sep_index(s, sep);
    if 0 <= i < s.len() {
        seq![s.subrange(0, i)] + spec_split(s.subrange(i + 1, s.len() as int), sep)
    } else {
        seq![s]
    }
}

/// The views of a sequence of byte vectors.
pub open spec fn parts_view(parts: Seq<Vec<u8>>) -> Seq<Seq<u8>> {
    parts.map_values(|p: Vec<u8>| p@)
}

/// Split `v` at every occurrence of `sep`.
fn split_bytes(v: &Vec<u8>, sep: u8) -> (parts: Vec<Vec<u8>>)
    ensures
        parts_view(parts@) == spec_split(v@, sep),
    decreases v@.len(),
{
    proof {
        lemma_sep_index(v@, sep);
    }
    let i = find_byte(v, sep);
    if i == v.len() {
        let whole = copy_range(v, 0, v.len());
        assert(whole@ =~= v@);
        let mut parts: Vec<Vec<u8>> = Vec::new();
        parts.push(whole);
        assert(parts_view(parts@) =~= seq![v@]);
        parts
    } else {
        let head = copy_range(v, 0, i);
        let tail = copy_range(v, i + 1, v.len());
        let mut parts = split_bytes(&tail, sep);
        let ghost rest_view: Seq<Seq<u8>> = parts_view(parts@);
        parts.insert(0, head);
        assert(parts_view(parts@) =~= seq![head@] + rest_view);
        parts
    }
}

/// Whether `f` is a decimal field denoting a byte value.
pub open spec fn is_byte_field(f: Seq<u8>) -> bool {
    f.len() >= 1 && all_digit_bytes(f) && dec_val(f) <= 255
}

/// A prefix of a run of digits denotes no more than the whole run.
pub proof fn lemma_dec_val_prefix(t: Seq<u8>, k: int)
    requires
        0 <= k <= t.len(),
        all_digit_bytes(t),
    ensures
        dec_val(t.subrange(0, k)) <= dec_val(t),
    decreases t.len() - k,
{
    if k == t.len() {
        assert(t.subrange(0, k) =~= t);
    } else {
        let t1 = t.drop_last();
        assert(all_digit_bytes(t1));
        assert(t.subrange(0, k) =~= t1.subrange(0, k));
        lemma_dec_val_prefix(t1, k);
        assert(dec_val(t) == dec_val(t1) * 10 + (t.last() - 48));
    }
}

/// Parse one decimal byte-valued field.
fn parse_byte_field(f: &Vec<u8>) -> (r: Option<u8>)
    ensures
        r is Some <==> is_byte_field(f@),
        r matches Some(n) ==> n == dec_val(f@),
{
    let n = f.len();
    if n == 0 {
        return None;
    }
    let mut acc: u16 = 0;
    let mut i: usize = 0;
    while i < n
        invariant
            n == f@.len(),
            i <= n,
            acc <= 255,
            acc == dec_val(f@.subrange(0, i as int)),
            forall|j: int| 0 <= j < i ==> is_digit_byte(#[trigger] f@[j]),
        decreases n - i,
    {
        let b = f[i];
        if !(48 <= b && b <= 57) {
            return None;
        }
        acc = acc * 10 + (b - 48) as u16;
        i += 1;
        proof {
            let p = f@.subrange(0, i as int);
            assert(p.drop_last() =~= f@.subrange(0, i - 1));
            assert(dec_val(p) == dec_val(p.drop_last()) * 10 + (p.last() - 48));
        }
        if acc > 255 {
            proof {
                if all_digit_bytes(f@) {
                    lemma_dec_val_prefix(f@, i as int);
                }
            }
            return None;
        }
    }
    proof {
        assert(f@.subrange(0, n as int) =~= f@);
    }
    Some(acc as u8)
}

/// The outcome of parsing one command line.
pub enum ParseResult {
    Cmd(CommandV),
    Fail(ErrorV),
}

/// The parse of the `PORT` argument: six comma-separated decimal byte
/// values; the port is built from the last two and must be above 1024.
pub open spec fn spec_parse_port(b: Seq<u8>) -> ParseResult {
    let fs = spec_split(b, 44);
    if fs.len() == 6 && (forall|i: int| 0 <= i < 6 ==> is_byte_field(#[trigger] fs[i])) {
        let port = dec_val(fs[4]) * 256 + dec_val(fs[5]);
        if port <= 1024 {
            ParseResult::Fail(ErrorV::Msg("Port can't be less than 10025"@))
        } else {
            ParseResult::Cmd(CommandV::Port(port as u16))
        }
    } else {
        ParseResult::Fail(ErrorV::Msg("Invalid address/port"@))
    }
}

/// The parse of one command line: the verb before the first space, matched
/// case-insensitively, and the raw remainder after it as the argument.
pub open spec fn spec_parse_command(line: Seq<u8>) -> ParseResult {
    let si = sep_index(line, 32);
    let verb = upper_bytes(line.subrange(0, si));
    let data = (if si == line.len() {
        Option::<Seq<u8>>::None
    } else {
        Some(line.subrange(si + 1, line.len() as int))
    });
    if verb == seq![65u8, 85u8, 84u8, 72u8] {
        ParseResult::Cmd(CommandV::Auth)
    } else if verb == seq![67u8, 87u8, 68u8] {
        spec_parse_path(data, PathVerb::Cwd)
    } else if verb == seq![76u8, 73u8, 83u8, 84u8] {
        match data {
            None => ParseResult::Cmd(CommandV::List(None)),
            Some(b) => if valid_utf8(b) {
                ParseResult::Cmd(CommandV::List(Some(decode_utf8(b))))
            } else {
                ParseResult::Fail(ErrorV::Utf8)
            },
        }
    } else if verb == seq![80u8, 65u8, 83u8, 86u8] {
        ParseResult::Cmd(CommandV::Pasv)
    } else if verb == seq![80u8, 79u8, 82u8, 84u8] {
        match data {
            None => ParseResult::Fail(ErrorV::Msg("no command parameter"@)),
            Some(b) => spec_parse_port(b),
        }
    } else if verb == seq![80u8, 87u8, 68u8] {
        ParseResult::Cmd(CommandV::Pwd)
    } else if verb == seq![81u8, 85u8, 73u8, 84u8] {
        ParseResult::Cmd(CommandV::Quit)
    } else if verb == seq![82u8, 69u8, 84u8, 82u8] {
        spec_parse_path(data, PathVerb::Retr)
    } else if verb == seq![83u8, 84u8, 79u8, 82u8] {
        spec_parse_path(data, PathVerb::Stor)
    } else if verb == seq![83u8, 89u8, 83u8, 84u8] {
        ParseResult::Cmd(CommandV::Syst)
    } else if verb == seq![84u8, 89u8, 80u8, 69u8] {
        match data {
            None => ParseResult::Fail(ErrorV::Msg("no command parameter"@)),
            Some(b) => if b.len() == 0 || transfer_type_of(b[0]) is Unknown {
                ParseResult::Fail(ErrorV::Msg("command not implemented for that parameter"@))
            } else {
                ParseResult::Cmd(CommandV::Type(transfer_type_of(b[0])))
            },
        }
    } else if verb == seq![67u8, 68u8, 85u8, 80u8] {
        ParseResult::Cmd(CommandV::CdUp)
    } else if verb == seq![77u8, 75u8, 68u8] {
        spec_parse_path(data, PathVerb::Mkd)
    } else if verb == seq![82u8, 77u8, 68u8] {
        spec_parse_path(data, PathVerb::Rmd)
    } else if verb == seq![85u8, 83u8, 69u8, 82u8] {
        match data {
            None => ParseResult::Fail(ErrorV::Msg("no command parameter"@)),
            Some(b) => if valid_utf8(b) {
                ParseResult::Cmd(CommandV::User(decode_utf8(b)))
            } else {
                ParseResult::Fail(ErrorV::FromUtf8)
            },
        }
    } else if verb == seq![80u8, 65u8, 83u8, 83u8] {
        match data {
            None => ParseResult::Fail(ErrorV::Msg("no command parameter"@)),
            Some(b) => if valid_utf8(b) {
                ParseResult::Cmd(CommandV::Pass(decode_utf8(b)))
            } else {
                ParseResult::Fail(ErrorV::FromUtf8)
            },
        }
    } else if verb == seq![78u8, 79u8, 79u8, 80u8] {
        ParseResult::Cmd(CommandV::NoOp)
    } else {
        let raw = line.subrange(0, si);
        ParseResult::Cmd(CommandV::Unknown(
            if valid_utf8(raw) {
                decode_utf8(raw)
            } else {
                Seq::empty()
            },
        ))
    }
}

/// The verbs that take a path argument.
pub enum PathVerb {
    Cwd,
    Mkd,
    Retr,
    Rmd,
    Stor,
}

/// The parse of a verb with a required path argument: the remainder must be
/// present and valid UTF-8.
pub open spec fn spec_parse_path(data: Option<Seq<u8>>, pv: PathVerb) -> ParseResult {
    match data {
        None => ParseResult::Fail(ErrorV::Msg("no command parameter"@)),
        Some(b) => if valid_utf8(b) {
            ParseResult::Cmd(
                match pv {
                    PathVerb::Cwd => CommandV::Cwd(decode_utf8(b)),
                    PathVerb::Mkd => CommandV::Mkd(decode_utf8(b)),
                    PathVerb::Retr => CommandV::Retr(decode_utf8(b)),
                    PathVerb::Rmd => CommandV::Rmd(decode_utf8(b)),
                    PathVerb::Stor => CommandV::Stor(decode_utf8(b)),
                },
            )
        } else {
            ParseResult::Fail(ErrorV::Utf8)
        },
    }
}

impl Command {
    /// Parse one command line (without its CRLF terminator).
    pub fn new(input: Vec<u8>) -> (r: Result<Command, Error>)
        ensures
            (match r {
                Ok(c) => spec_parse_command(input@) == ParseResult::Cmd(c@),
                Err(e) => spec_parse_command(input@) == ParseResult::Fail(e@),
            }),
    {
        proof {
            lemma_sep_index(input@, 32);
        }
        let si = find_byte(&input, 32);
        let verb_raw = copy_range(&input, 0, si);
        let mut verb = copy_range(&input, 0, si);
        to_uppercase(&mut verb);
        let data: Option<Vec<u8>> = if si < input.len() {
            Some(copy_range(&input, si + 1, input.len()))
        } else {
            None
        };
        if is4(&verb, 65, 85, 84, 72) {
            Ok(Command::Auth)
        } else if is3(&verb, 67, 87, 68) {
            match data {
                None => Err(Error::msg("no command parameter")),
                Some(b) => match string_from_utf8(b) {
                    Some(s) => Ok(Command::Cwd(s)),
                    None => Err(Error::Utf8),
                },
            }
        } else if is4(&verb, 76, 73, 83, 84) {
            match data {
                None => Ok(Command::List(None)),
                Some(b) => match string_from_utf8(b) {
                    Some(s) => Ok(Command::List(Some(s))),
                    None => Err(Error::Utf8),
                },
            }
        } else if is4(&verb, 80, 65, 83, 86) {
            Ok(Command::Pasv)
        } else if is4(&verb, 80, 79, 82, 84) {
            match data {
                None => Err(Error::msg("no command parameter")),
                Some(b) => Command::parse_port(b),
            }
        } else if is3(&verb, 80, 87, 68) {
            Ok(Command::Pwd)
        } else if is4(&verb, 81, 85, 73, 84) {
            Ok(Command::Quit)
        } else if is4(&verb, 82, 69, 84, 82) {
            match data {
                None => Err(Error::msg("no command parameter")),
                Some(b) => match string_from_utf8(b) {
                    Some(s) => Ok(Command::Retr(s)),
                    None => Err(Error::Utf8),
                },
            }
        } else if is4(&verb, 83, 84, 79, 82) {
            match data {
                None => Err(Error::msg("no command parameter")),
                Some(b) => match string_from_utf8(b) {
                    Some(s) => Ok(Command::Stor(s)),
                    None => Err(Error::Utf8),
                },
            }
        } else if is4(&verb, 83, 89, 83, 84) {
            Ok(Command::Syst)
        } else if is4(&verb, 84, 89, 80, 69) {
            match data {
                None => Err(Error::msg("no command parameter")),
                Some(b) => {
                    if b.len() == 0 {
                        Err(Error::msg("command not implemented for that parameter"))
                    } else {
                        let t = TransferType::from(b[0]);
                        if t == TransferType::Unknown {
                            Err(Error::msg("command not implemented for that parameter"))
                        } else {
                            Ok(Command::Type(t))
                        }
                    }
                },
            }
        } else if is4(&verb, 67, 68, 85, 80) {
            Ok(Command::CdUp)
        } else if is3(&verb, 77, 75, 68) {
            match data {
                None => Err(Error::msg("no command parameter")),
                Some(b) => match string_from_utf8(b) {
                    Some(s) => Ok(Command::Mkd(s)),
                    None => Err(Error::Utf8),
                },
            }
        } else if is3(&verb, 82, 77, 68) {
            match data {
                None => Err(Error::msg("no command parameter")),
                Some(b) => match string_from_utf8(b) {
                    Some(s) => Ok(Command::Rmd(s)),
                    None => Err(Error::Utf8),
                },
            }
        } else if is4(&verb, 85, 83, 69, 82) {
            match data {
                None => Err(Error::msg("no command parameter")),
                Some(b) => match string_from_utf8(b) {
                    Some(s) => Ok(Command::User(s)),
                    None => Err(Error::FromUtf8),
                },
            }
        } else if is4(&verb, 80, 65, 83, 83) {
            match data {
                None => Err(Error::msg("no command parameter")),
                Some(b) => match string_from_utf8(b) {
                    Some(s) => Ok(Command::Pass(s)),
                    None => Err(Error::FromUtf8),
                },
            }
        } else if is4(&verb, 78, 79, 79, 80) {
            Ok(Command::NoOp)
        } else {
            match string_from_utf8(verb_raw) {
                Some(s) => Ok(Command::Unknown(s)),
                None => Ok(Command::Unknown(String::new())),
            }
        }
    }

    /// Parse the `PORT` argument bytes.
    fn parse_port(b: Vec<u8>) -> (r: Result<Command, Error>)
        ensures
            (match r {
                Ok(c) => spec_parse_port(b@) == ParseResult::Cmd(c@),
                Err(e) => spec_parse_port(b@) == ParseResult::Fail(e@),
            }),
    {
        let parts = split_bytes(&b, 44);
        proof {
            assert(spec_split(b@, 44).len() == parts@.len());
        }
        if parts.len() != 6 {
            return Err(Error::msg("Invalid address/port"));
        }
        let mut k: usize = 0;
        let mut last_two: [u8; 2] = [0, 0];
        while k < 6
            invariant
                parts@.len() == 6,
                parts_view(parts@) == spec_split(b@, 44),
                k <= 6,
                forall|i: int| 0 <= i < k ==> is_byte_field(#[trigger] parts@[i]@),
                k > 4 ==> last_two[0] == dec_val(parts@[4]@),
                k > 5 ==> last_two[1] == dec_val(parts@[5]@),
            decreases 6 - k,
        {
            proof {
                assert(spec_split(b@, 44)[k as int] == parts@[k as int]@);
                assert(spec_split(b@, 44).len() == parts@.len());
            }
            match parse_byte_field(&parts[k]) {
                Some(n) => {
                    if k >= 4 {
                        last_two[k - 4] = n;
                    }
                },
                None => {
                    return Err(Error::msg("Invalid address/port"));
                },
            }
            k += 1;
        }
        let port: u16 = (last_two[0] as u16) * 256 + (last_two[1] as u16);
        proof {
            assert(spec_split(b@, 44)[4] == parts@[4]@);
            assert(spec_split(b@, 44)[5] == parts@[5]@);
        }
        if port <= 1024 {
            Err(Error::msg("Port can't be less than 10025"))
        } else {
            Ok(Command::Port(port))
        }
    }
}

} // verus!
