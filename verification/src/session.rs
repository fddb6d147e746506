//! The per-connection session: authentication phase, virtual working
//! directory, transfer mode and data-channel bookkeeping, and the dispatch
//! from commands to replies and state transitions.
//!
//! Filesystem and socket work stays outside: where a command needs it, the
//! dispatch returns a [`Reply`] naming the real path to resolve or the
//! transfer to perform, and the caller feeds the outcome back through the
//! matching `*_apply` / `*_finish` function, whose contracts cover every
//! outcome.

use vstd::prelude::*;

use crate::cmd::{Command, CommandV, TransferType};
use crate::config::{users_view, Config, ConfigV, User, UserV};
use crate::digits::{dec_chars, push_dec_chars};
use crate::ftp::{Answer, AnswerV, ResultCode};
use crate::paths::{
    has_dotdot, invalid_path, is_path_prefix, join_paths, join_virtual, path_starts_with,
    spec_filename, spec_parent, spec_strip_root, starts_with_slash, strip_root, real_path,
    get_filename, get_parent,
};

verus! {

/// The name of the configuration file, which non-admin sessions may not
/// list or retrieve.
pub open spec fn config_file_vpath() -> Seq<char> {
    "/config.toml"@
}

/// One client session on a control connection.
#[derive(Clone, Debug, PartialEq, Eq)]
pub struct Session {
    pub cwd: String,
    pub server_root: String,
    pub name: Option<String>,
    pub is_admin: bool,
    pub waiting_password: bool,
    pub transfer_type: TransferType,
    pub data_port: Option<u16>,
    pub data_open: bool,
    pub closed: bool,
    pub config: Config,
}

/// Mathematical view of a [`Session`].
pub struct SessionV {
    pub cwd: Seq<char>,
    pub server_root: Seq<char>,
    pub name: Option<Seq<char>>,
    pub is_admin: bool,
    pub waiting_password: bool,
    pub transfer_type: TransferType,
    pub data_port: Option<u16>,
    pub data_open: bool,
    pub closed: bool,
    pub config: ConfigV,
}

impl View for Session {
    type V = SessionV;

    open spec fn view(&self) -> SessionV {
        SessionV {
            cwd: self.cwd@,
            server_root: self.server_root@,
            name: (match &self.name {
                Some(n) => Some(n@),
                None => None,
            }),
            is_admin: self.is_admin,
            waiting_password: self.waiting_password,
            transfer_type: self.transfer_type,
            data_port: self.data_port,
            data_open: self.data_open,
            closed: self.closed,
            config: self.config@,
        }
    }
}

impl SessionV {
    /// Session well-formedness: the working directory is root-relative,
    /// the server root is a non-empty path without a trailing separator, a
    /// session awaiting a password knows whom it is waiting for, and an
    /// admin session has an admin credential to check against.
    pub open spec fn inv(self) -> bool {
        &&& starts_with_slash(self.cwd)
        &&& self.server_root.len() > 0
        &&& self.server_root.last() != '/'
        &&& (self.waiting_password ==> self.name is Some)
        &&& (self.is_admin ==> self.config.admin is Some)
    }

    /// Whether the session has completed authentication.
    pub open spec fn is_logged(self) -> bool {
        self.name is Some && !self.waiting_password
    }
}

/// What the caller must do after dispatching one command.
#[derive(Clone, Debug, PartialEq, Eq)]
pub enum Reply {
    /// Send this reply; the command is done.
    Answer(Answer),
    /// Send this reply, then close the control connection.
    Close(Answer),
    /// Canonicalize `target` and call `cwd_apply` with the outcome.
    ResolveCwd { target: String, client: String },
    /// Canonicalize `target` and call `list_apply` with the outcome.
    ResolveList { target: String },
    /// Canonicalize `target` and call `retr_apply` with the outcome.
    ResolveRetr { target: String, client: String },
    /// Canonicalize `parent_target` and call `mkd_apply` with the outcome.
    ResolveMkd { parent_target: String, filename: String },
    /// Canonicalize `target` and call `rmd_apply` with the outcome.
    ResolveRmd { target: String },
    /// Send `first`, receive the data channel's bytes into the file at
    /// `target`, then call `stor_finish`.
    StoreFile { target: String, first: Answer },
    /// Bind a passive listener on this port (0 for an ephemeral one), send
    /// the `pasv_entering` reply, accept one connection, then call
    /// `data_connected`.
    PasvBind { port: u16 },
}

/// Mathematical view of a [`Reply`].
pub enum ReplyV {
    Answer(AnswerV),
    Close(AnswerV),
    ResolveCwd { target: Seq<char>, client: Seq<char> },
    ResolveList { target: Seq<char> },
    ResolveRetr { target: Seq<char>, client: Seq<char> },
    ResolveMkd { parent_target: Seq<char>, filename: Seq<char> },
    ResolveRmd { target: Seq<char> },
    StoreFile { target: Seq<char>, first: AnswerV },
    PasvBind { port: u16 },
}

impl View for Reply {
    type V = ReplyV;

    open spec fn view(&self) -> ReplyV {
        match self {
            Reply::Answer(a) => ReplyV::Answer(a@),
            Reply::Close(a) => ReplyV::Close(a@),
            Reply::ResolveCwd { target, client } => ReplyV::ResolveCwd {
                target: target@,
                client: client@,
            },
            Reply::ResolveList { target } => ReplyV::ResolveList { target: target@ },
            Reply::ResolveRetr { target, client } => ReplyV::ResolveRetr {
                target: target@,
                client: client@,
            },
            Reply::ResolveMkd { parent_target, filename } => ReplyV::ResolveMkd {
                parent_target: parent_target@,
                filename: filename@,
            },
            Reply::ResolveRmd { target } => ReplyV::ResolveRmd { target: target@ },
            Reply::StoreFile { target, first } => ReplyV::StoreFile {
                target: target@,
                first: first@,
            },
            Reply::PasvBind { port } => ReplyV::PasvBind { port: *port },
        }
    }
}

/// The first configured user with the given name.
pub open spec fn find_user(users: Seq<UserV>, name: Seq<char>) -> Option<UserV>
    decreases users.len(),
{
    if users.len() == 0 {
        None
    } else if users[0].name == name {
        Some(users[0])
    } else {
        find_user(users.drop_first(), name)
    }
}

/// Whether some configured user carries this name and password.
pub open spec fn pass_matches(users: Seq<UserV>, name: Seq<char>, password: Seq<char>) -> bool {
    exists|j: int|
        0 <= j < users.len() && (#[trigger] users[j]).name == name && users[j].password == password
}

/// The transition for `USER`: the name is looked up against the admin
/// entry first and then the user list; an empty configured password logs
/// the session in at once, otherwise it awaits `PASS`.
pub open spec fn spec_user(s: SessionV, content: Seq<char>) -> (SessionV, ReplyV) {
    if content.len() == 0 {
        (
            s,
            ReplyV::Answer(
                AnswerV {
                    code: ResultCode::InvalidParameterOrArgument,
                    message: "Invalid username"@,
                },
            ),
        )
    } else if s.config.admin matches Some(a) && a.name == content {
        let a = s.config.admin->0;
        if a.password.len() == 0 {
            (
                SessionV { name: Some(content), is_admin: true, waiting_password: false, ..s },
                ReplyV::Answer(
                    AnswerV {
                        code: ResultCode::UserLoggedIn,
                        message: "Welcome "@ + content + "!"@,
                    },
                ),
            )
        } else {
            (
                SessionV { name: Some(content), is_admin: true, waiting_password: true, ..s },
                ReplyV::Answer(
                    AnswerV {
                        code: ResultCode::UserNameOkayNeedPassword,
                        message: "Login OK, password needed for "@ + content,
                    },
                ),
            )
        }
    } else {
        match find_user(s.config.users, content) {
            Some(u) => if u.password.len() == 0 {
                (
                    SessionV { name: Some(content), is_admin: false, waiting_password: false, ..s },
                    ReplyV::Answer(
                        AnswerV {
                            code: ResultCode::UserLoggedIn,
                            message: "Welcome "@ + content + "!"@,
                        },
                    ),
                )
            } else {
                (
                    SessionV { name: Some(content), is_admin: false, waiting_password: true, ..s },
                    ReplyV::Answer(
                        AnswerV {
                            code: ResultCode::UserNameOkayNeedPassword,
                            message: "Login OK, password needed for "@ + content,
                        },
                    ),
                )
            },
            None => (
                SessionV { is_admin: false, ..s },
                ReplyV::Answer(
                    AnswerV { code: ResultCode::NotLoggedIn, message: "Unknown user..."@ },
                ),
            ),
        }
    }
}

/// The transition for `PASS` while a password is awaited: the exact
/// configured password logs the session in; anything else leaves it
/// awaiting the password.
pub open spec fn spec_pass(s: SessionV, content: Seq<char>) -> (SessionV, ReplyV) {
    let ok = if s.is_admin {
        s.config.admin matches Some(a) && a.password == content
    } else {
        s.name matches Some(n) && pass_matches(s.config.users, n, content)
    };
    if ok {
        (
            SessionV { waiting_password: false, ..s },
            ReplyV::Answer(
                AnswerV { code: ResultCode::UserLoggedIn, message: "Welcome "@ + s.name->0 },
            ),
        )
    } else {
        (
            s,
            ReplyV::Answer(AnswerV { code: ResultCode::NotLoggedIn, message: "Invalid password"@ }),
        )
    }
}

/// The transitions shared by every authentication phase: `AUTH`, `QUIT`,
/// `SYST`, `NOOP`, `USER` and unknown verbs are always handled, `TYPE`
/// only once logged in, and everything else asks the client to log in.
pub open spec fn spec_shared(s: SessionV, cmd: CommandV) -> (SessionV, ReplyV) {
    match cmd {
        CommandV::Auth => (
            s,
            ReplyV::Answer(
                AnswerV { code: ResultCode::CommandNotImplemented, message: "Not implemented"@ },
            ),
        ),
        CommandV::Quit => (
            SessionV { closed: true, data_open: false, ..s },
            ReplyV::Close(
                AnswerV {
                    code: ResultCode::ServiceClosingControlConnection,
                    message: "Closing connection..."@,
                },
            ),
        ),
        CommandV::Syst => (
            s,
            ReplyV::Answer(AnswerV { code: ResultCode::Okay, message: "I won't tell!"@ }),
        ),
        CommandV::Type(t) => if s.is_logged() {
            (
                SessionV { transfer_type: t, ..s },
                ReplyV::Answer(
                    AnswerV {
                        code: ResultCode::Okay,
                        message: "Transfer type changed successfully"@,
                    },
                ),
            )
        } else {
            (
                s,
                ReplyV::Answer(
                    AnswerV { code: ResultCode::NotLoggedIn, message: "Please log first"@ },
                ),
            )
        },
        CommandV::User(content) => spec_user(s, content),
        CommandV::NoOp => (
            s,
            ReplyV::Answer(AnswerV { code: ResultCode::Okay, message: "Doing nothing"@ }),
        ),
        CommandV::Unknown(kw) => (
            s,
            ReplyV::Answer(
                AnswerV {
                    code: ResultCode::UnknownCommand,
                    message: "\""@ + kw + "\": Not implemented"@,
                },
            ),
        ),
        _ => (
            s,
            ReplyV::Answer(AnswerV { code: ResultCode::NotLoggedIn, message: "Please log first"@ }),
        ),
    }
}

/// The transition for `STOR`: a client path with a parent-directory
/// component is rejected outright, then an open data channel is required,
/// and the upload target is the client path under the working directory.
pub open spec fn spec_stor(s: SessionV, path: Seq<char>) -> (SessionV, ReplyV) {
    if has_dotdot(path) {
        (
            s,
            ReplyV::Answer(
                AnswerV { code: ResultCode::FileNotFound, message: "Permission denied"@ },
            ),
        )
    } else if !s.data_open {
        (
            s,
            ReplyV::Answer(
                AnswerV {
                    code: ResultCode::ConnectionClosed,
                    message: "No opened data connection"@,
                },
            ),
        )
    } else {
        (
            s,
            ReplyV::StoreFile {
                target: s.server_root + join_virtual(s.cwd, path),
                first: AnswerV {
                    code: ResultCode::DataConnectionAlreadyOpen,
                    message: "Starting to send file..."@,
                },
            },
        )
    }
}

/// The transition for `MKD`: the parent of the target must exist inside
/// the sandbox; the new directory's name is the target's base name.
pub open spec fn spec_mkd(s: SessionV, path: Seq<char>) -> (SessionV, ReplyV) {
    let vpath = join_virtual(s.cwd, path);
    match (spec_parent(vpath), spec_filename(vpath)) {
        (Some(par), Some(fname)) => (
            s,
            ReplyV::ResolveMkd { parent_target: s.server_root + par, filename: fname },
        ),
        _ => (
            s,
            ReplyV::Answer(
                AnswerV { code: ResultCode::FileNotFound, message: "Couldn't create folder"@ },
            ),
        ),
    }
}

/// The transition for `PASV`: an open data channel is left untouched,
/// otherwise a listener is bound on the port a prior `PORT` recorded, or
/// an ephemeral one.
pub open spec fn spec_pasv(s: SessionV) -> (SessionV, ReplyV) {
    if s.data_open {
        (
            s,
            ReplyV::Answer(
                AnswerV {
                    code: ResultCode::DataConnectionAlreadyOpen,
                    message: "Already listening..."@,
                },
            ),
        )
    } else {
        (
            s,
            ReplyV::PasvBind {
                port: (match s.data_port {
                    Some(p) => p,
                    None => 0,
                }),
            },
        )
    }
}

/// The parent of the working directory, clamped at the virtual root.
pub open spec fn parent_or_root(cwd: Seq<char>) -> Seq<char> {
    match spec_parent(cwd) {
        Some(p) => p,
        None => cwd,
    }
}

/// The dispatch table: what one command does to the session and what the
/// caller must do next, as a function of the authentication phase.
pub open spec fn spec_dispatch(s: SessionV, cmd: CommandV) -> (SessionV, ReplyV) {
    if s.is_logged() {
        match cmd {
            CommandV::Cwd(dir) => (
                s,
                ReplyV::ResolveCwd {
                    target: s.server_root + join_virtual(s.cwd, dir),
                    client: dir,
                },
            ),
            CommandV::List(p) => if s.data_open {
                (
                    s,
                    ReplyV::ResolveList {
                        target: s.server_root + join_virtual(
                            s.cwd,
                            (match p {
                                Some(q) => q,
                                None => Seq::<char>::empty(),
                            }),
                        ),
                    },
                )
            } else {
                (
                    s,
                    ReplyV::Answer(
                        AnswerV {
                            code: ResultCode::ConnectionClosed,
                            message: "No opened data connection"@,
                        },
                    ),
                )
            },
            CommandV::Pasv => spec_pasv(s),
            CommandV::Port(p) => (
                SessionV { data_port: Some(p), ..s },
                ReplyV::Answer(
                    AnswerV {
                        code: ResultCode::Okay,
                        message: "Data port is now "@ + dec_chars(p as nat),
                    },
                ),
            ),
            CommandV::Pwd => (
                s,
                ReplyV::Answer(
                    AnswerV {
                        code: ResultCode::PATHNAMECreated,
                        message: "\""@ + s.cwd + "\" "@,
                    },
                ),
            ),
            CommandV::Retr(path) => if s.data_open {
                (
                    s,
                    ReplyV::ResolveRetr {
                        target: s.server_root + join_virtual(s.cwd, path),
                        client: join_virtual(s.cwd, path),
                    },
                )
            } else {
                (
                    s,
                    ReplyV::Answer(
                        AnswerV {
                            code: ResultCode::ConnectionClosed,
                            message: "No opened data connection"@,
                        },
                    ),
                )
            },
            CommandV::Stor(path) => spec_stor(s, path),
            CommandV::CdUp => (
                SessionV { cwd: parent_or_root(s.cwd), ..s },
                ReplyV::Answer(AnswerV { code: ResultCode::Okay, message: "Done"@ }),
            ),
            CommandV::Mkd(path) => spec_mkd(s, path),
            CommandV::Rmd(path) => (
                s,
                ReplyV::ResolveRmd { target: s.server_root + join_virtual(s.cwd, path) },
            ),
            _ => spec_shared(s, cmd),
        }
    } else if s.name is Some && s.waiting_password {
        match cmd {
            CommandV::Pass(pw) => spec_pass(s, pw),
            _ => spec_shared(s, cmd),
        }
    } else {
        spec_shared(s, cmd)
    }
}

/// The transition applied when the resolved `CWD` target comes back: a
/// canonical path under the root becomes the new working directory; any
/// other outcome leaves the session unchanged.
pub open spec fn spec_cwd_apply(s: SessionV, client: Seq<char>, canon: Option<Seq<char>>) -> (
    SessionV,
    AnswerV,
) {
    match canon {
        Some(c) => if is_path_prefix(s.server_root, c) {
            (
                SessionV { cwd: spec_strip_root(s.server_root, c), ..s },
                AnswerV {
                    code: ResultCode::RequestedFileActionOkay,
                    message: "Directory changed to \""@ + client + "\""@,
                },
            )
        } else {
            (
                s,
                AnswerV {
                    code: ResultCode::FileNotFound,
                    message: "No such file or directory"@,
                },
            )
        },
        None => (
            s,
            AnswerV { code: ResultCode::FileNotFound, message: "No such file or directory"@ },
        ),
    }
}

impl Session {
    /// A fresh session at the virtual root, not authenticated, with no
    /// data channel.
    pub fn new(server_root: String, config: Config) -> (s: Session)
        requires
            server_root@.len() > 0,
            server_root@.last() != '/',
        ensures
            s@ == (SessionV {
                cwd: "/"@,
                server_root: server_root@,
                name: None,
                is_admin: false,
                waiting_password: false,
                transfer_type: TransferType::Ascii,
                data_port: None,
                data_open: false,
                closed: false,
                config: config@,
            }),
            s@.inv(),
    {
        let s = Session {
            cwd: "/".to_owned(),
            server_root,
            name: None,
            is_admin: false,
            waiting_password: false,
            transfer_type: TransferType::Ascii,
            data_port: None,
            data_open: false,
            closed: false,
            config,
        };
        proof {
            reveal_strlit("/");
            assert(s@.cwd =~= seq!['/']);
        }
        s
    }

    /// Whether the session has completed authentication.
    pub fn is_logged(&self) -> (r: bool)
        ensures
            r == self@.is_logged(),
    {
        self.name.is_some() && !self.waiting_password
    }

    /// Forget the data channel.
    pub fn close_data_connection(&mut self)
        ensures
            final(self)@ == (SessionV { data_open: false, ..old(self)@ }),
    {
        self.data_open = false;
    }

    /// Record that the passive listener accepted its one connection.
    pub fn data_connected(&mut self)
        ensures
            final(self)@ == (SessionV { data_open: true, ..old(self)@ }),
    {
        self.data_open = true;
    }

    /// Close the data channel after a listing or transfer and report that
    /// the transfer is done.
    pub fn data_done(&mut self) -> (a: Answer)
        ensures
            final(self)@ == (SessionV { data_open: false, ..old(self)@ }),
            a@ == (AnswerV { code: ResultCode::ClosingDataConnection, message: "Transfer done"@ }),
    {
        self.data_open = false;
        Answer::new(ResultCode::ClosingDataConnection, "Transfer done")
    }

    /// Close the data channel after an upload and report success or a
    /// local write failure.
    pub fn stor_finish(&mut self, ok: bool) -> (a: Answer)
        ensures
            final(self)@ == (SessionV { data_open: false, ..old(self)@ }),
            ok ==> a@ == (AnswerV {
                code: ResultCode::ClosingDataConnection,
                message: "Transfer done"@,
            }),
            !ok ==> a@ == (AnswerV {
                code: ResultCode::LocalErrorInProcessing,
                message: "Couldn't write file"@,
            }),
    {
        self.data_open = false;
        if ok {
            Answer::new(ResultCode::ClosingDataConnection, "Transfer done")
        } else {
            Answer::new(ResultCode::LocalErrorInProcessing, "Couldn't write file")
        }
    }

    /// The reply for entering passive mode on the given bound port.
    pub fn pasv_entering(port: u16) -> (a: Answer)
        ensures
            a@ == (AnswerV {
                code: ResultCode::EnteringPassiveMode,
                message: "127,0,0,1,"@ + dec_chars((port / 256) as nat) + ","@ + dec_chars(
                    (port % 256) as nat,
                ),
            }),
    {
        let mut msg = "127,0,0,1,".to_owned();
        push_dec_chars(&mut msg, (port / 256) as u64);
        msg.append(",");
        push_dec_chars(&mut msg, (port % 256) as u64);
        let a = Answer::new(ResultCode::EnteringPassiveMode, msg.as_str());
        proof {
            assert(a@.message =~= "127,0,0,1,"@ + dec_chars((port / 256) as nat) + ","@
                + dec_chars((port % 256) as nat));
        }
        a
    }
}

/// View of an optional borrowed path.
pub open spec fn opt_str_view(c: Option<&str>) -> Option<Seq<char>> {
    match c {
        Some(s) => Some(s@),
        None => None,
    }
}

/// `find_user` finds exactly the first user whose name matches: none when
/// the first `k` names all differ and `k` is the whole list, the one at
/// `k` when the first `k` names differ and the one at `k` matches.
proof fn lemma_find_user_at(users: Seq<UserV>, name: Seq<char>, k: int)
    requires
        0 <= k <= users.len(),
        forall|j: int| 0 <= j < k ==> (#[trigger] users[j]).name != name,
        k < users.len() ==> users[k].name == name,
    ensures
        k == users.len() ==> find_user(users, name) is None,
        k < users.len() ==> find_user(users, name) == Some(users[k]),
    decreases users.len(),
{
    if users.len() == 0 {
    } else if users[0].name == name {
        assert(k == 0);
    } else {
        assert(k >= 1);
        assert(forall|j: int|
            0 <= j < users.drop_first().len() ==> #[trigger] users.drop_first()[j] == users[j + 1]);
        lemma_find_user_at(users.drop_first(), name, k - 1);
    }
}

/// Find the index of the first configured user with this name.
fn find_user_index(users: &Vec<User>, name: &String) -> (r: Option<usize>)
    ensures
        (match r {
            Some(i) => i < users@.len() && find_user(users_view(users@), name@) == Some(
                users@[i as int]@,
            ) && users@[i as int]@.name == name@,
            None => find_user(users_view(users@), name@) is None,
        }),
{
    let n = users.len();
    let mut i: usize = 0;
    while i < n
        invariant
            n == users@.len(),
            i <= n,
            forall|j: int| 0 <= j < i ==> (#[trigger] users_view(users@)[j]).name != name@,
        decreases n - i,
    {
        proof {
            assert(users_view(users@)[i as int] == users@[i as int]@);
        }
        if users[i].name == *name {
            proof {
                lemma_find_user_at(users_view(users@), name@, i as int);
            }
            return Some(i);
        }
        i += 1;
    }
    proof {
        lemma_find_user_at(users_view(users@), name@, n as int);
    }
    None
}

/// Whether some configured user carries this name and password.
fn pass_in_users(users: &Vec<User>, name: &String, password: &String) -> (r: bool)
    ensures
        r == pass_matches(users_view(users@), name@, password@),
{
    let n = users.len();
    let mut i: usize = 0;
    while i < n
        invariant
            n == users@.len(),
            i <= n,
            forall|j: int|
                0 <= j < i ==> !((#[trigger] users_view(users@)[j]).name == name@ && users_view(
                    users@,
                )[j].password == password@),
        decreases n - i,
    {
        proof {
            assert(users_view(users@)[i as int] == users@[i as int]@);
        }
        if users[i].name == *name && users[i].password == *password {
            return true;
        }
        i += 1;
    }
    false
}

/// The parent of a virtual path is itself a virtual path.
proof fn lemma_parent_keeps_slash(p: Seq<char>)
    requires
        starts_with_slash(p),
    ensures
        starts_with_slash(parent_or_root(p)),
{
    crate::paths::lemma_last_slash(p);
    match spec_parent(p) {
        Some(q) => {
            if crate::paths::last_slash(p) >= 1 {
                assert(q[0] == p[0]);
            }
        },
        None => {},
    }
}

/// Every dispatch step preserves session well-formedness.
pub proof fn lemma_dispatch_preserves_inv(s: SessionV, cmd: CommandV)
    requires
        s.inv(),
    ensures
        spec_dispatch(s, cmd).0.inv(),
{
    if s.is_logged() {
        match cmd {
            CommandV::CdUp => {
                lemma_parent_keeps_slash(s.cwd);
            },
            _ => {},
        }
    }
}

impl Session {
    /// Handle the commands shared by every authentication phase.
    fn handle_shared(&mut self, cmd: Command) -> (r: Reply)
        requires
            old(self)@.inv(),
        ensures
            final(self)@ == spec_shared(old(self)@, cmd@).0,
            r@ == spec_shared(old(self)@, cmd@).1,
            final(self)@.inv(),
    {
        match cmd {
            Command::Auth => Reply::Answer(
                Answer::new(ResultCode::CommandNotImplemented, "Not implemented"),
            ),
            Command::Quit => {
                self.closed = true;
                self.data_open = false;
                Reply::Close(
                    Answer::new(
                        ResultCode::ServiceClosingControlConnection,
                        "Closing connection...",
                    ),
                )
            },
            Command::Syst => Reply::Answer(Answer::new(ResultCode::Okay, "I won't tell!")),
            Command::Type(t) => {
                if self.is_logged() {
                    self.transfer_type = t;
                    Reply::Answer(
                        Answer::new(ResultCode::Okay, "Transfer type changed successfully"),
                    )
                } else {
                    Reply::Answer(Answer::new(ResultCode::NotLoggedIn, "Please log first"))
                }
            },
            Command::User(content) => self.handle_user(content),
            Command::NoOp => Reply::Answer(Answer::new(ResultCode::Okay, "Doing nothing")),
            Command::Unknown(kw) => {
                let mut msg = "\"".to_owned();
                msg.append(kw.as_str());
                msg.append("\": Not implemented");
                Reply::Answer(Answer::new(ResultCode::UnknownCommand, msg.as_str()))
            },
            _ => Reply::Answer(Answer::new(ResultCode::NotLoggedIn, "Please log first")),
        }
    }

    /// Handle `USER`: look the name up and either log in at once or await
    /// the password.
    fn handle_user(&mut self, content: String) -> (r: Reply)
        requires
            old(self)@.inv(),
        ensures
            final(self)@ == spec_user(old(self)@, content@).0,
            r@ == spec_user(old(self)@, content@).1,
            final(self)@.inv(),
    {
        if content.as_str().is_empty() {
            return Reply::Answer(
                Answer::new(ResultCode::InvalidParameterOrArgument, "Invalid username"),
            );
        }
        let admin_matches = match &self.config.admin {
            Some(a) => a.name == content,
            None => false,
        };
        if admin_matches {
            let pass_empty = match &self.config.admin {
                Some(a) => a.password.as_str().is_empty(),
                None => false,
            };
            self.is_admin = true;
            if pass_empty {
                self.waiting_password = false;
                let mut msg = "Welcome ".to_owned();
                msg.append(content.as_str());
                msg.append("!");
                let a = Answer::new(ResultCode::UserLoggedIn, msg.as_str());
                self.name = Some(content);
                Reply::Answer(a)
            } else {
                self.waiting_password = true;
                let mut msg = "Login OK, password needed for ".to_owned();
                msg.append(content.as_str());
                let a = Answer::new(ResultCode::UserNameOkayNeedPassword, msg.as_str());
                self.name = Some(content);
                Reply::Answer(a)
            }
        } else {
            self.is_admin = false;
            match find_user_index(&self.config.users, &content) {
                Some(i) => {
                    let pass_empty = self.config.users[i].password.as_str().is_empty();
                    if pass_empty {
                        self.waiting_password = false;
                        let mut msg = "Welcome ".to_owned();
                        msg.append(content.as_str());
                        msg.append("!");
                        let a = Answer::new(ResultCode::UserLoggedIn, msg.as_str());
                        self.name = Some(content);
                        Reply::Answer(a)
                    } else {
                        self.waiting_password = true;
                        let mut msg = "Login OK, password needed for ".to_owned();
                        msg.append(content.as_str());
                        let a = Answer::new(ResultCode::UserNameOkayNeedPassword, msg.as_str());
                        self.name = Some(content);
                        Reply::Answer(a)
                    }
                },
                None => Reply::Answer(Answer::new(ResultCode::NotLoggedIn, "Unknown user...")),
            }
        }
    }

    /// Handle `PASS` while a password is awaited.
    fn handle_pass(&mut self, content: String) -> (r: Reply)
        requires
            old(self)@.inv(),
            old(self)@.name is Some,
            old(self)@.waiting_password,
        ensures
            final(self)@ == spec_pass(old(self)@, content@).0,
            r@ == spec_pass(old(self)@, content@).1,
            final(self)@.inv(),
    {
        let ok = if self.is_admin {
            match &self.config.admin {
                Some(a) => a.password == content,
                None => false,
            }
        } else {
            match &self.name {
                Some(n) => pass_in_users(&self.config.users, n, &content),
                None => false,
            }
        };
        if ok {
            self.waiting_password = false;
            let mut msg = "Welcome ".to_owned();
            match &self.name {
                Some(n) => msg.append(n.as_str()),
                None => {},
            }
            Reply::Answer(Answer::new(ResultCode::UserLoggedIn, msg.as_str()))
        } else {
            Reply::Answer(Answer::new(ResultCode::NotLoggedIn, "Invalid password"))
        }
    }

    /// Handle `STOR`: reject parent-directory components outright, then
    /// require an open data channel.
    fn handle_stor(&mut self, path: String) -> (r: Reply)
        requires
            old(self)@.inv(),
        ensures
            final(self)@ == spec_stor(old(self)@, path@).0,
            r@ == spec_stor(old(self)@, path@).1,
            final(self)@.inv(),
    {
        if invalid_path(path.as_str()) {
            Reply::Answer(Answer::new(ResultCode::FileNotFound, "Permission denied"))
        } else if !self.data_open {
            Reply::Answer(Answer::new(ResultCode::ConnectionClosed, "No opened data connection"))
        } else {
            let vpath = join_paths(self.cwd.as_str(), path.as_str());
            let target = real_path(self.server_root.as_str(), vpath.as_str());
            Reply::StoreFile {
                target,
                first: Answer::new(
                    ResultCode::DataConnectionAlreadyOpen,
                    "Starting to send file...",
                ),
            }
        }
    }

    /// Handle `MKD`: resolve the parent of the target.
    fn handle_mkd(&mut self, path: String) -> (r: Reply)
        requires
            old(self)@.inv(),
        ensures
            final(self)@ == spec_mkd(old(self)@, path@).0,
            r@ == spec_mkd(old(self)@, path@).1,
            final(self)@.inv(),
    {
        let vpath = join_paths(self.cwd.as_str(), path.as_str());
        let parent = get_parent(vpath.as_str());
        let fname = get_filename(vpath.as_str());
        match (parent, fname) {
            (Some(par), Some(f)) => {
                let parent_target = real_path(self.server_root.as_str(), par.as_str());
                Reply::ResolveMkd { parent_target, filename: f }
            },
            _ => Reply::Answer(Answer::new(ResultCode::FileNotFound, "Couldn't create folder")),
        }
    }

    /// Dispatch one command: validate the authentication phase, apply the
    /// state transition, and say what the caller must do next.
    pub fn handle_command(&mut self, cmd: Command) -> (r: Reply)
        requires
            old(self)@.inv(),
            !old(self)@.closed,
        ensures
            final(self)@ == spec_dispatch(old(self)@, cmd@).0,
            r@ == spec_dispatch(old(self)@, cmd@).1,
            final(self)@.inv(),
    {
        proof {
            lemma_dispatch_preserves_inv(old(self)@, cmd@);
        }
        if self.is_logged() {
            match cmd {
                Command::Cwd(dir) => {
                    let vpath = join_paths(self.cwd.as_str(), dir.as_str());
                    let target = real_path(self.server_root.as_str(), vpath.as_str());
                    Reply::ResolveCwd { target, client: dir }
                },
                Command::List(p) => {
                    if self.data_open {
                        proof {
                            reveal_strlit("");
                            assert(""@ =~= Seq::<char>::empty());
                        }
                        let arg = match &p {
                            Some(q) => q.as_str(),
                            None => "",
                        };
                        let vpath = join_paths(self.cwd.as_str(), arg);
                        let target = real_path(self.server_root.as_str(), vpath.as_str());
                        Reply::ResolveList { target }
                    } else {
                        Reply::Answer(
                            Answer::new(ResultCode::ConnectionClosed, "No opened data connection"),
                        )
                    }
                },
                Command::Pasv => {
                    if self.data_open {
                        Reply::Answer(
                            Answer::new(
                                ResultCode::DataConnectionAlreadyOpen,
                                "Already listening...",
                            ),
                        )
                    } else {
                        let port = match self.data_port {
                            Some(p) => p,
                            None => 0,
                        };
                        Reply::PasvBind { port }
                    }
                },
                Command::Port(p) => {
                    self.data_port = Some(p);
                    let mut msg = "Data port is now ".to_owned();
                    push_dec_chars(&mut msg, p as u64);
                    Reply::Answer(Answer::new(ResultCode::Okay, msg.as_str()))
                },
                Command::Pwd => {
                    let mut msg = "\"".to_owned();
                    msg.append(self.cwd.as_str());
                    msg.append("\" ");
                    Reply::Answer(Answer::new(ResultCode::PATHNAMECreated, msg.as_str()))
                },
                Command::Retr(path) => {
                    if self.data_open {
                        let vpath = join_paths(self.cwd.as_str(), path.as_str());
                        let target = real_path(self.server_root.as_str(), vpath.as_str());
                        Reply::ResolveRetr { target, client: vpath }
                    } else {
                        Reply::Answer(
                            Answer::new(ResultCode::ConnectionClosed, "No opened data connection"),
                        )
                    }
                },
                Command::Stor(path) => self.handle_stor(path),
                Command::CdUp => {
                    match get_parent(self.cwd.as_str()) {
                        Some(p) => {
                            self.cwd = p;
                        },
                        None => {},
                    }
                    Reply::Answer(Answer::new(ResultCode::Okay, "Done"))
                },
                Command::Mkd(path) => self.handle_mkd(path),
                Command::Rmd(path) => {
                    let vpath = join_paths(self.cwd.as_str(), path.as_str());
                    let target = real_path(self.server_root.as_str(), vpath.as_str());
                    Reply::ResolveRmd { target }
                },
                c => self.handle_shared(c),
            }
        } else if self.name.is_some() && self.waiting_password {
            match cmd {
                Command::Pass(pw) => self.handle_pass(pw),
                c => self.handle_shared(c),
            }
        } else {
            self.handle_shared(cmd)
        }
    }

    /// Apply the resolved `CWD` target: only a canonical path under the
    /// server root becomes the new working directory.
    pub fn cwd_apply(&mut self, client: &str, canon: Option<&str>) -> (a: Answer)
        requires
            old(self)@.inv(),
        ensures
            final(self)@ == spec_cwd_apply(old(self)@, client@, opt_str_view(canon)).0,
            a@ == spec_cwd_apply(old(self)@, client@, opt_str_view(canon)).1,
            final(self)@.inv(),
    {
        match canon {
            Some(c) => {
                if path_starts_with(c, self.server_root.as_str()) {
                    let newc = strip_root(c, self.server_root.as_str());
                    proof {
                        reveal_strlit("/");
                        if c@.len() > self@.server_root.len() {
                            assert(newc@[0] == c@[self@.server_root.len() as int]);
                        } else {
                            assert(newc@ =~= seq!['/']);
                        }
                    }
                    self.cwd = newc;
                    let mut msg = "Directory changed to \"".to_owned();
                    msg.append(client);
                    msg.append("\"");
                    Answer::new(ResultCode::RequestedFileActionOkay, msg.as_str())
                } else {
                    Answer::new(ResultCode::FileNotFound, "No such file or directory")
                }
            },
            None => Answer::new(ResultCode::FileNotFound, "No such file or directory"),
        }
    }
}

/// The outcome of resolving a `LIST` target.
#[derive(Clone, Debug, PartialEq, Eq)]
pub enum ListStep {
    /// Send this reply; nothing goes over the data channel.
    Deny(Answer),
    /// Send this reply, then the formatted entries over the data channel.
    Send(Answer),
}

/// The outcome of resolving a `RETR` target.
#[derive(Clone, Debug, PartialEq, Eq)]
pub enum RetrStep {
    /// Send `first`; nothing goes over the data channel.
    Deny { first: Answer },
    /// Send `first`, then the contents of the file at `target` over the
    /// data channel.
    Send { target: String, first: Answer },
}

/// The reply naming a path that could not be retrieved.
pub fn retr_error_answer(path: &str) -> (a: Answer)
    ensures
        a@ == (AnswerV {
            code: ResultCode::LocalErrorInProcessing,
            message: "\""@ + path@ + "\" doesn't exist"@,
        }),
{
    let mut msg = "\"".to_owned();
    msg.append(path);
    msg.append("\" doesn't exist");
    Answer::new(ResultCode::LocalErrorInProcessing, msg.as_str())
}

impl Session {
    /// Apply the resolved `LIST` target: only a canonical path under the
    /// server root is listed.
    pub fn list_apply(&self, canon: Option<&str>) -> (r: ListStep)
        ensures
            ({
                let ok = match opt_str_view(canon) {
                    Some(c) => is_path_prefix(self@.server_root, c),
                    None => false,
                };
                if ok {
                    r matches ListStep::Send(a) && a@ == (AnswerV {
                        code: ResultCode::DataConnectionAlreadyOpen,
                        message: "Starting to list directory..."@,
                    })
                } else {
                    r matches ListStep::Deny(a) && a@ == (AnswerV {
                        code: ResultCode::InvalidParameterOrArgument,
                        message: "No such file or directory"@,
                    })
                }
            }),
    {
        match canon {
            Some(c) => {
                if path_starts_with(c, self.server_root.as_str()) {
                    ListStep::Send(
                        Answer::new(
                            ResultCode::DataConnectionAlreadyOpen,
                            "Starting to list directory...",
                        ),
                    )
                } else {
                    ListStep::Deny(
                        Answer::new(
                            ResultCode::InvalidParameterOrArgument,
                            "No such file or directory",
                        ),
                    )
                }
            },
            None => ListStep::Deny(
                Answer::new(ResultCode::InvalidParameterOrArgument, "No such file or directory"),
            ),
        }
    }

    /// Whether a listing may show this resolved entry: the configuration
    /// file is hidden from everyone but the admin.
    pub fn is_entry_listed(&self, entry_path: &str) -> (r: bool)
        ensures
            r == (self@.is_admin || entry_path@ != self@.server_root + config_file_vpath()),
    {
        if self.is_admin {
            return true;
        }
        let cfg = real_path(self.server_root.as_str(), "/config.toml");
        let entry = entry_path.to_owned();
        !(entry == cfg)
    }

    /// Apply the resolved `RETR` target: only an existing regular file
    /// under the server root is sent, and the configuration file only to
    /// the admin.
    pub fn retr_apply(&self, client: &str, canon: Option<&str>, is_file: bool) -> (r: RetrStep)
        ensures
            ({
                let ok = match opt_str_view(canon) {
                    Some(c) => is_path_prefix(self@.server_root, c) && is_file && (self@.is_admin
                        || c != self@.server_root + config_file_vpath()),
                    None => false,
                };
                if ok {
                    r matches RetrStep::Send { target, first } && opt_str_view(canon) == Some(
                        target@,
                    ) && first@ == (AnswerV {
                        code: ResultCode::DataConnectionAlreadyOpen,
                        message: "Starting to send file..."@,
                    })
                } else {
                    r matches RetrStep::Deny { first } && first@ == (AnswerV {
                        code: ResultCode::LocalErrorInProcessing,
                        message: "\""@ + client@ + "\" doesn't exist"@,
                    })
                }
            }),
    {
        match canon {
            Some(c) => {
                if path_starts_with(c, self.server_root.as_str()) && is_file
                    && self.is_entry_listed(c) {
                    RetrStep::Send {
                        target: c.to_owned(),
                        first: Answer::new(
                            ResultCode::DataConnectionAlreadyOpen,
                            "Starting to send file...",
                        ),
                    }
                } else {
                    RetrStep::Deny { first: retr_error_answer(client) }
                }
            },
            None => RetrStep::Deny { first: retr_error_answer(client) },
        }
    }

    /// Apply the resolved `MKD` parent: only an existing directory under
    /// the server root may receive the new folder, whose real path is
    /// returned.
    pub fn mkd_apply(&self, canon: Option<&str>, is_dir: bool, filename: &str) -> (r: Option<
        String,
    >)
        ensures
            ({
                let ok = match opt_str_view(canon) {
                    Some(c) => is_path_prefix(self@.server_root, c) && is_dir,
                    None => false,
                };
                if ok {
                    r matches Some(t) && Some(t@) == (match opt_str_view(canon) {
                        Some(c) => Some(c + "/"@ + filename@),
                        None => None,
                    })
                } else {
                    r is None
                }
            }),
    {
        match canon {
            Some(c) => {
                if path_starts_with(c, self.server_root.as_str()) && is_dir {
                    let mut t = c.to_owned();
                    t.append("/");
                    t.append(filename);
                    Some(t)
                } else {
                    None
                }
            },
            None => None,
        }
    }

    /// The reply after attempting to create the folder.
    pub fn mkd_answer(created: bool) -> (a: Answer)
        ensures
            created ==> a@ == (AnswerV {
                code: ResultCode::PATHNAMECreated,
                message: "Folder successfully created!"@,
            }),
            !created ==> a@ == (AnswerV {
                code: ResultCode::FileNotFound,
                message: "Couldn't create folder"@,
            }),
    {
        if created {
            Answer::new(ResultCode::PATHNAMECreated, "Folder successfully created!")
        } else {
            Answer::new(ResultCode::FileNotFound, "Couldn't create folder")
        }
    }

    /// Apply the resolved `RMD` target: only a canonical path under the
    /// server root may be removed.
    pub fn rmd_apply(&self, canon: Option<&str>) -> (r: Option<String>)
        ensures
            ({
                let ok = match opt_str_view(canon) {
                    Some(c) => is_path_prefix(self@.server_root, c),
                    None => false,
                };
                if ok {
                    r matches Some(t) && opt_str_view(canon) == Some(t@)
                } else {
                    r is None
                }
            }),
    {
        match canon {
            Some(c) => {
                if path_starts_with(c, self.server_root.as_str()) {
                    Some(c.to_owned())
                } else {
                    None
                }
            },
            None => None,
        }
    }

    /// The reply after attempting to remove the folder.
    pub fn rmd_answer(removed: bool) -> (a: Answer)
        ensures
            removed ==> a@ == (AnswerV {
                code: ResultCode::RequestedFileActionOkay,
                message: "Folder successfully removed"@,
            }),
            !removed ==> a@ == (AnswerV {
                code: ResultCode::FileNotFound,
                message: "Couldn't remove folder"@,
            }),
    {
        if removed {
            Answer::new(ResultCode::RequestedFileActionOkay, "Folder successfully removed")
        } else {
            Answer::new(ResultCode::FileNotFound, "Couldn't remove folder")
        }
    }
}

/// Issuing `NOOP` in any session state changes nothing and always replies
/// 200; since the state is returned unchanged, this holds for any number
/// of repetitions.
pub proof fn lemma_noop_idempotent(s: SessionV)
    ensures
        spec_dispatch(s, CommandV::NoOp).0 == s,
        spec_dispatch(s, CommandV::NoOp).1 == ReplyV::Answer(
            AnswerV { code: ResultCode::Okay, message: "Doing nothing"@ },
        ),
{
}

/// The working directory never escapes the sandbox: a directory change
/// accepts only a canonical path lying under the server root, and the new
/// working directory joined back onto the root reproduces that vetted
/// path (the root itself becomes the virtual root `/`). Together with
/// `lemma_dispatch_preserves_inv` this covers every reachable state: the
/// working directory starts at `/` and changes only here and by `CDUP`,
/// which moves to a parent.
pub proof fn lemma_working_dir_stays_within_root(s: SessionV, client: Seq<char>, c: Seq<char>)
    requires
        s.inv(),
        is_path_prefix(s.server_root, c),
    ensures
        ({
            let s2 = spec_cwd_apply(s, client, Some(c)).0;
            &&& s2.inv()
            &&& (c.len() == s.server_root.len() ==> s2.cwd == seq!['/'])
            &&& (c.len() > s.server_root.len() ==> s.server_root + s2.cwd == c)
            &&& is_path_prefix(s.server_root, s.server_root + s2.cwd)
        }),
{
    let s2 = spec_cwd_apply(s, client, Some(c)).0;
    let root = s.server_root;
    if c.len() == root.len() {
        assert(s2.cwd =~= seq!['/']);
        assert((root + s2.cwd).subrange(0, root.len() as int) =~= root);
        assert((root + s2.cwd)[root.len() as int] == '/');
    } else {
        assert(s2.cwd == c.subrange(root.len() as int, c.len() as int));
        assert(s2.cwd[0] == c[root.len() as int]);
        assert(root + s2.cwd =~= c);
    }
}

/// The session after a whole sequence of dispatched commands.
pub open spec fn run_commands(s: SessionV, cmds: Seq<CommandV>) -> SessionV
    decreases cmds.len(),
{
    if cmds.len() == 0 {
        s
    } else {
        run_commands(spec_dispatch(s, cmds[0]).0, cmds.drop_first())
    }
}

/// Every session reachable through the dispatch from a well-formed one is
/// well-formed; with `Session::new` establishing the invariant and every
/// `*_apply` function preserving it, all reachable session states keep
/// their working directory root-relative inside the sandbox.
pub proof fn lemma_reachable_sessions_well_formed(s: SessionV, cmds: Seq<CommandV>)
    requires
        s.inv(),
    ensures
        run_commands(s, cmds).inv(),
    decreases cmds.len(),
{
    if cmds.len() > 0 {
        lemma_dispatch_preserves_inv(s, cmds[0]);
        lemma_reachable_sessions_well_formed(spec_dispatch(s, cmds[0]).0, cmds.drop_first());
    }
}

/// Issuing `NOOP` any number of times changes no session state.
pub proof fn lemma_noop_any_number(s: SessionV, n: nat)
    ensures
        run_commands(s, Seq::new(n, |i: int| CommandV::NoOp)) == s,
    decreases n,
{
    if n > 0 {
        let cmds = Seq::new(n, |i: int| CommandV::NoOp);
        lemma_noop_idempotent(s);
        assert(cmds.drop_first() =~= Seq::new((n - 1) as nat, |i: int| CommandV::NoOp));
        lemma_noop_any_number(s, (n - 1) as nat);
    }
}

} // verus!
