//! The server configuration: bind address and port, an optional admin
//! credential, and the regular-user credential list. It is loaded once at
//! startup and only read afterwards.

use vstd::prelude::*;

verus! {

/// The port the server binds when the configuration names none.
pub const DEFAULT_PORT: u16 = 1234;

/// One credential: a user name and its password; an empty password means
/// that no password is required.
#[derive(Clone, Debug, PartialEq, Eq)]
pub struct User {
    pub name: String,
    pub password: String,
}

/// Mathematical view of a [`User`].
pub struct UserV {
    pub name: Seq<char>,
    pub password: Seq<char>,
}

impl View for User {
    type V = UserV;

    open spec fn view(&self) -> UserV {
        UserV { name: self.name@, password: self.password@ }
    }
}

/// The views of a sequence of users.
pub open spec fn users_view(s: Seq<User>) -> Seq<UserV> {
    s.map_values(|u: User| u@)
}

/// The server configuration.
#[derive(Clone, Debug, PartialEq, Eq)]
pub struct Config {
    pub server_port: Option<u16>,
    pub server_addr: Option<String>,
    pub admin: Option<User>,
    pub users: Vec<User>,
}

/// Mathematical view of a [`Config`].
pub struct ConfigV {
    pub server_port: Option<u16>,
    pub server_addr: Option<Seq<char>>,
    pub admin: Option<UserV>,
    pub users: Seq<UserV>,
}

impl View for Config {
    type V = ConfigV;

    open spec fn view(&self) -> ConfigV {
        ConfigV {
            server_port: self.server_port,
            server_addr: (match &self.server_addr {
                Some(a) => Some(a@),
                None => None,
            }),
            admin: (match &self.admin {
                Some(u) => Some(u@),
                None => None,
            }),
            users: users_view(self.users@),
        }
    }
}

impl Default for Config {
    /// The configuration written when none is found: one anonymous,
    /// passwordless user on the loopback address and the default port.
    fn default() -> (c: Config)
        ensures
            c@.server_port == Some(DEFAULT_PORT),
            c@.server_addr == Some("127.0.0.1"@),
            c@.admin is None,
            c@.users.len() == 1,
            c@.users[0].name == "anonymous"@,
            c@.users[0].password == ""@,
    {
        let mut users: Vec<User> = Vec::new();
        users.push(User { name: "anonymous".to_owned(), password: "".to_owned() });
        let c = Config {
            server_port: Some(DEFAULT_PORT),
            server_addr: Some("127.0.0.1".to_owned()),
            admin: None,
            users,
        };
        proof {
            assert(c@.users =~= seq![UserV { name: "anonymous"@, password: ""@ }]);
        }
        c
    }
}

} // verus!
