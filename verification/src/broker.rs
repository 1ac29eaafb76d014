//! Configuration of the broker, and the expansion of the command it runs
//! for each user.

use vstd::prelude::*;

verus! {

/// TLS configuration of the broker.
#[derive(Debug, Clone)]
pub struct Tls {
    pub server_name: String,
    pub ca_file: String,
    pub crl_file: Option<String>,
    pub ocsp_file: Option<String>,
    pub auth_cert: String,
    pub auth_key: String,
    /// Domains whose clients are authenticated.
    pub allowed_client_domains: Option<Vec<String>>,
}

/// A command line.
#[derive(Debug, Clone)]
pub struct Command {
    pub command_bin: String,
    pub command_args: Vec<String>,
}

/// Commands run on events.
#[derive(Debug, Clone)]
pub struct CmdCallBack {
    /// Run when a user connects.
    pub on_connect: Command,
}

/// Authentication mechanism of the broker.
#[derive(Debug, Clone)]
pub enum AuthType {
    /// Kerberos, with the realms that are allowed.
    Kerberos(Vec<String>),
    /// PAM, with the name of the PAM service.
    Pam(String),
}

/// Broker configuration.
#[derive(Debug, Clone)]
pub struct Config {
    pub tls: Tls,
    pub auth_type: Option<AuthType>,
    pub cmd_callback: CmdCallBack,
}

/// Token of a command line that stands for the user name.
pub const TOKEN_USERNAME: &'static str = "%USERNAME%";

/// Token of a command line that stands for the client address.
pub const TOKEN_CLIENT_ADDR: &'static str = "%CLIENT_ADDR%";

/// Token of a command line that stands for the path of the unix socket.
pub const TOKEN_UNIX_SOCKET_PATH: &'static str = "%UNIX_SOCK_PATH%";

/// `args`, with each argument equal to `needle` replaced by `new_str`.
pub fn replace_source(args: &[String], needle: &str, new_str: &str) -> (res: Vec<String>)
    ensures
        res@.len() == args@.len(),
        forall|i: int|
            0 <= i < args@.len() ==> #[trigger] res@[i]@ == (if args@[i]@ == needle@ {
                new_str@
            } else {
                args@[i]@
            }),
{
    let needle_s = needle.to_owned();
    let mut res: Vec<String> = Vec::new();
    let mut i: usize = 0;
    while i < args.len()
        invariant
            i <= args@.len(),
            needle_s@ == needle@,
            res@.len() == i,
            forall|j: int|
                0 <= j < i ==> #[trigger] res@[j]@ == (if args@[j]@ == needle@ {
                    new_str@
                } else {
                    args@[j]@
                }),
        decreases args@.len() - i,
    {
        if args[i] == needle_s {
            res.push(new_str.to_owned());
        } else {
            res.push(args[i].clone());
        }
        i = i + 1;
    }
    res
}

/// `arg` with `needle` replaced by `new_str` when it is exactly `needle`.
pub open spec fn replaced(arg: Seq<char>, needle: Seq<char>, new_str: Seq<char>) -> Seq<char> {
    if arg == needle {
        new_str
    } else {
        arg
    }
}

/// The arguments of the command run when a user connects: the tokens that
/// stand for the user name, the client address and the unix socket path
/// are replaced, in that order, in each argument that is exactly a token.
pub fn callback_args(command_args: &[String], username: &str, client_addr: &str, socket_path: &str) -> (args:
    Vec<String>)
    ensures
        args@.len() == command_args@.len(),
        forall|i: int|
            0 <= i < command_args@.len() ==> #[trigger] args@[i]@ == replaced(
                replaced(
                    replaced(command_args@[i]@, TOKEN_USERNAME@, username@),
                    TOKEN_CLIENT_ADDR@,
                    client_addr@,
                ),
                TOKEN_UNIX_SOCKET_PATH@,
                socket_path@,
            ),
{
    let a1 = replace_source(command_args, TOKEN_USERNAME, username);
    let a2 = replace_source(a1.as_slice(), TOKEN_CLIENT_ADDR, client_addr);
    let a3 = replace_source(a2.as_slice(), TOKEN_UNIX_SOCKET_PATH, socket_path);
    assert forall|i: int| 0 <= i < command_args@.len() implies #[trigger] a3@[i]@ == replaced(
        replaced(replaced(command_args@[i]@, TOKEN_USERNAME@, username@), TOKEN_CLIENT_ADDR@, client_addr@),
        TOKEN_UNIX_SOCKET_PATH@,
        socket_path@,
    ) by {
        assert(a1@[i]@ == replaced(command_args@[i]@, TOKEN_USERNAME@, username@));
        assert(a2@[i]@ == replaced(a1@[i]@, TOKEN_CLIENT_ADDR@, client_addr@));
    }
    a3
}

/// The user that the second step of the broker's authentication names, by
/// the mechanism of `AuthType`.
#[derive(Debug)]
pub enum SecondFactor {
    /// No second step is configured.
    Skipped,
    /// Kerberos authenticated this user.
    Kerberos(String),
    /// PAM authenticated this user.
    Pam(String),
}

/// Why the broker refuses a user once both steps are done.
#[derive(Debug, Clone, Copy, PartialEq, Eq)]
pub enum UserError {
    /// The certificate and Kerberos name different users.
    UsernameMismatch,
    /// Neither step names a user.
    NoUsername,
}

/// The user that the broker serves, from the user of the client
/// certificate (when certificates are checked) and the second step: the
/// Kerberos user must be the certificate's, when there is one; the PAM user
/// is taken as it is; with no second step the certificate's user stands.
pub fn authenticated_user(tls_user: Option<String>, second: SecondFactor) -> (res: Result<String, UserError>)
    ensures
        match second {
            SecondFactor::Kerberos(k) => match tls_user {
                Some(t) => if t@ == k@ {
                    res matches Ok(u) && u@ == k@
                } else {
                    res == Err::<String, UserError>(UserError::UsernameMismatch)
                },
                None => res matches Ok(u) && u@ == k@,
            },
            SecondFactor::Pam(p) => res matches Ok(u) && u@ == p@,
            SecondFactor::Skipped => match tls_user {
                Some(t) => res matches Ok(u) && u@ == t@,
                None => res == Err::<String, UserError>(UserError::NoUsername),
            },
        },
{
    match second {
        SecondFactor::Kerberos(k) => {
            match tls_user {
                Some(t) => {
                    if t == k {
                        Ok(k)
                    } else {
                        Err(UserError::UsernameMismatch)
                    }
                },
                None => Ok(k),
            }
        },
        SecondFactor::Pam(p) => Ok(p),
        SecondFactor::Skipped => {
            match tls_user {
                Some(t) => Ok(t),
                None => Err(UserError::NoUsername),
            }
        },
    }
}

} // verus!
