//! `login`: credentials for a registry, or a token for Hugging Face.

use vstd::prelude::*;

use crate::text;

verus! {

/// The arguments of `login`.
pub struct LoginArgs {
    /// The server; Docker Hub where none is given.
    pub server: Option<String>,
    pub username: Option<String>,
    pub password: Option<String>,
    /// The token for Hugging Face.
    pub token: Option<String>,
}

/// How a login goes on.
pub enum LoginPlan {
    /// With a token, which is asked for where it is not given.
    HuggingFace { token: Option<String> },
    /// With a name and a password, which is asked for where it is not given.
    Registry { username: String, password: Option<String> },
    /// Not at all: a registry needs a name.
    NoUsername,
}

/// The server of a login.
pub open spec fn server_name(args: LoginArgs) -> Seq<char> {
    match args.server {
        Some(s) => s@,
        None => "docker.io"@,
    }
}

/// The message where a name is missing.
pub const NO_USERNAME: &'static str = "--username is required to log in to a registry";

impl LoginArgs {
    /// The server of a login.
    pub fn server(&self) -> (r: String)
        ensures
            r@ == server_name(*self),
    {
        match &self.server {
            Some(s) => s.clone(),
            None => "docker.io".to_owned(),
        }
    }

    /// How a login goes on, given whether the server is one of Hugging Face.
    pub fn plan(&self, is_hf: bool) -> (r: LoginPlan)
        ensures
            match r {
                LoginPlan::HuggingFace { token } => is_hf && token == self.token,
                LoginPlan::Registry { username, password } => !is_hf && self.username == Some(
                    username,
                ) && password == self.password,
                LoginPlan::NoUsername => !is_hf && self.username is None,
            },
    {
        if is_hf {
            return LoginPlan::HuggingFace {
                token: match &self.token {
                    Some(t) => Some(t.clone()),
                    None => None,
                },
            };
        }
        match &self.username {
            None => LoginPlan::NoUsername,
            Some(u) => LoginPlan::Registry {
                username: u.clone(),
                password: match &self.password {
                    Some(p) => Some(p.clone()),
                    None => None,
                },
            },
        }
    }
}

/// The report of a login, with the user where the server told it.
pub fn login_report(server: &str, user: Option<&str>) -> (r: String)
    ensures
        r@ == "Login succeeded for "@ + server@ + match user {
            Some(u) => " (user: "@ + u@ + ")"@,
            None => Seq::empty(),
        },
{
    let mut s = "Login succeeded for ".to_owned();
    s.append(server);
    match user {
        Some(u) => {
            let mut note = " (user: ".to_owned();
            note.append(u);
            note.append(")");
            s.append(note.as_str());
        },
        None => {
            assert(s@ + Seq::<char>::empty() =~= s@);
        },
    }
    s
}

/// What was typed in a line, without the end of the line.
pub fn typed_line(line: &str) -> (r: String)
    ensures
        r@ == text::without_line_end(line@),
{
    text::trim_line_end(line)
}

} // verus!
