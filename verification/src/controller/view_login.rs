use vstd::prelude::*;
use vstd::string::StringExecFns;


verus! {

/// What a line typed at the login prompt gives: a message back, or a login.
#[derive(Debug)]
pub enum LoginResult {
    Msg { msg: String },
    Login { login: String },
}

pub open spec fn invalid_login_text(input: Seq<char>) -> Seq<char> {
    "invalid login "@ + input + "\n\nlogin: "@
}

/// A line of more than three bytes (`len`) is a login; a shorter one is refused with a
/// message.
pub fn handle(input: &str) -> (r: LoginResult)
    ensures
        input.len() > 3 ==> (r matches LoginResult::Login { login } && login@ == input@),
        input.len() <= 3 ==> (r matches LoginResult::Msg { msg } && msg@ == invalid_login_text(input@)),
{
    if input.len() > 3 {
        LoginResult::Login { login: String::from_str(input) }
    } else {
        let mut msg = String::from_str("invalid login ");
        msg.append(input);
        msg.append("\n\nlogin: ");
        LoginResult::Msg { msg }
    }
}

pub open spec fn login_success_text(login: Seq<char>) -> Seq<char> {
    "login success, welcome back "@ + login + "\n\n"@
}

pub fn on_login_success(login: &str) -> (r: String)
    ensures
        r@ == login_success_text(login@),
{
    let mut msg = String::from_str("login success, welcome back ");
    msg.append(login);
    msg.append("\n\n");
    msg
}

pub open spec fn welcome_text() -> Seq<char> {
    "Welcome to MUD\n--------------\n\nlogin: "@
}

/// The greeting of the login prompt.
pub fn handle_welcome() -> (r: String)
    ensures
        r@ == welcome_text(),
{
    String::from_str("Welcome to MUD\n--------------\n\nlogin: ")
}

} // verus!
