//! What the engine asks of the registry of users and applications, and of
//! the other services around it: the addresses, commands and messages it
//! hands out, and what it makes of their answers.

use vstd::prelude::*;
use vstd::string::*;
use crate::error::ErrorKind;
use crate::host::OctApp;
use crate::text::{decimal, push_decimal};

verus! {

/// The address of `path` at the registry that listens on `addr`.
pub fn orm_url(addr: &str, path: &str) -> (r: String)
    ensures
        r@ == "http://"@ + addr@ + path@,
{
    let mut out = "http://".to_owned();
    out.append(addr);
    out.append(path);
    out
}

/// The path that finds the user named `username`.
pub fn user_path(username: &str) -> (r: String)
    ensures
        r@ == "/user/?username="@ + username@,
{
    let mut out = "/user/?username=".to_owned();
    out.append(username);
    out
}

/// The path that finds the user with the token `token`.
pub fn user_by_token_path(token: &str) -> (r: String)
    ensures
        r@ == "/user/?token="@ + token@,
{
    let mut out = "/user/?token=".to_owned();
    out.append(token);
    out
}

/// The path that lists the applications of the user named `username`.
pub fn user_apps_path(username: &str) -> (r: String)
    ensures
        r@ == "/app/?user__username="@ + username@,
{
    let mut out = "/app/?user__username=".to_owned();
    out.append(username);
    out
}

/// The path of the application with the id `id`.
pub fn app_path(id: i64) -> (r: String)
    ensures
        r@ == "/app/"@ + decimal(id as int) + "/"@,
{
    let mut out = "/app/".to_owned();
    push_decimal(&mut out, id);
    out.append("/");
    out
}

/// The path that finds the application with the handle `handle`.
pub fn app_by_handle_path(handle: &str) -> (r: String)
    ensures
        r@ == "/app/?handle="@ + handle@,
{
    let mut out = "/app/?handle=".to_owned();
    out.append(handle);
    out
}

/// The path that finds the application `name` of the user `username`.
pub fn app_by_name_path(username: &str, name: &str) -> (r: String)
    ensures
        r@ == "/app/?name="@ + name@ + "&user__username="@ + username@,
{
    let mut out = "/app/?name=".to_owned();
    out.append(name);
    out.append("&user__username=");
    out.append(username);
    out
}

/// The path that lists the events of an application, newest first; an
/// application without an id has none.
pub fn events_path(id: Option<i64>) -> (r: String)
    ensures
        r@ == "/event/?ordering=-datetime&app__id="@ + decimal(
            match id {
                Some(x) => x as int,
                None => -1,
            },
        ),
{
    let mut out = "/event/?ordering=-datetime&app__id=".to_owned();
    push_decimal(
        &mut out,
        match id {
            Some(x) => x,
            None => -1,
        },
    );
    out
}

/// Why the registry's answer is not the one record that was asked for.
#[derive(Debug, Clone, Copy, PartialEq, Eq, Structural)]
pub enum RegistryError {
    /// No record matches.
    NotFound,
    /// More than one record matches.
    Ambiguous,
}

impl RegistryError {
    /// What the failure reads as.
    pub fn message(&self) -> (r: &'static str)
        ensures
            r@ == (match self {
                RegistryError::NotFound => "Object not found"@,
                RegistryError::Ambiguous => "Found more than 1 objects"@,
            }),
    {
        match self {
            RegistryError::NotFound => "Object not found",
            RegistryError::Ambiguous => "Found more than 1 objects",
        }
    }

    /// How the failure is surfaced.
    pub fn kind(&self) -> (r: ErrorKind)
        ensures
            r == (match self {
                RegistryError::NotFound => ErrorKind::NotFound,
                RegistryError::Ambiguous => ErrorKind::Storage,
            }),
    {
        match self {
            RegistryError::NotFound => ErrorKind::NotFound,
            RegistryError::Ambiguous => ErrorKind::Storage,
        }
    }
}

/// Whether an answer of `count` records is the one record asked for.
pub fn single_record(count: usize) -> (r: Result<(), RegistryError>)
    ensures
        r == (if count == 1 {
            Ok::<(), RegistryError>(())
        } else if count > 1 {
            Err(RegistryError::Ambiguous)
        } else {
            Err(RegistryError::NotFound)
        }),
{
    if count == 1 {
        Ok(())
    } else if count > 1 {
        Err(RegistryError::Ambiguous)
    } else {
        Err(RegistryError::NotFound)
    }
}

impl OctApp {
    /// The application `changed` as it may be stored over `self`: who owns
    /// it and how it is called and reached stay as they are.
    pub fn updated(self, changed: OctApp) -> (r: OctApp)
        ensures
            r.id == self.id,
            r.user == self.user,
            r.name == self.name,
            r.handle == self.handle,
            r.git_repo == changed.git_repo,
            r.git_ref == changed.git_ref,
            r.admin_token == changed.admin_token,
    {
        OctApp {
            id: self.id,
            user: self.user,
            name: self.name,
            handle: self.handle,
            git_repo: changed.git_repo,
            git_ref: changed.git_ref,
            admin_token: changed.admin_token,
        }
    }

    /// The path below which the application's endpoints answer.
    pub fn base_uri(&self) -> (r: String)
        ensures
            r@ == "/a/"@ + self.handle@,
    {
        let mut out = "/a/".to_owned();
        out.append(self.handle.as_str());
        out
    }
}

/// The storage that one application may use, in mebibytes.
pub const STORAGE_LIMIT_MB: u32 = 1024;

/// The whole mebibytes in `bytes`, as far as 32 bits hold them.
pub fn usage_mb(bytes: u64) -> (r: u32)
    ensures
        r == ((bytes / 1_048_576) % 0x1_0000_0000) as u32,
{
    let mb: u64 = bytes / 1_048_576;
    (mb % 0x1_0000_0000) as u32
}

/// The option of the clone command that names the branch, if one is named.
pub open spec fn branch_option(git_ref: Option<String>) -> Seq<char> {
    match git_ref {
        Some(r) => if r@.len() == 0 {
            Seq::empty()
        } else {
            "-b '"@ + r@ + "'"@
        },
        None => Seq::empty(),
    }
}

/// The command that fetches the source at `repo` into `dest`.
pub fn clone_command(git_ref: &Option<String>, repo: &str, dest: &str) -> (r: String)
    ensures
        r@ == "git clone --depth 1 "@ + branch_option(*git_ref) + " '"@ + repo@ + "' "@ + dest@,
{
    let mut out = "git clone --depth 1 ".to_owned();
    if let Some(r) = git_ref {
        if !r.as_str().is_empty() {
            out.append("-b '");
            out.append(r.as_str());
            out.append("'");
        }
    }
    let ghost head = out@;
    assert(head =~= "git clone --depth 1 "@ + branch_option(*git_ref));
    out.append(" '");
    out.append(repo);
    out.append("' ");
    out.append(dest);
    out
}

/// The name of the user who signed in as `account` at GitHub.
pub fn github_username(account: &str) -> (r: String)
    ensures
        r@ == "github."@ + account@,
{
    let mut out = "github.".to_owned();
    out.append(account);
    out
}

/// Where the engine is reached from outside: on `domain` over a secure
/// connection, or locally where no domain is set.
pub fn redirect_base(domain: Option<&str>) -> (r: String)
    ensures
        r@ == (match domain {
            Some(d) => "https://"@ + d@,
            None => "http://localhost:8888"@,
        }),
{
    match domain {
        Some(d) => {
            let mut out = "https://".to_owned();
            out.append(d);
            out
        },
        None => "http://localhost:8888".to_owned(),
    }
}

/// Where a user who signed in is sent with the token `token`.
pub fn login_redirect(base: &str, token: &str) -> (r: String)
    ensures
        r@ == base@ + "/login/confirm/"@ + token@,
{
    let mut out = base.to_owned();
    out.append("/login/confirm/");
    out.append(token);
    out
}

/// The message that reports the feedback `comments` of `email`.
pub fn feedback_message(email: &str, comments: &str) -> (r: String)
    ensures
        r@ == "User feedback from '"@ + email@ + "': "@ + comments@,
{
    let mut out = "User feedback from '".to_owned();
    out.append(email);
    out.append("': ");
    out.append(comments);
    out
}

/// The message that reports that `account` signed in.
pub fn login_message(account: &str) -> (r: String)
    ensures
        r@ == "User login with GitHub: "@ + account@,
{
    let mut out = "User login with GitHub: ".to_owned();
    out.append(account);
    out
}

/// What a request below `/meta` asks for.
#[derive(Debug, Clone, Copy, PartialEq, Eq, Structural)]
pub enum MetaRoute {
    /// The applications of the caller.
    App,
    /// Fetching an application's source and bringing its storage up to it.
    Sync,
    NotFound,
}

/// What a request for `path` below `/meta` asks for.
pub fn meta_route(path: &str) -> (r: MetaRoute)
    ensures
        r == (if path@ == "/meta/app"@ {
            MetaRoute::App
        } else if path@ == "/meta/sync"@ {
            MetaRoute::Sync
        } else {
            MetaRoute::NotFound
        }),
{
    if path.eq("/meta/app") {
        MetaRoute::App
    } else if path.eq("/meta/sync") {
        MetaRoute::Sync
    } else {
        MetaRoute::NotFound
    }
}

/// What a request below `/auth` asks for.
#[derive(Debug, Clone, Copy, PartialEq, Eq, Structural)]
pub enum AuthRoute {
    /// How to sign in at GitHub.
    GithubConfig,
    /// Who the caller is.
    Info,
    /// The return from signing in at GitHub.
    GithubCallback,
    NotFound,
}

/// What a request for `path` below `/auth` asks for.
pub fn auth_route(path: &str) -> (r: AuthRoute)
    ensures
        r == (if path@ == "/auth/github/config"@ {
            AuthRoute::GithubConfig
        } else if path@ == "/auth/info"@ {
            AuthRoute::Info
        } else if path@ == "/auth/github/callback"@ {
            AuthRoute::GithubCallback
        } else {
            AuthRoute::NotFound
        }),
{
    if path.eq("/auth/github/config") {
        AuthRoute::GithubConfig
    } else if path.eq("/auth/info") {
        AuthRoute::Info
    } else if path.eq("/auth/github/callback") {
        AuthRoute::GithubCallback
    } else {
        AuthRoute::NotFound
    }
}

} // verus!
