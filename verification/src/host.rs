//! What the engine knows of its surroundings: where it listens and keeps
//! its data, the applications it hosts and the users that own them.

use vstd::prelude::*;
use vstd::string::*;
use rand::Rng;

verus! {

/// Where the engine listens and where it keeps its data.
#[derive(Debug, Clone, PartialEq, Eq)]
pub struct Config {
    pub server_addr: String,
    pub data_dir: String,
    pub orm_addr: String,
}

impl Config {
    /// The configuration of an engine that was told nothing.
    pub fn default() -> (r: Config)
        ensures
            r.server_addr@ == "0.0.0.0:3000"@,
            r.data_dir@ == "/data/oct"@,
            r.orm_addr@ == "127.0.0.1:8000"@,
    {
        Config {
            server_addr: "0.0.0.0:3000".to_owned(),
            data_dir: "/data/oct".to_owned(),
            orm_addr: "127.0.0.1:8000".to_owned(),
        }
    }
}

/// A file or a directory below the data directory, by its path from there.
#[derive(Debug, PartialEq, Eq)]
pub struct Entry {
    name: String,
}

impl View for Entry {
    type V = Seq<char>;

    closed spec fn view(&self) -> Seq<char> {
        self.name@
    }
}

impl Entry {
    /// The entry at the path `name`.
    pub fn new(name: &str) -> (r: Entry)
        ensures
            r@ == name@,
    {
        Entry { name: name.to_owned() }
    }

    /// The entry `name` inside this one.
    pub fn child(&self, name: &str) -> (r: Entry)
        ensures
            r@ == self@ + "/"@ + name@,
    {
        let mut path = self.name.clone();
        path.append("/");
        path.append(name);
        Entry { name: path }
    }

    /// The entry's path, given the data directory.
    pub fn fullpath(&self, data_dir: &str) -> (r: String)
        ensures
            r@ == data_dir@ + "/"@ + self@,
    {
        let mut path = data_dir.to_owned();
        path.append("/");
        path.append(self.name.as_str());
        path
    }
}

/// The directory that holds one directory for each application.
pub fn apps_dir() -> (r: Entry)
    ensures
        r@ == "apps"@,
{
    Entry::new("apps")
}

/// Whether every character of `s` is an upper-case ASCII letter.
pub open spec fn all_upper(s: Seq<char>) -> bool {
    forall|i: int| 0 <= i < s.len() ==> 'A' <= #[trigger] s[i] <= 'Z'
}

/// `Rng::gen_range` of `rand`, on the generator of the calling thread and a
/// range that starts at zero: some number below `bound`. Which one is left
/// open.
#[verifier::external_body]
fn random_below(bound: u8) -> (r: u8)
    requires
        bound > 0,
    ensures
        r < bound,
{
    rand::thread_rng().gen_range(0..bound)
}

/// A text of `n` upper-case ASCII letters, drawn at random.
pub fn gen_random_string(n: usize) -> (r: String)
    ensures
        r@.len() == n,
        all_upper(r@),
{
    let mut ret = String::new();
    let mut i: usize = 0;
    while i < n
        invariant
            i <= n,
            ret@.len() == i,
            all_upper(ret@),
        decreases n - i,
    {
        let c = (65u8 + random_below(26)) as char;
        ret.push(c);
        i += 1;
    }
    ret
}

/// An application that the engine hosts.
#[derive(Debug, PartialEq, Eq)]
pub struct OctApp {
    pub id: Option<i64>,
    pub user: Option<i64>,
    pub name: String,
    pub handle: String,
    pub git_repo: Option<String>,
    pub git_ref: Option<String>,
    pub admin_token: String,
}

/// The name of the storage file of an application, inside its directory.
pub open spec fn db_filename() -> Seq<char> {
    "db.sqlite"@
}

impl OctApp {
    /// A new application of the user `uid`, with a handle and an
    /// administrator token drawn at random and no source yet.
    pub fn fresh(uid: i64, name: &str) -> (r: OctApp)
        ensures
            r.id is None,
            r.user == Some(uid),
            r.name@ == name@,
            r.handle@.len() == 5,
            all_upper(r.handle@),
            r.git_ref is None,
            r.git_repo is None,
            r.admin_token@.len() == 20,
            all_upper(r.admin_token@),
    {
        let handle = gen_random_string(5);
        OctApp {
            id: None,
            user: Some(uid),
            name: name.to_owned(),
            handle,
            git_ref: None,
            git_repo: None,
            admin_token: gen_random_string(20),
        }
    }

    /// The directory of the application.
    pub fn dir(&self) -> (r: Entry)
        ensures
            r@ == "apps"@ + "/"@ + self.handle@,
    {
        apps_dir().child(self.handle.as_str())
    }

    /// The directory that holds the application's source once it is
    /// running.
    pub fn repo(&self) -> (r: Entry)
        ensures
            r@ == "apps"@ + "/"@ + self.handle@ + "/"@ + "repo"@,
    {
        self.dir().child("repo")
    }

    /// The application's storage file.
    pub fn db_file(&self) -> (r: Entry)
        ensures
            r@ == "apps"@ + "/"@ + self.handle@ + "/"@ + db_filename(),
    {
        self.dir().child("db.sqlite")
    }

    /// The application's definition, inside its source.
    pub fn def_file(&self) -> (r: Entry)
        ensures
            r@ == "apps"@ + "/"@ + self.handle@ + "/"@ + "repo"@ + "/"@ + "app.yml"@,
    {
        self.repo().child("app.yml")
    }

    /// How the application's state is reported, given whether its source is
    /// in place.
    pub fn status(&self, running: bool) -> (r: &'static str)
        ensures
            r@ == if running {
                "RUNNING"@
            } else {
                "PENDING"@
            },
    {
        if running {
            "RUNNING"
        } else {
            "PENDING"
        }
    }
}

/// How a user signs in.
#[derive(Debug, Clone, Copy, PartialEq, Eq, Structural)]
pub enum LoginType {
    Github,
}

impl LoginType {
    /// The way of signing in that `s` names.
    pub fn parse(s: &str) -> (r: Option<LoginType>)
        ensures
            r == if s@ == "github"@ {
                Some(LoginType::Github)
            } else {
                None
            },
    {
        if s.eq("github") {
            Some(LoginType::Github)
        } else {
            None
        }
    }

    /// The name of the way of signing in.
    pub fn name(&self) -> (r: &'static str)
        ensures
            r@ == "github"@,
    {
        match self {
            LoginType::Github => "github",
        }
    }
}

/// A user of the engine.
#[derive(Debug, PartialEq, Eq)]
pub struct OctUser {
    pub id: Option<i64>,
    pub username: String,
    pub display_name: String,
    pub email: String,
    pub token: String,
}

impl OctUser {
    /// A new user with a token drawn at random.
    pub fn new(username: &str, display_name: &str, email: &str) -> (r: OctUser)
        ensures
            r.id is None,
            r.username@ == username@,
            r.display_name@ == display_name@,
            r.email@ == email@,
            r.token@.len() == 24,
            all_upper(r.token@),
    {
        OctUser {
            id: None,
            username: username.to_owned(),
            display_name: display_name.to_owned(),
            email: email.to_owned(),
            token: gen_random_string(24),
        }
    }
}

} // verus!
