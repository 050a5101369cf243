//! The user directory and the application settings it is loaded from.

use vstd::prelude::*;
use vstd::string::StringExecFns;

verus! {

/// Protocol settings: the literal expected before the bearer token in
/// the `Authorization` header (without the separating space).
pub struct OAuth2Configuration {
    pub authorization_header_prefix: String,
}

/// Where the HTTP layer should listen.
pub struct ServerConfiguration {
    pub host: String,
    pub port: u16,
}

/// A registered user: a unique login, a display text, and the claims
/// returned by the userinfo operation, as claim-name/value pairs.
pub struct User {
    pub login: String,
    pub description: String,
    pub user_info: Vec<(String, String)>,
}

/// The mathematical value of a [`User`]: every field as a sequence of
/// characters.
pub struct UserView {
    pub login: Seq<char>,
    pub description: Seq<char>,
    pub user_info: Seq<(Seq<char>, Seq<char>)>,
}

impl View for User {
    type V = UserView;

    open spec fn view(&self) -> UserView {
        UserView {
            login: self.login@,
            description: self.description@,
            user_info: Seq::new(
                self.user_info@.len(),
                |i: int| (self.user_info@[i].0@, self.user_info@[i].1@),
            ),
        }
    }
}

fn clone_string_pairs(v: &Vec<(String, String)>) -> (res: Vec<(String, String)>)
    ensures
        res@ == v@,
{
    let mut res: Vec<(String, String)> = Vec::new();
    let mut i: usize = 0;
    while i < v.len()
        invariant
            i <= v.len(),
            res@ == v@.subrange(0, i as int),
        decreases v.len() - i,
    {
        let p = &v[i];
        res.push((p.0.clone(), p.1.clone()));
        proof {
            assert(res@ =~= v@.subrange(0, i + 1 as int));
        }
        i = i + 1;
    }
    proof {
        assert(v@.subrange(0, v@.len() as int) =~= v@);
    }
    res
}

impl Clone for User {
    fn clone(&self) -> (res: Self)
        ensures
            res.login == self.login,
            res.description == self.description,
            res.user_info@ == self.user_info@,
            res@ == self@,
    {
        let res = User {
            login: self.login.clone(),
            description: self.description.clone(),
            user_info: clone_string_pairs(&self.user_info),
        };
        proof {
            assert(res@ =~= self@);
        }
        res
    }
}

/// The views of the users of a sequence, in the same order.
pub open spec fn user_views(s: Seq<User>) -> Seq<UserView> {
    Seq::new(s.len(), |i: int| s[i]@)
}

/// No two users of the sequence share a login.
pub open spec fn distinct_logins(s: Seq<UserView>) -> bool {
    forall|i: int, j: int| 0 <= i < j < s.len() ==> s[i].login != s[j].login
}

/// Whether some user of the sequence has the given login.
pub open spec fn has_login(s: Seq<UserView>, login: Seq<char>) -> bool {
    exists|i: int| 0 <= i < s.len() && s[i].login == login
}

/// The first user of the sequence with the given login, if any.
pub open spec fn find_login(s: Seq<UserView>, login: Seq<char>) -> Option<UserView>
    decreases s.len(),
{
    if s.len() == 0 {
        None
    } else if s[0].login == login {
        Some(s[0])
    } else {
        find_login(s.drop_first(), login)
    }
}

pub proof fn lemma_find_login_at(s: Seq<UserView>, login: Seq<char>, i: int)
    requires
        0 <= i < s.len(),
        s[i].login == login,
        forall|k: int| 0 <= k < i ==> s[k].login != login,
    ensures
        find_login(s, login) == Some(s[i]),
    decreases i,
{
    if i == 0 {
    } else {
        assert(s[0].login != login);
        assert(forall|k: int| 0 <= k < i - 1 ==> s.drop_first()[k] == s[k + 1]);
        lemma_find_login_at(s.drop_first(), login, i - 1);
        assert(s.drop_first()[i - 1] == s[i]);
    }
}

pub proof fn lemma_find_login_none(s: Seq<UserView>, login: Seq<char>)
    requires
        forall|k: int| 0 <= k < s.len() ==> s[k].login != login,
    ensures
        find_login(s, login) is None,
    decreases s.len(),
{
    if s.len() == 0 {
    } else {
        assert(forall|k: int| 0 <= k < s.len() - 1 ==> s.drop_first()[k] == s[k + 1]);
        lemma_find_login_none(s.drop_first(), login);
    }
}

pub proof fn lemma_find_login_characterized(s: Seq<UserView>, login: Seq<char>)
    ensures
        find_login(s, login) is Some <==> has_login(s, login),
        find_login(s, login) matches Some(u) ==> exists|i: int|
            0 <= i < s.len() && s[i] == u && s[i].login == login,
    decreases s.len(),
{
    if s.len() == 0 {
    } else if s[0].login == login {
    } else {
        lemma_find_login_characterized(s.drop_first(), login);
        assert(forall|k: int| 0 <= k < s.len() - 1 ==> s.drop_first()[k] == s[k + 1]);
        if has_login(s, login) {
            let i = choose|i: int| 0 <= i < s.len() && s[i].login == login;
            assert(s.drop_first()[i - 1] == s[i]);
            assert(has_login(s.drop_first(), login));
        }
        if find_login(s, login) is Some {
            let u = find_login(s.drop_first(), login).unwrap();
            let i = choose|i: int|
                0 <= i < s.drop_first().len() && s.drop_first()[i] == u && s.drop_first()[i].login
                    == login;
            assert(s[i + 1] == u);
        }
    }
}

/// The user directory: an immutable, login-keyed collection of user
/// records, loaded once from the application configuration.
pub struct RegisteredUsers {
    users: Vec<User>,
}

impl View for RegisteredUsers {
    type V = Seq<UserView>;

    closed spec fn view(&self) -> Seq<UserView> {
        user_views(self.users@)
    }
}

impl RegisteredUsers {
    /// Every login keys exactly one record.
    pub open spec fn wf(&self) -> bool {
        distinct_logins(self@)
    }

    pub open spec fn spec_contains(&self, login: Seq<char>) -> bool {
        has_login(self@, login)
    }

    pub open spec fn spec_find(&self, login: Seq<char>) -> Option<UserView> {
        find_login(self@, login)
    }

    /// Create a directory from a list of users.
    ///
    /// The configuration collaborator owes a list whose logins are
    /// unique; the directory keeps the records in the given order.
    pub fn new(users: &Vec<User>) -> (result: Self)
        requires
            distinct_logins(user_views(users@)),
        ensures
            result@ == user_views(users@),
            result.wf(),
    {
        let mut copied: Vec<User> = Vec::new();
        let mut i: usize = 0;
        while i < users.len()
            invariant
                i <= users.len(),
                copied@.len() == i,
                forall|k: int| 0 <= k < i ==> copied@[k]@ == users@[k]@,
            decreases users.len() - i,
        {
            copied.push(users[i].clone());
            i = i + 1;
        }
        let result = RegisteredUsers { users: copied };
        proof {
            assert(result@ =~= user_views(users@));
        }
        result
    }

    /// Return the logins of all users, in directory order.
    pub fn logins(&self) -> (r: Vec<String>)
        ensures
            r@.len() == self@.len(),
            forall|i: int| 0 <= i < r@.len() ==> r@[i]@ == self@[i].login,
    {
        let mut r: Vec<String> = Vec::new();
        let mut i: usize = 0;
        while i < self.users.len()
            invariant
                i <= self.users.len(),
                r@.len() == i,
                forall|k: int| 0 <= k < i ==> r@[k]@ == self@[k].login,
            decreases self.users.len() - i,
        {
            r.push(self.users[i].login.clone());
            i = i + 1;
        }
        r
    }

    /// Whether a user with this login is registered.
    pub fn contains_login(&self, login: &String) -> (r: bool)
        ensures
            r == self.spec_contains(login@),
    {
        proof {
            lemma_find_login_characterized(self@, login@);
        }
        self.find(login).is_some()
    }

    /// Find a user by login. Return `None` if the user is not found.
    pub fn find(&self, login: &String) -> (r: Option<&User>)
        ensures
            match r {
                Some(u) => self.spec_find(login@) == Some(u@),
                None => self.spec_find(login@) is None,
            },
    {
        let mut i: usize = 0;
        while i < self.users.len()
            invariant
                i <= self.users.len(),
                forall|k: int| 0 <= k < i ==> self@[k].login != login@,
            decreases self.users.len() - i,
        {
            if self.users[i].login == *login {
                proof {
                    lemma_find_login_at(self@, login@, i as int);
                }
                return Some(&self.users[i]);
            }
            i = i + 1;
        }
        proof {
            lemma_find_login_none(self@, login@);
        }
        None
    }

    /// Find a user by login; the caller owes a login that is present.
    pub fn load(&self, login: &String) -> (r: &User)
        requires
            self.spec_contains(login@),
        ensures
            self.spec_find(login@) == Some(r@),
    {
        proof {
            lemma_find_login_characterized(self@, login@);
        }
        self.find(login).unwrap()
    }

    /// Return all user records, in directory order.
    pub fn all(&self) -> (r: Vec<User>)
        ensures
            user_views(r@) == self@,
    {
        let mut r: Vec<User> = Vec::new();
        let mut i: usize = 0;
        while i < self.users.len()
            invariant
                i <= self.users.len(),
                r@.len() == i,
                forall|k: int| 0 <= k < i ==> r@[k]@ == self@[k],
            decreases self.users.len() - i,
        {
            r.push(self.users[i].clone());
            i = i + 1;
        }
        proof {
            assert(user_views(r@) =~= self@);
        }
        r
    }
}

/// Everything the configuration file supplies: the listen address, the
/// protocol settings, and the user records.
pub struct ApplicationConfiguration {
    pub server: ServerConfiguration,
    pub oauth2: OAuth2Configuration,
    pub users: Vec<User>,
}

impl ApplicationConfiguration {
    /// The host and port the HTTP layer should bind.
    pub fn server_address(&self) -> (r: (String, u16))
        ensures
            r.0@ == self.server.host@,
            r.1 == self.server.port,
    {
        (self.server.host.clone(), self.server.port)
    }
}

/// A failure to locate the configuration file, surfaced before the core
/// is constructed; fatal at startup.
#[derive(Debug)]
pub enum ConfigurationError {
    FileNotFound(String),
    CantBuildAbsolutePath(String),
}

impl ConfigurationError {
    /// The display text of the error, as the startup code prints it.
    pub fn message(&self) -> (r: String)
        ensures
            (match self {
                ConfigurationError::FileNotFound(p) => r@ == "File not found: "@ + p@,
                ConfigurationError::CantBuildAbsolutePath(p) => r@ == "Cant build absolute path: "@
                    + p@,
            }),
    {
        match self {
            ConfigurationError::FileNotFound(p) => String::from_str("File not found: ").concat(
                p.as_str(),
            ),
            ConfigurationError::CantBuildAbsolutePath(p) => String::from_str(
                "Cant build absolute path: ",
            ).concat(p.as_str()),
        }
    }
}

} // verus!
