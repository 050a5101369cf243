//! The credential issuer: a fixed correspondence, drawn once at
//! startup, between every login and an authorization code, an access
//! token and a refresh token, with a denormalized token-to-user index.

use vstd::prelude::*;

use crate::configuration::{lemma_find_login_at, RegisteredUsers, User, UserView};

verus! {

/// Relies on uuid::Uuid::new_v4 and its Display form: a fresh random
/// 128-bit identifier, rendered in the canonical hyphenated form of 36
/// ASCII characters. The value is random; nothing more holds of it.
#[verifier::external_body]
fn new_uuid_string() -> (r: String)
    ensures
        r@.len() == 36,
{
    uuid::Uuid::new_v4().to_string()
}

/// The views of a key/value table of strings, in order.
pub open spec fn pair_views(s: Seq<(String, String)>) -> Seq<(Seq<char>, Seq<char>)> {
    Seq::new(s.len(), |i: int| (s[i].0@, s[i].1@))
}

/// The views of a key/record table, in order.
pub open spec fn user_table_views(s: Seq<(String, User)>) -> Seq<(Seq<char>, UserView)> {
    Seq::new(s.len(), |i: int| (s[i].0@, s[i].1@))
}

/// The value at the first entry of the table whose key matches, if any.
pub open spec fn table_lookup<V>(s: Seq<(Seq<char>, V)>, key: Seq<char>) -> Option<V>
    decreases s.len(),
{
    if s.len() == 0 {
        None
    } else if s[0].0 == key {
        Some(s[0].1)
    } else {
        table_lookup(s.drop_first(), key)
    }
}

pub proof fn lemma_table_lookup_at<V>(s: Seq<(Seq<char>, V)>, key: Seq<char>, i: int)
    requires
        0 <= i < s.len(),
        s[i].0 == key,
        forall|k: int| 0 <= k < i ==> s[k].0 != key,
    ensures
        table_lookup(s, key) == Some(s[i].1),
    decreases i,
{
    if i == 0 {
    } else {
        assert(s[0].0 != key);
        assert(forall|k: int| 0 <= k < i - 1 ==> s.drop_first()[k] == s[k + 1]);
        lemma_table_lookup_at(s.drop_first(), key, i - 1);
        assert(s.drop_first()[i - 1] == s[i]);
    }
}

pub proof fn lemma_table_lookup_none<V>(s: Seq<(Seq<char>, V)>, key: Seq<char>)
    requires
        forall|k: int| 0 <= k < s.len() ==> s[k].0 != key,
    ensures
        table_lookup(s, key) is None,
    decreases s.len(),
{
    if s.len() == 0 {
    } else {
        assert(forall|k: int| 0 <= k < s.len() - 1 ==> s.drop_first()[k] == s[k + 1]);
        lemma_table_lookup_none(s.drop_first(), key);
    }
}

pub proof fn lemma_table_lookup_characterized<V>(s: Seq<(Seq<char>, V)>, key: Seq<char>)
    ensures
        table_lookup(s, key) is Some <==> exists|i: int| 0 <= i < s.len() && s[i].0 == key,
        table_lookup(s, key) matches Some(v) ==> exists|i: int|
            0 <= i < s.len() && s[i].0 == key && s[i].1 == v,
    decreases s.len(),
{
    if s.len() == 0 {
    } else if s[0].0 == key {
    } else {
        lemma_table_lookup_characterized(s.drop_first(), key);
        assert(forall|k: int| 0 <= k < s.len() - 1 ==> s.drop_first()[k] == s[k + 1]);
        if exists|i: int| 0 <= i < s.len() && s[i].0 == key {
            let i = choose|i: int| 0 <= i < s.len() && s[i].0 == key;
            assert(s.drop_first()[i - 1] == s[i]);
            assert(exists|i: int| 0 <= i < s.drop_first().len() && s.drop_first()[i].0 == key);
        }
        if table_lookup(s, key) is Some {
            let v = table_lookup(s.drop_first(), key).unwrap();
            let i = choose|i: int|
                0 <= i < s.drop_first().len() && s.drop_first()[i].0 == key && s.drop_first()[i].1
                    == v;
            assert(s[i + 1].0 == key && s[i + 1].1 == v);
        }
    }
}

/// First-match lookup in a key/value table of strings.
fn lookup_value(table: &Vec<(String, String)>, key: &String) -> (r: Option<String>)
    ensures
        match r {
            Some(v) => table_lookup(pair_views(table@), key@) == Some(v@),
            None => table_lookup(pair_views(table@), key@) is None,
        },
{
    let mut i: usize = 0;
    while i < table.len()
        invariant
            i <= table.len(),
            forall|k: int| 0 <= k < i ==> pair_views(table@)[k].0 != key@,
        decreases table.len() - i,
    {
        if table[i].0 == *key {
            proof {
                lemma_table_lookup_at(pair_views(table@), key@, i as int);
            }
            return Some(table[i].1.clone());
        }
        i = i + 1;
    }
    proof {
        lemma_table_lookup_none(pair_views(table@), key@);
    }
    None
}

/// First-match lookup in a key/record table; the found record is
/// returned as a copy.
fn lookup_user(table: &Vec<(String, User)>, key: &String) -> (r: Option<User>)
    ensures
        match r {
            Some(u) => table_lookup(user_table_views(table@), key@) == Some(u@),
            None => table_lookup(user_table_views(table@), key@) is None,
        },
{
    let mut i: usize = 0;
    while i < table.len()
        invariant
            i <= table.len(),
            forall|k: int| 0 <= k < i ==> user_table_views(table@)[k].0 != key@,
        decreases table.len() - i,
    {
        if table[i].0 == *key {
            proof {
                lemma_table_lookup_at(user_table_views(table@), key@, i as int);
            }
            return Some(table[i].1.clone());
        }
        i = i + 1;
    }
    proof {
        lemma_table_lookup_none(user_table_views(table@), key@);
    }
    None
}

/// Pair every key with a freshly drawn identifier.
pub fn make_uuids_per_key(keys: &Vec<String>) -> (r: Vec<(String, String)>)
    ensures
        r@.len() == keys@.len(),
        forall|i: int| 0 <= i < r@.len() ==> r@[i].0@ == keys@[i]@ && r@[i].1@.len() == 36,
{
    let mut r: Vec<(String, String)> = Vec::new();
    let mut i: usize = 0;
    while i < keys.len()
        invariant
            i <= keys.len(),
            r@.len() == i,
            forall|k: int| 0 <= k < i ==> r@[k].0@ == keys@[k]@ && r@[k].1@.len() == 36,
        decreases keys.len() - i,
    {
        r.push((keys[i].clone(), new_uuid_string()));
        i = i + 1;
    }
    r
}

/// The values of a key/value table, in table order.
fn values_of(table: &Vec<(String, String)>) -> (r: Vec<String>)
    ensures
        r@.len() == table@.len(),
        forall|i: int| 0 <= i < r@.len() ==> r@[i]@ == table@[i].1@,
{
    let mut r: Vec<String> = Vec::new();
    let mut i: usize = 0;
    while i < table.len()
        invariant
            i <= table.len(),
            r@.len() == i,
            forall|k: int| 0 <= k < i ==> r@[k]@ == table@[k].1@,
        decreases table.len() - i,
    {
        r.push(table[i].1.clone());
        i = i + 1;
    }
    r
}

/// Build the denormalized token-to-user index: for every login/code
/// entry, resolve the login's record and the code's access token.
pub fn link_access_token_with_user(
    users: &RegisteredUsers,
    authorization_codes: &Vec<(String, String)>,
    access_tokens: &Vec<(String, String)>,
) -> (r: Vec<(String, User)>)
    requires
        forall|i: int| 0 <= i < authorization_codes@.len() ==> users.spec_contains(
            #[trigger] authorization_codes@[i].0@,
        ),
        forall|i: int| 0 <= i < authorization_codes@.len() ==> table_lookup(
            pair_views(access_tokens@),
            #[trigger] authorization_codes@[i].1@,
        ) is Some,
    ensures
        r@.len() == authorization_codes@.len(),
        forall|i: int| 0 <= i < r@.len() ==> Some(#[trigger] r@[i].0@) == table_lookup(
            pair_views(access_tokens@),
            authorization_codes@[i].1@,
        ),
        forall|i: int| 0 <= i < r@.len() ==> users.spec_find(authorization_codes@[i].0@) == Some(
            #[trigger] r@[i].1@,
        ),
{
    let mut r: Vec<(String, User)> = Vec::new();
    let mut i: usize = 0;
    while i < authorization_codes.len()
        invariant
            i <= authorization_codes.len(),
            r@.len() == i,
            forall|i: int| 0 <= i < authorization_codes@.len() ==> users.spec_contains(
                #[trigger] authorization_codes@[i].0@,
            ),
            forall|i: int| 0 <= i < authorization_codes@.len() ==> table_lookup(
                pair_views(access_tokens@),
                #[trigger] authorization_codes@[i].1@,
            ) is Some,
            forall|k: int| 0 <= k < i ==> Some(#[trigger] r@[k].0@) == table_lookup(
                pair_views(access_tokens@),
                authorization_codes@[k].1@,
            ),
            forall|k: int| 0 <= k < i ==> users.spec_find(authorization_codes@[k].0@) == Some(
                #[trigger] r@[k].1@,
            ),
        decreases authorization_codes.len() - i,
    {
        let user = users.load(&authorization_codes[i].0);
        let access_token = lookup_value(access_tokens, &authorization_codes[i].1).unwrap();
        r.push((access_token, user.clone()));
        i = i + 1;
    }
    r
}

/// The credential issuer's four lookup tables, parallel by
/// construction: logins to codes, codes to access tokens, access
/// tokens to refresh tokens, and access tokens to user records.
pub struct CredentialIssuer {
    authorization_codes: Vec<(String, String)>,
    access_tokens: Vec<(String, String)>,
    refresh_tokens: Vec<(String, String)>,
    users_info: Vec<(String, User)>,
}

impl CredentialIssuer {
    /// The login-to-code table.
    pub closed spec fn codes(&self) -> Seq<(Seq<char>, Seq<char>)> {
        pair_views(self.authorization_codes@)
    }

    /// The code-to-access-token table.
    pub closed spec fn tokens(&self) -> Seq<(Seq<char>, Seq<char>)> {
        pair_views(self.access_tokens@)
    }

    /// The access-token-to-refresh-token table.
    pub closed spec fn refreshes(&self) -> Seq<(Seq<char>, Seq<char>)> {
        pair_views(self.refresh_tokens@)
    }

    /// The access-token-to-record index.
    pub closed spec fn users(&self) -> Seq<(Seq<char>, UserView)> {
        user_table_views(self.users_info@)
    }

    /// The structural tie between the four tables: one row per login,
    /// each row keyed by the previous row's value.
    pub open spec fn wf(&self) -> bool {
        let n = self.codes().len();
        &&& self.tokens().len() == n
        &&& self.refreshes().len() == n
        &&& self.users().len() == n
        &&& forall|i: int, j: int| 0 <= i < j < n ==> self.codes()[i].0 != self.codes()[j].0
        &&& forall|i: int| 0 <= i < n ==> #[trigger] self.tokens()[i].0 == self.codes()[i].1
        &&& forall|i: int| 0 <= i < n ==> #[trigger] self.refreshes()[i].0 == self.tokens()[i].1
        &&& forall|i: int| 0 <= i < n ==> Some(#[trigger] self.users()[i].0) == table_lookup(
            self.tokens(),
            self.codes()[i].1,
        )
        &&& forall|i: int| 0 <= i < n ==> #[trigger] self.users()[i].1.login == self.codes()[i].0
    }

    /// The issuer covers exactly the directory: row `i` belongs to the
    /// directory's user `i`, and carries that user's record.
    pub open spec fn derived_from(&self, directory: RegisteredUsers) -> bool {
        &&& self.wf()
        &&& self.codes().len() == directory@.len()
        &&& forall|i: int| 0 <= i < directory@.len() ==> #[trigger] self.codes()[i].0
            == directory@[i].login
        &&& forall|i: int| 0 <= i < directory@.len() ==> #[trigger] self.users()[i].1
            == directory@[i]
    }

    /// Every generated identifier, over all three columns.
    pub open spec fn identifiers(&self) -> Seq<Seq<char>> {
        Seq::new(self.codes().len(), |i: int| self.codes()[i].1) + Seq::new(
            self.tokens().len(),
            |i: int| self.tokens()[i].1,
        ) + Seq::new(self.refreshes().len(), |i: int| self.refreshes()[i].1)
    }

    /// The generator produced no duplicate anywhere.
    pub open spec fn collision_free(&self) -> bool {
        forall|i: int, j: int| 0 <= i < j < self.identifiers().len()
            ==> self.identifiers()[i] != self.identifiers()[j]
    }

    pub open spec fn spec_code_for(&self, login: Seq<char>) -> Option<Seq<char>> {
        table_lookup(self.codes(), login)
    }

    pub open spec fn spec_access_token_for(&self, code: Seq<char>) -> Option<Seq<char>> {
        table_lookup(self.tokens(), code)
    }

    pub open spec fn spec_refresh_token_for(&self, access_token: Seq<char>) -> Option<Seq<char>> {
        table_lookup(self.refreshes(), access_token)
    }

    pub open spec fn spec_user_for(&self, access_token: Seq<char>) -> Option<UserView> {
        table_lookup(self.users(), access_token)
    }

    /// Draw one code per login, one access token per code and one
    /// refresh token per access token, and link every access token
    /// with its user's record.
    pub fn new(users: &RegisteredUsers) -> (r: Self)
        requires
            users.wf(),
        ensures
            r.derived_from(*users),
    {
        let logins = users.logins();
        let authorization_codes = make_uuids_per_key(&logins);
        let codes = values_of(&authorization_codes);
        let access_tokens = make_uuids_per_key(&codes);
        let token_values = values_of(&access_tokens);
        let refresh_tokens = make_uuids_per_key(&token_values);
        proof {
            assert forall|i: int| 0 <= i < authorization_codes@.len() implies users.spec_contains(
                #[trigger] authorization_codes@[i].0@,
            ) by {
                assert(users@[i].login == authorization_codes@[i].0@);
            }
            assert forall|i: int| 0 <= i < authorization_codes@.len() implies table_lookup(
                pair_views(access_tokens@),
                #[trigger] authorization_codes@[i].1@,
            ) is Some by {
                assert(access_tokens@[i].0@ == codes@[i]@);
                assert(codes@[i]@ == authorization_codes@[i].1@);
                assert(pair_views(access_tokens@)[i].0 == authorization_codes@[i].1@);
                lemma_table_lookup_characterized(
                    pair_views(access_tokens@),
                    authorization_codes@[i].1@,
                );
            }
        }
        let users_info = link_access_token_with_user(users, &authorization_codes, &access_tokens);
        let r = CredentialIssuer { authorization_codes, access_tokens, refresh_tokens, users_info };
        proof {
            let n = r.codes().len();
            assert forall|i: int| 0 <= i < n implies #[trigger] r.tokens()[i].0
                == r.codes()[i].1 by {
                assert(r.access_tokens@[i].0@ == codes@[i]@);
                assert(codes@[i]@ == r.authorization_codes@[i].1@);
            }
            assert forall|i: int| 0 <= i < n implies #[trigger] r.refreshes()[i].0
                == r.tokens()[i].1 by {
                assert(r.refresh_tokens@[i].0@ == token_values@[i]@);
                assert(token_values@[i]@ == r.access_tokens@[i].1@);
            }
            assert forall|i: int| 0 <= i < n implies #[trigger] r.codes()[i].0
                == users@[i].login by {
                assert(r.authorization_codes@[i].0@ == logins@[i]@);
            }
            assert forall|i: int, j: int| 0 <= i < j < n implies r.codes()[i].0
                != r.codes()[j].0 by {
                assert(r.codes()[i].0 == users@[i].login);
                assert(r.codes()[j].0 == users@[j].login);
            }
            assert forall|i: int| 0 <= i < n implies #[trigger] r.users()[i].1 == users@[i] by {
                lemma_find_login_at(users@, users@[i].login, i);
                assert(users.spec_find(r.codes()[i].0) == Some(r.users()[i].1));
            }
            assert forall|i: int| 0 <= i < n implies #[trigger] r.users()[i].1.login
                == r.codes()[i].0 by {
                assert(r.users()[i].1 == users@[i]);
            }
            assert forall|i: int| 0 <= i < n implies Some(#[trigger] r.users()[i].0)
                == table_lookup(r.tokens(), r.codes()[i].1) by {
                assert(Some(r.users_info@[i].0@) == table_lookup(
                    pair_views(r.access_tokens@),
                    r.authorization_codes@[i].1@,
                ));
            }
        }
        r
    }

    /// The authorization code issued for this login, if it is known.
    pub fn code_for(&self, login: &String) -> (r: Option<String>)
        ensures
            match r {
                Some(c) => self.spec_code_for(login@) == Some(c@),
                None => self.spec_code_for(login@) is None,
            },
    {
        lookup_value(&self.authorization_codes, login)
    }

    /// The access token this authorization code redeems for, if any.
    pub fn access_token_for(&self, code: &String) -> (r: Option<String>)
        ensures
            match r {
                Some(t) => self.spec_access_token_for(code@) == Some(t@),
                None => self.spec_access_token_for(code@) is None,
            },
    {
        lookup_value(&self.access_tokens, code)
    }

    /// The refresh token issued alongside this access token, if any.
    pub fn refresh_token_for(&self, access_token: &String) -> (r: Option<String>)
        ensures
            match r {
                Some(t) => self.spec_refresh_token_for(access_token@) == Some(t@),
                None => self.spec_refresh_token_for(access_token@) is None,
            },
    {
        lookup_value(&self.refresh_tokens, access_token)
    }

    /// The record of the user this access token identifies, if any.
    pub fn user_for(&self, access_token: &String) -> (r: Option<User>)
        ensures
            match r {
                Some(u) => self.spec_user_for(access_token@) == Some(u@),
                None => self.spec_user_for(access_token@) is None,
            },
    {
        lookup_user(&self.users_info, access_token)
    }

    /// Every generated identifier, as runtime values.
    fn identifier_values(&self) -> (r: Vec<String>)
        ensures
            r@.len() == self.identifiers().len(),
            forall|i: int| 0 <= i < r@.len() ==> r@[i]@ == self.identifiers()[i],
    {
        let mut r: Vec<String> = values_of(&self.authorization_codes);
        let mut more = values_of(&self.access_tokens);
        r.append(&mut more);
        let mut third = values_of(&self.refresh_tokens);
        r.append(&mut third);
        proof {
            let n1 = self.codes().len();
            let n2 = self.tokens().len();
            let n3 = self.refreshes().len();
            assert forall|i: int| 0 <= i < r@.len() implies r@[i]@ == self.identifiers()[i] by {
                if i < n1 {
                    assert(self.identifiers()[i] == self.codes()[i].1);
                } else if i < n1 + n2 {
                    assert(self.identifiers()[i] == self.tokens()[i - n1].1);
                } else {
                    assert(self.identifiers()[i] == self.refreshes()[i - n1 - n2].1);
                }
            }
        }
        r
    }

    /// Whether the generator produced pairwise distinct identifiers,
    /// so that the four-way correspondence is a bijection.
    pub fn is_collision_free(&self) -> (r: bool)
        ensures
            r == self.collision_free(),
    {
        let ids = self.identifier_values();
        let r = strings_pairwise_distinct(&ids);
        proof {
            if r {
                assert forall|i: int, j: int|
                    0 <= i < j < self.identifiers().len() implies self.identifiers()[i]
                    != self.identifiers()[j] by {
                    assert(ids@[i]@ != ids@[j]@);
                }
            } else {
                let (i, j): (int, int) = choose|i: int, j: int|
                    0 <= i < j < ids@.len() && ids@[i]@ == ids@[j]@;
                assert(self.identifiers()[i] == self.identifiers()[j]);
            }
        }
        r
    }
}

/// Whether no two strings of the vector are equal.
pub fn strings_pairwise_distinct(v: &Vec<String>) -> (r: bool)
    ensures
        r == (forall|i: int, j: int| 0 <= i < j < v@.len() ==> v@[i]@ != v@[j]@),
{
    let mut i: usize = 0;
    while i < v.len()
        invariant
            i <= v.len(),
            forall|a: int, b: int| 0 <= a < b < v@.len() && a < i ==> v@[a]@ != v@[b]@,
        decreases v.len() - i,
    {
        let mut j: usize = i + 1;
        while j < v.len()
            invariant
                i < j <= v.len(),
                i < v.len(),
                forall|b: int| i < b < j ==> v@[i as int]@ != v@[b]@,
            decreases v.len() - j,
        {
            if v[i] == v[j] {
                return false;
            }
            j = j + 1;
        }
        i = i + 1;
    }
    true
}

/// Every registered login has an issued code.
pub proof fn lemma_known_login_has_code(
    issuer: CredentialIssuer,
    directory: RegisteredUsers,
    login: Seq<char>,
)
    requires
        issuer.derived_from(directory),
        directory.spec_contains(login),
    ensures
        issuer.spec_code_for(login) is Some,
{
    let i = choose|i: int| 0 <= i < directory@.len() && directory@[i].login == login;
    assert(issuer.codes()[i].0 == login);
    lemma_table_lookup_characterized(issuer.codes(), login);
}

/// Every access token a code redeems for carries a refresh token.
pub proof fn lemma_redeemed_token_has_refresh(issuer: CredentialIssuer, code: Seq<char>)
    requires
        issuer.wf(),
        issuer.spec_access_token_for(code) is Some,
    ensures
        issuer.spec_refresh_token_for(issuer.spec_access_token_for(code).unwrap()) is Some,
{
    let t = issuer.spec_access_token_for(code).unwrap();
    lemma_table_lookup_characterized(issuer.tokens(), code);
    let m = choose|m: int|
        0 <= m < issuer.tokens().len() && issuer.tokens()[m].0 == code && issuer.tokens()[m].1 == t;
    assert(issuer.refreshes()[m].0 == t);
    lemma_table_lookup_characterized(issuer.refreshes(), t);
}

/// Law: across different users nothing coincides. Whenever the
/// generated identifiers collide nowhere, two distinct rows differ in
/// their logins, their codes, their access tokens and their refresh
/// tokens alike.
pub proof fn lemma_no_cross_user_collision(issuer: CredentialIssuer, i: int, j: int)
    requires
        issuer.wf(),
        issuer.collision_free(),
        0 <= i < issuer.codes().len(),
        0 <= j < issuer.codes().len(),
        i != j,
    ensures
        issuer.codes()[i].0 != issuer.codes()[j].0,
        issuer.codes()[i].1 != issuer.codes()[j].1,
        issuer.tokens()[i].1 != issuer.tokens()[j].1,
        issuer.refreshes()[i].1 != issuer.refreshes()[j].1,
{
    let n = issuer.codes().len();
    assert(issuer.identifiers()[i] == issuer.codes()[i].1);
    assert(issuer.identifiers()[j] == issuer.codes()[j].1);
    assert(issuer.identifiers()[n + i] == issuer.tokens()[i].1);
    assert(issuer.identifiers()[n + j] == issuer.tokens()[j].1);
    assert(issuer.identifiers()[2 * n + i] == issuer.refreshes()[i].1);
    assert(issuer.identifiers()[2 * n + j] == issuer.refreshes()[j].1);
}

/// Law: the round trip of the bijection. For every registered login,
/// whenever the generated identifiers collide nowhere, the issued code
/// redeems for the issued access token, that token identifies a record
/// equal to the login's directory record, and it carries a refresh
/// token.
pub proof fn lemma_credentials_round_trip(
    issuer: CredentialIssuer,
    directory: RegisteredUsers,
    login: Seq<char>,
)
    requires
        directory.wf(),
        issuer.derived_from(directory),
        issuer.collision_free(),
        directory.spec_contains(login),
    ensures
        issuer.spec_code_for(login) is Some,
        issuer.spec_access_token_for(issuer.spec_code_for(login).unwrap()) is Some,
        issuer.spec_user_for(
            issuer.spec_access_token_for(issuer.spec_code_for(login).unwrap()).unwrap(),
        ) == directory.spec_find(login),
        directory.spec_find(login) is Some,
        issuer.spec_refresh_token_for(
            issuer.spec_access_token_for(issuer.spec_code_for(login).unwrap()).unwrap(),
        ) is Some,
{
    let n = issuer.codes().len();
    let i = choose|i: int| 0 <= i < directory@.len() && directory@[i].login == login;
    assert forall|k: int| 0 <= k < i implies issuer.codes()[k].0 != login by {
        assert(directory@[k].login != directory@[i].login);
    }
    lemma_table_lookup_at(issuer.codes(), login, i);
    let c = issuer.codes()[i].1;

    assert forall|k: int, m: int| 0 <= k < n && 0 <= m < n && k != m implies issuer.codes()[k].1
        != issuer.codes()[m].1 && issuer.tokens()[k].1 != issuer.tokens()[m].1 by {
        lemma_no_cross_user_collision(issuer, k, m);
    }
    assert forall|k: int| 0 <= k < i implies issuer.tokens()[k].0 != c by {
        assert(issuer.tokens()[k].0 == issuer.codes()[k].1);
    }
    lemma_table_lookup_at(issuer.tokens(), c, i);
    let t = issuer.tokens()[i].1;

    assert forall|k: int| 0 <= k < n implies #[trigger] issuer.users()[k].0
        == issuer.tokens()[k].1 by {
        assert forall|m: int| 0 <= m < k implies issuer.tokens()[m].0 != issuer.codes()[k].1 by {
            assert(issuer.tokens()[m].0 == issuer.codes()[m].1);
        }
        lemma_table_lookup_at(issuer.tokens(), issuer.codes()[k].1, k);
        assert(Some(issuer.users()[k].0) == table_lookup(issuer.tokens(), issuer.codes()[k].1));
    }
    assert forall|k: int| 0 <= k < i implies issuer.users()[k].0 != t by {
        assert(issuer.users()[k].0 == issuer.tokens()[k].1);
    }
    lemma_table_lookup_at(issuer.users(), t, i);
    assert(issuer.users()[i].1 == directory@[i]);

    assert forall|k: int| 0 <= k < i implies issuer.refreshes()[k].0 != t by {
        assert(issuer.refreshes()[k].0 == issuer.tokens()[k].1);
    }
    lemma_table_lookup_at(issuer.refreshes(), t, i);

    lemma_find_login_at(directory@, login, i);
}

} // verus!
