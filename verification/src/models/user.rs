use vstd::prelude::*;

use chrono::NaiveDateTime;

use crate::forms::user::{distinct_tokens, texts, Group, User};
use crate::text::string_from_utf8;

verus! {

/// A row of the users table.
pub struct SqlUser {
    pub id: i32,
    pub email_id: Option<i32>,
    pub anonymous: bool,
    pub username: String,
    pub display: String,
    pub password: Option<Vec<u8>>,
    pub first_name: String,
    pub last_name: String,
    pub lastactive: NaiveDateTime,
    pub regdate: NaiveDateTime,
    pub timezone: String,
    pub loginattempts: i32,
    pub loginlasttry: NaiveDateTime,
}

/// A row of a user's permission tokens.
pub struct SqlUserPermissionTokens {
    pub token: Option<String>,
}

/// A row of the emails table.
pub struct SqlUserEmail {
    pub id: i32,
    pub user_id: i32,
    pub email: String,
}

/// A row of the groups table.
pub struct SqlGroup {
    pub id: i32,
    pub name: String,
    pub display: String,
}

/// A row of a group's permissions.
pub struct SqlGroupPermission {
    pub id: i32,
    pub group_id: Option<i32>,
    pub token: Option<String>,
}

/// A permission token.
pub struct SqlPermissionTokens {
    pub token: String,
}

/// The password stored as bytes, read as UTF-8 text where it is valid.
pub open spec fn password_text(password: Option<Vec<u8>>) -> Option<Seq<char>> {
    match password {
        Some(bytes) => if vstd::utf8::valid_utf8(bytes@) {
            Some(vstd::utf8::decode_utf8(bytes@))
        } else {
            None
        },
        None => None,
    }
}

/// The text of an optional string.
pub open spec fn optional_text(s: Option<String>) -> Option<Seq<char>> {
    match s {
        Some(t) => Some(t@),
        None => None,
    }
}

/// The texts of the tokens of a list of permission rows.
pub open spec fn permission_texts(perms: Seq<SqlPermissionTokens>) -> Seq<Seq<char>> {
    perms.map_values(|p: SqlPermissionTokens| p.token@)
}

/// `u` is the user of `row`, with the given email, permissions and groups:
/// the last activity stands for all three dates of the user, a missing email
/// id for email id 0, and each permission token is held once.
pub open spec fn user_from_row(
    u: User,
    row: SqlUser,
    email: Seq<char>,
    perms: Option<Vec<SqlPermissionTokens>>,
    groups: Option<Vec<Group>>,
) -> bool {
    &&& u.id == row.id
    &&& u.email_id == match row.email_id {
        Some(e) => e,
        None => 0,
    }
    &&& u.email@ == email
    &&& u.anonymous == row.anonymous
    &&& u.username@ == row.username@
    &&& u.display@ == row.display@
    &&& optional_text(u.password) == password_text(row.password)
    &&& u.first_name@ == row.first_name@
    &&& u.last_name@ == row.last_name@
    &&& u.lastactive == row.lastactive
    &&& u.regdate == row.lastactive
    &&& u.timezone@ == row.timezone@
    &&& u.loginattempts == row.loginattempts
    &&& u.loginlasttry == row.lastactive
    &&& u.wf()
    &&& u.token_set() == match perms {
        Some(p) => permission_texts(p@).to_set(),
        None => Set::<Seq<char>>::empty(),
    }
    &&& u.groups@ == match groups {
        Some(g) => g@,
        None => Seq::<Group>::empty(),
    }
}

impl SqlUser {
    /// The user of this row, with the given email, permissions and groups.
    pub fn into_user(
        self,
        email: String,
        sql_user_perms: Option<Vec<SqlPermissionTokens>>,
        user_groups: Option<Vec<Group>>,
    ) -> (u: User)
        ensures
            user_from_row(u, self, email@, sql_user_perms, user_groups),
    {
        let password = match self.password {
            Some(bytes) => string_from_utf8(bytes),
            None => None,
        };
        let tokens = match sql_user_perms {
            Some(perms) => {
                let mut names: Vec<String> = Vec::new();
                let mut rest = perms;
                let ghost all = rest@;
                let mut i: usize = 0;
                while i < rest.len()
                    invariant
                        rest@ == all,
                        0 <= i <= all.len(),
                        texts(names@) == permission_texts(all).take(i as int),
                    decreases all.len() - i,
                {
                    let t = rest[i].token.clone();
                    assert(t@ == permission_texts(all)[i as int]);
                    let ghost before = names@;
                    names.push(t);
                    assert(texts(names@) =~= texts(before).push(t@));
                    assert(texts(names@) =~= permission_texts(all).take(i + 1));
                    i += 1;
                }
                assert(permission_texts(all).take(all.len() as int) =~= permission_texts(all));
                distinct_tokens(names)
            },
            None => {
                let none: Vec<String> = Vec::new();
                assert(texts(none@).to_set() =~= Set::<Seq<char>>::empty());
                none
            },
        };
        let groups = match user_groups {
            Some(groups) => groups,
            None => Vec::new(),
        };
        let email_id = match self.email_id {
            Some(e) => e,
            None => 0,
        };
        User {
            id: self.id,
            email_id,
            email,
            anonymous: self.anonymous,
            username: self.username,
            display: self.display,
            password,
            first_name: self.first_name,
            last_name: self.last_name,
            lastactive: self.lastactive,
            regdate: self.lastactive,
            timezone: self.timezone,
            loginattempts: self.loginattempts,
            loginlasttry: self.lastactive,
            tokens,
            groups,
        }
    }
}

impl SqlGroup {
    /// The group of this row, granting the given tokens, each once.
    pub fn into_group(self, tokens: &[String]) -> (g: Group)
        ensures
            g.id == self.id,
            g.display@ == self.display@,
            g.name@ == self.name@,
            g.wf(),
            texts(g.tokens@).to_set() == texts(tokens@).to_set(),
    {
        let mut all: Vec<String> = Vec::new();
        let mut i: usize = 0;
        while i < tokens.len()
            invariant
                0 <= i <= tokens@.len(),
                texts(all@) == texts(tokens@).take(i as int),
            decreases tokens@.len() - i,
        {
            let t = tokens[i].clone();
            assert(t@ == texts(tokens@)[i as int]);
            let ghost before = all@;
            all.push(t);
            assert(texts(all@) =~= texts(before).push(t@));
            assert(texts(all@) =~= texts(tokens@).take(i + 1));
            i += 1;
        }
        assert(texts(tokens@).take(tokens@.len() as int) =~= texts(tokens@));
        let set = distinct_tokens(all);
        assert(texts(all@) == texts(tokens@));
        Group { id: self.id, display: self.display, name: self.name, tokens: set }
    }
}

} // verus!
