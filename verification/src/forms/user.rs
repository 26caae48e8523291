use vstd::prelude::*;
use vstd::string::StringExecFns;

use chrono::NaiveDateTime;

use crate::datetime::{calendar_date, clock_time, date_and_time, date_from_ymd, datetime_new, time_from_hms_milli};

verus! {

/// The texts of a list of strings.
pub open spec fn texts(v: Seq<String>) -> Seq<Seq<char>> {
    v.map_values(|s: String| s@)
}

/// Whether `tokens` holds a token with the text `t`.
pub(crate) fn holds_token(tokens: &Vec<String>, t: &String) -> (found: bool)
    ensures
        found == texts(tokens@).contains(t@),
{
    let mut i: usize = 0;
    while i < tokens.len()
        invariant
            0 <= i <= tokens@.len(),
            forall|j: int| 0 <= j < i ==> texts(tokens@)[j] != t@,
        decreases tokens@.len() - i,
    {
        if tokens[i] == *t {
            assert(texts(tokens@)[i as int] == t@);
            return true;
        }
        i += 1;
    }
    false
}

/// The distinct tokens of a list, each once, in the order of their first
/// occurrence.
pub(crate) fn distinct_tokens(tokens: Vec<String>) -> (set: Vec<String>)
    ensures
        texts(set@).no_duplicates(),
        texts(set@).to_set() == texts(tokens@).to_set(),
{
    let mut set: Vec<String> = Vec::new();
    let mut i: usize = 0;
    while i < tokens.len()
        invariant
            0 <= i <= tokens@.len(),
            texts(set@).no_duplicates(),
            texts(set@).to_set() == texts(tokens@.take(i as int)).to_set(),
        decreases tokens@.len() - i,
    {
        let t = &tokens[i];
        let ghost before = set@;
        if !holds_token(&set, t) {
            set.push(t.clone());
            assert(texts(set@) =~= texts(before).push(t@));
        }
        assert(texts(tokens@.take(i + 1)) =~= texts(tokens@.take(i as int)).push(t@));
        proof {
            texts(tokens@.take(i as int)).lemma_push_to_set_commute(t@);
            texts(before).lemma_push_to_set_commute(t@);
            if texts(before).contains(t@) {
                assert(texts(before).to_set().contains(t@));
                assert(texts(before).to_set().insert(t@) =~= texts(before).to_set());
            }
        }
        i += 1;
    }
    assert(tokens@.take(tokens@.len() as int) =~= tokens@);
    set
}

/// A user of the site. The tokens are the user's permissions, each held once.
#[derive(Debug)]
pub struct User {
    pub id: i32,
    pub email_id: i32,
    pub email: String,
    pub anonymous: bool,
    pub username: String,
    pub display: String,
    pub password: Option<String>,
    pub first_name: String,
    pub last_name: String,
    pub lastactive: NaiveDateTime,
    pub regdate: NaiveDateTime,
    pub timezone: String,
    pub loginattempts: i32,
    pub loginlasttry: NaiveDateTime,
    pub tokens: Vec<String>,
    pub groups: Vec<Group>,
}

/// A group of users and the permission tokens it grants, each held once.
#[derive(Debug)]
pub struct Group {
    pub id: i32,
    pub name: String,
    pub display: String,
    pub tokens: Vec<String>,
}

/// The moment that stands for every date of a guest: 2015-06-03 12:34:56.789.
pub open spec fn guest_moment() -> NaiveDateTime {
    date_and_time(calendar_date(2015, 6, 3), clock_time(12, 34, 56, 789))
}

impl Default for User {
    /// The guest: anonymous user 1, who may view categories.
    fn default() -> (u: Self)
        ensures
            u.id == 1,
            u.email_id == 0,
            u.email@ == Seq::<char>::empty(),
            u.anonymous,
            u.username@ == "Guest"@,
            u.display@ == "Guest"@,
            u.password is None,
            u.first_name@ == "Guest"@,
            u.last_name@ == "None"@,
            u.lastactive == guest_moment(),
            u.regdate == guest_moment(),
            u.timezone@ == "UTC"@,
            u.loginattempts == 0,
            u.loginlasttry == guest_moment(),
            texts(u.tokens@) == seq!["category:view"@],
            u.groups@.len() == 0,
    {
        let d = date_from_ymd(2015, 6, 3);
        let t = time_from_hms_milli(12, 34, 56, 789);
        let mut tokens: Vec<String> = Vec::new();
        tokens.push(String::from_str("category:view"));
        let u = User {
            id: 1,
            email_id: 0,
            email: String::new(),
            anonymous: true,
            username: String::from_str("Guest"),
            display: String::from_str("Guest"),
            password: None,
            first_name: String::from_str("Guest"),
            last_name: String::from_str("None"),
            lastactive: datetime_new(d, t),
            regdate: datetime_new(d, t),
            timezone: String::from_str("UTC"),
            loginattempts: 0,
            loginlasttry: datetime_new(d, t),
            tokens,
            groups: Vec::new(),
        };
        assert(texts(u.tokens@) =~= seq!["category:view"@]);
        u
    }
}

impl User {
    /// Every token of the user is held once.
    pub open spec fn wf(&self) -> bool {
        texts(self.tokens@).no_duplicates()
    }

    /// The user's permission tokens as a set of texts.
    pub open spec fn token_set(&self) -> Set<Seq<char>> {
        texts(self.tokens@).to_set()
    }

    /// Whether the user holds every one of `rights`.
    pub fn check_rights(&self, rights: &[String]) -> (ok: bool)
        ensures
            ok == forall|i: int| 0 <= i < rights@.len() ==> texts(self.tokens@).contains(#[trigger] rights@[i]@),
    {
        let mut i: usize = 0;
        while i < rights.len()
            invariant
                0 <= i <= rights@.len(),
                forall|j: int| 0 <= j < i ==> texts(self.tokens@).contains(#[trigger] rights@[j]@),
            decreases rights@.len() - i,
        {
            if !holds_token(&self.tokens, &rights[i]) {
                return false;
            }
            i += 1;
        }
        true
    }

    /// The permissions every user has: administration and modifying users.
    pub fn has(&self, perm: &str) -> (granted: bool)
        ensures
            granted == (perm@ == "Token::UseAdmin"@ || perm@ == "Token::ModifyUser"@),
    {
        let perm = String::from_str(perm);
        perm == String::from_str("Token::UseAdmin") || perm == String::from_str("Token::ModifyUser")
    }

    pub fn is_authenticated(&self) -> (b: bool)
        ensures
            b == !self.anonymous,
    {
        !self.anonymous
    }

    pub fn is_active(&self) -> (b: bool)
        ensures
            b == !self.anonymous,
    {
        !self.anonymous
    }

    pub fn is_anonymous(&self) -> (b: bool)
        ensures
            b == self.anonymous,
    {
        self.anonymous
    }
}

impl Group {
    /// Every token of the group is held once.
    pub open spec fn wf(&self) -> bool {
        texts(self.tokens@).no_duplicates()
    }
}

/// A user who is online, and when the user was last seen (in nanoseconds
/// of the server's monotonic clock).
#[derive(Debug)]
pub struct UserOnline {
    pub id: i64,
    pub display: String,
    pub time: u64,
}

/// What the site shows of a user who is online.
#[derive(Debug)]
pub struct UserOnlineDisplay {
    pub id: i64,
    pub display: String,
}

/// The fields of the sign-in form.
#[derive(Debug)]
pub struct SignInForm {
    pub name: String,
    pub password: String,
    pub remeber_me: bool,
}

} // verus!
