use vstd::prelude::*;
use vstd::string::StringExecFns;

use crate::forms::user::User;
use crate::models::user::{user_from_row, SqlUser};

verus! {

/// The query that counts the rows of a table.
pub open spec fn row_count_query_text(table_name: Seq<char>) -> Seq<char> {
    "SELECT Count(*) FROM "@ + table_name
}

/// The query that counts the rows of `table_name`.
pub fn row_count_query(table_name: &str) -> (query: String)
    ensures
        query@ == row_count_query_text(table_name@),
{
    let mut query = String::from_str("SELECT Count(*) FROM ");
    query.append(table_name);
    query
}

/// The row count as the site keeps it: the fetched count cut to 32 bits, or
/// 0 where the count could not be fetched.
pub fn row_count_or_zero(fetched: Option<i64>) -> (count: i32)
    ensures
        count == match fetched {
            Some(n) => n as i32,
            None => 0i32,
        },
{
    match fetched {
        Some(n) => n as i32,
        None => 0,
    }
}

/// The email shown for a user whose email could not be found.
pub open spec fn fallback_email() -> Seq<char> {
    "spirean@spirean.com"@
}

/// The users of a page of rows: each row with the email that was fetched
/// for it, or the fallback email where none was, and no permissions or
/// groups.
pub fn users_from_rows(rows: Vec<SqlUser>, emails: Vec<Option<String>>) -> (users: Vec<User>)
    requires
        emails@.len() == rows@.len(),
    ensures
        users@.len() == rows@.len(),
        forall|i: int|
            0 <= i < rows@.len() ==> user_from_row(
                #[trigger] users@[i],
                rows@[i],
                match emails@[i] {
                    Some(e) => e@,
                    None => fallback_email(),
                },
                None,
                None,
            ),
{
    let ghost all_rows = rows@;
    let ghost all_emails = emails@;
    let mut users: Vec<User> = Vec::with_capacity(rows.len());
    let mut rows = rows;
    let mut emails = emails;
    let mut i: usize = 0;
    let n = rows.len();
    while i < n
        invariant
            n == all_rows.len(),
            all_emails.len() == n,
            0 <= i <= n,
            rows@.len() == n - i,
            emails@.len() == n - i,
            rows@ == all_rows.skip(i as int),
            emails@ == all_emails.skip(i as int),
            users@.len() == i,
            forall|j: int|
                0 <= j < i ==> user_from_row(
                    #[trigger] users@[j],
                    all_rows[j],
                    match all_emails[j] {
                        Some(e) => e@,
                        None => fallback_email(),
                    },
                    None,
                    None,
                ),
        decreases n - i,
    {
        let row = rows.remove(0);
        let fetched = emails.remove(0);
        assert(rows@ =~= all_rows.skip(i + 1));
        assert(emails@ =~= all_emails.skip(i + 1));
        let email = match fetched {
            Some(e) => e,
            None => String::from_str("spirean@spirean.com"),
        };
        users.push(row.into_user(email, None, None));
        i += 1;
    }
    users
}

} // verus!
