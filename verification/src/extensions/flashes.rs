use vstd::prelude::*;
use vstd::string::StringExecFns;

use crate::text::{has_substring, lemma_text_holds_its_trim, occurs_at, lowercase, trim_whitespace, str_contains, str_to_lowercase, str_trim};

verus! {

/// The level of a flash message.
pub enum Level {
    Debug,
    Info,
    Success,
    Warning,
    Error,
}

/// The name under which a level is stored.
pub open spec fn level_name(level: Level) -> Seq<char> {
    match level {
        Level::Debug => "debug"@,
        Level::Info => "info"@,
        Level::Success => "success"@,
        Level::Warning => "warning"@,
        Level::Error => "error"@,
    }
}

pub fn level_to_string(level: &Level) -> (name: String)
    ensures
        name@ == level_name(*level),
{
    match level {
        Level::Debug => String::from_str("debug"),
        Level::Info => String::from_str("info"),
        Level::Success => String::from_str("success"),
        Level::Warning => String::from_str("warning"),
        Level::Error => String::from_str("error"),
    }
}

/// The flash messages of a request: (level name, message) pairs in the order
/// they were added, and the number of field errors among the incoming ones.
#[derive(Clone, Debug)]
pub struct Flashes {
    pub store: Vec<(String, String)>,
    pub error_count: usize,
}

/// A stored message as plain text.
pub open spec fn entry_view(e: (String, String)) -> (Seq<char>, Seq<char>) {
    (e.0@, e.1@)
}

/// The text that marks a message as the error of one form field.
pub open spec fn field_error_prefix() -> Seq<char> {
    "Field Error: "@
}

/// A stored message is an error whose lowercased text holds the trimmed,
/// lowercased query.
pub open spec fn matches_query(e: (Seq<char>, Seq<char>), query: Seq<char>) -> bool {
    &&& has_substring(e.0, "error"@)
    &&& has_substring(lowercase(e.1), trim_whitespace(lowercase(query)))
}

/// A stored message counts as a field error: its level is exactly "error"
/// and its text holds "Field Error:".
pub open spec fn is_field_error(e: (Seq<char>, Seq<char>)) -> bool {
    e.0 == "error"@ && has_substring(e.1, "Field Error:"@)
}

impl Default for Flashes {
    fn default() -> (f: Self)
        ensures
            f.entries() == Seq::<(Seq<char>, Seq<char>)>::empty(),
            f.error_count == 0,
    {
        let f = Flashes { store: Vec::new(), error_count: 0 };
        assert(f.entries() =~= Seq::<(Seq<char>, Seq<char>)>::empty());
        f
    }
}

impl Flashes {
    /// The stored messages as plain text.
    pub open spec fn entries(&self) -> Seq<(Seq<char>, Seq<char>)> {
        self.store@.map_values(|e: (String, String)| entry_view(e))
    }

    /// The messages that `contains` and `get_field_errors` look for.
    pub open spec fn matching(&self, query: Seq<char>) -> Seq<(Seq<char>, Seq<char>)> {
        self.entries().filter(|e: (Seq<char>, Seq<char>)| matches_query(e, query))
    }

    fn push_entry(&mut self, level: &str, msg: String)
        ensures
            final(self).entries() == old(self).entries().push((level@, msg@)),
            final(self).error_count == old(self).error_count,
    {
        self.store.push((String::from_str(level), msg));
        assert(self.entries() =~= old(self).entries().push((level@, msg@)));
    }

    pub fn error(&mut self, msg: String)
        ensures
            final(self).entries() == old(self).entries().push(("error"@, msg@)),
            final(self).error_count == old(self).error_count,
    {
        self.push_entry("error", msg);
    }

    /// Adds an error message, prefixed with "Field Error: ".
    pub fn field_error(&mut self, msg: String)
        ensures
            final(self).entries() == old(self).entries().push(("error"@, field_error_prefix() + msg@)),
            final(self).error_count == old(self).error_count,
    {
        let mut text = String::from_str("Field Error: ");
        text.append(msg.as_str());
        self.push_entry("error", text);
    }

    pub fn success(&mut self, msg: String)
        ensures
            final(self).entries() == old(self).entries().push(("success"@, msg@)),
            final(self).error_count == old(self).error_count,
    {
        self.push_entry("success", msg);
    }

    pub fn info(&mut self, msg: String)
        ensures
            final(self).entries() == old(self).entries().push(("info"@, msg@)),
            final(self).error_count == old(self).error_count,
    {
        self.push_entry("info", msg);
    }

    pub fn debug(&mut self, msg: String)
        ensures
            final(self).entries() == old(self).entries().push(("debug"@, msg@)),
            final(self).error_count == old(self).error_count,
    {
        self.push_entry("debug", msg);
    }

    /// Whether some error message holds `msg`, ignoring case and the white
    /// space around `msg`.
    pub fn contains(&self, msg: String) -> (found: bool)
        ensures
            found == exists|i: int|
                0 <= i < self.entries().len() && matches_query(#[trigger] self.entries()[i], msg@),
    {
        let lowered = str_to_lowercase(msg.as_str());
        let query = str_trim(lowered.as_str());
        let mut i: usize = 0;
        while i < self.store.len()
            invariant
                0 <= i <= self.store.len(),
                query@ == trim_whitespace(lowercase(msg@)),
                forall|j: int| 0 <= j < i ==> !matches_query(#[trigger] self.entries()[j], msg@),
            decreases self.store.len() - i,
        {
            let entry = &self.store[i];
            assert(self.entries()[i as int] == entry_view(*entry));
            if str_contains(entry.0.as_str(), "error") {
                let text = str_to_lowercase(entry.1.as_str());
                if str_contains(text.as_str(), query) {
                    return true;
                }
            }
            i += 1;
        }
        false
    }

    /// The error messages that hold `msg`, ignoring case and the white space
    /// around `msg`, in the order they were added.
    pub fn get_field_errors(&self, msg: String) -> (found: Vec<(String, String)>)
        ensures
            found@.map_values(|e: (String, String)| entry_view(e)) == self.matching(msg@),
    {
        let lowered = str_to_lowercase(msg.as_str());
        let query = str_trim(lowered.as_str());
        let ghost pred = |e: (Seq<char>, Seq<char>)| matches_query(e, msg@);
        let mut found: Vec<(String, String)> = Vec::new();
        let mut i: usize = 0;
        while i < self.store.len()
            invariant
                0 <= i <= self.store.len(),
                query@ == trim_whitespace(lowercase(msg@)),
                pred == (|e: (Seq<char>, Seq<char>)| matches_query(e, msg@)),
                found@.map_values(|e: (String, String)| entry_view(e))
                    == self.entries().take(i as int).filter(pred),
            decreases self.store.len() - i,
        {
            let entry = &self.store[i];
            let ghost before = found@;
            assert(self.entries()[i as int] == entry_view(*entry));
            let mut keep = false;
            if str_contains(entry.0.as_str(), "error") {
                let text = str_to_lowercase(entry.1.as_str());
                keep = str_contains(text.as_str(), query);
            }
            assert(keep == pred(self.entries()[i as int]));
            if keep {
                found.push((entry.0.clone(), entry.1.clone()));
            }
            proof {
                reveal_with_fuel(Seq::<_>::filter, 1);
                assert(self.entries().take(i + 1).drop_last() =~= self.entries().take(i as int));
                assert(found@.map_values(|e: (String, String)| entry_view(e))
                    =~= self.entries().take(i + 1).filter(pred));
            }
            i += 1;
        }
        assert(self.entries().take(self.store.len() as int) =~= self.entries());
        found
    }

    /// The flashes of a request, from its incoming (level, message) pairs:
    /// each level stored under its name, and the field errors counted.
    pub fn from_incoming(incoming: Vec<(Level, String)>) -> (f: Flashes)
        ensures
            f.entries().len() == incoming@.len(),
            forall|i: int|
                0 <= i < incoming@.len() ==> #[trigger] f.entries()[i] == (
                    level_name(incoming@[i].0),
                    incoming@[i].1@,
                ),
            f.error_count == f.entries().filter(|e: (Seq<char>, Seq<char>)| is_field_error(e)).len(),
    {
        let ghost pred = |e: (Seq<char>, Seq<char>)| is_field_error(e);
        let error_name = String::from_str("error");
        let mut store: Vec<(String, String)> = Vec::new();
        let mut error_count: usize = 0;
        let mut rest = incoming;
        let ghost all = rest@;
        let mut i: usize = 0;
        while i < rest.len()
            invariant
                rest@ == all,
                0 <= i <= all.len(),
                store@.len() == i,
                error_name@ == "error"@,
                pred == (|e: (Seq<char>, Seq<char>)| is_field_error(e)),
                forall|j: int|
                    0 <= j < i ==> #[trigger] entry_view(store@[j]) == (
                        level_name(all[j].0),
                        all[j].1@,
                    ),
                error_count as int == store@.map_values(|e: (String, String)| entry_view(e)).filter(pred).len(),
            decreases all.len() - i,
        {
            let name = level_to_string(&rest[i].0);
            let text = rest[i].1.clone();
            let counted = name == error_name && str_contains(text.as_str(), "Field Error:");
            let ghost before = store@;
            store.push((name, text));
            proof {
                reveal_with_fuel(Seq::<_>::filter, 1);
                let v = store@.map_values(|e: (String, String)| entry_view(e));
                assert(v.drop_last() =~= before.map_values(|e: (String, String)| entry_view(e)));
                assert(v.last() == entry_view(store@[i as int]));
                assert(counted == pred(v.last()));
                assert(v.filter(pred).len() <= v.len()) by {
                    v.lemma_filter_len(pred);
                }
            }
            if counted {
                error_count += 1;
            }
            i += 1;
        }
        let f = Flashes { store, error_count };
        assert(f.entries() == store@.map_values(|e: (String, String)| entry_view(e)));
        f
    }
}

/// `contains` finds a message exactly when `get_field_errors` returns at
/// least one, for every store and every query.
pub proof fn law_contains_iff_field_errors_found(f: Flashes, query: Seq<char>)
    ensures
        (exists|i: int| 0 <= i < f.entries().len() && matches_query(#[trigger] f.entries()[i], query))
            <==> f.matching(query).len() > 0,
{
    let pred = |e: (Seq<char>, Seq<char>)| matches_query(e, query);
    let e = f.entries();
    if exists|i: int| 0 <= i < e.len() && matches_query(#[trigger] e[i], query) {
        let i = choose|i: int| 0 <= i < e.len() && matches_query(#[trigger] e[i], query);
        e.lemma_filter_contains(pred, i);
    }
    if f.matching(query).len() > 0 {
        let x = e.filter(pred)[0];
        e.lemma_filter_pred(pred, 0);
        assert(e.filter(pred).contains(x));
        e.lemma_filter_contains_rev(pred, x);
        let i = choose|i: int| 0 <= i < e.len() && e[i] == x;
        assert(matches_query(e[i], query));
    }
}

/// Every message that `get_field_errors` returns is a stored error message.
pub proof fn law_field_errors_are_stored_errors(f: Flashes, query: Seq<char>, k: int)
    requires
        0 <= k < f.matching(query).len(),
    ensures
        f.entries().contains(f.matching(query)[k]),
        has_substring(f.matching(query)[k].0, "error"@),
{
    let pred = |e: (Seq<char>, Seq<char>)| matches_query(e, query);
    let e = f.entries();
    e.lemma_filter_pred(pred, k);
    assert(e.filter(pred).contains(e.filter(pred)[k]));
    e.lemma_filter_contains_rev(pred, e.filter(pred)[k]);
}

/// An error message is found by every query that its lowercased text holds
/// once the query is lowercased and trimmed.
pub proof fn law_added_error_is_found(f: Flashes, msg: Seq<char>, query: Seq<char>)
    requires
        has_substring(lowercase(msg), trim_whitespace(lowercase(query))),
    ensures
        ({
            let e = f.entries().push(("error"@, msg));
            exists|i: int| 0 <= i < e.len() && matches_query(#[trigger] e[i], query)
        }),
{
    let e = f.entries().push(("error"@, msg));
    assert(occurs_at("error"@, "error"@, 0)) by {
        assert("error"@.subrange(0, "error"@.len() as int) =~= "error"@);
    }
    assert(matches_query(e[e.len() - 1], query));
}

/// Messages of the levels debug, info and success are never found by
/// `contains`: only errors are searched.
pub proof fn law_only_errors_are_searched(msg: Seq<char>, query: Seq<char>)
    ensures
        !matches_query(("debug"@, msg), query),
        !matches_query(("info"@, msg), query),
        !matches_query(("success"@, msg), query),
{
    reveal_strlit("error");
    reveal_strlit("debug");
    reveal_strlit("info");
    reveal_strlit("success");
    assert forall|i: int| !#[trigger] occurs_at("debug"@, "error"@, i) by {
        if 0 <= i && i + 5 <= 5 {
            assert("debug"@.subrange(i, i + 5)[0] != "error"@[0]);
        }
    }
    assert forall|i: int| !#[trigger] occurs_at("success"@, "error"@, i) by {
        if 0 <= i && i + 5 <= 7 {
            assert("success"@.subrange(i, i + 5)[0] != "error"@[0]);
        }
    }
}

/// A message added by `field_error` counts as a field error once it comes
/// back with the next request.
pub proof fn law_field_error_is_counted(msg: Seq<char>)
    ensures
        is_field_error(("error"@, field_error_prefix() + msg)),
{
    reveal_strlit("Field Error: ");
    reveal_strlit("Field Error:");
    let text = field_error_prefix() + msg;
    assert(text.subrange(0, "Field Error:"@.len() as int) =~= "Field Error:"@);
    assert(occurs_at(text, "Field Error:"@, 0));
}

/// After `error(m)`, `contains(m)` holds, for every store and every text `m`.
pub proof fn law_error_is_found_by_its_text(f: Flashes, msg: Seq<char>)
    ensures
        ({
            let e = f.entries().push(("error"@, msg));
            exists|i: int| 0 <= i < e.len() && matches_query(#[trigger] e[i], msg)
        }),
{
    lemma_text_holds_its_trim(lowercase(msg));
    law_added_error_is_found(f, msg, msg);
}

/// `contains` answers whether some stored message has a level holding
/// "error" and a lowercased text holding the whole trimmed, lowercased
/// query: no other message matches.
pub proof fn law_contains_needs_the_whole_query(f: Flashes, query: Seq<char>)
    ensures
        (exists|i: int| 0 <= i < f.entries().len() && matches_query(#[trigger] f.entries()[i], query))
            <==> (exists|i: int|
            0 <= i < f.entries().len() && has_substring((#[trigger] f.entries()[i]).0, "error"@)
                && has_substring(lowercase(f.entries()[i].1), trim_whitespace(lowercase(query)))),
{
}

/// `get_field_errors` returns stored messages only, each with a level holding
/// "error" and a lowercased text holding the whole trimmed, lowercased query,
/// and it returns every such message, none more often than it is stored.
pub proof fn law_field_errors_are_the_messages_holding_the_query(f: Flashes, query: Seq<char>)
    ensures
        forall|k: int|
            0 <= k < f.matching(query).len() ==> {
                &&& f.entries().contains(#[trigger] f.matching(query)[k])
                &&& has_substring(f.matching(query)[k].0, "error"@)
                &&& has_substring(lowercase(f.matching(query)[k].1), trim_whitespace(lowercase(query)))
            },
        forall|i: int|
            0 <= i < f.entries().len() && has_substring((#[trigger] f.entries()[i]).0, "error"@)
                && has_substring(lowercase(f.entries()[i].1), trim_whitespace(lowercase(query)))
                ==> f.matching(query).contains(f.entries()[i]),
        f.matching(query).len() <= f.entries().len(),
{
    let pred = |e: (Seq<char>, Seq<char>)| matches_query(e, query);
    let e = f.entries();
    assert forall|k: int| 0 <= k < f.matching(query).len() implies {
        &&& f.entries().contains(#[trigger] f.matching(query)[k])
        &&& has_substring(f.matching(query)[k].0, "error"@)
        &&& has_substring(lowercase(f.matching(query)[k].1), trim_whitespace(lowercase(query)))
    } by {
        law_field_errors_are_stored_errors(f, query, k);
        e.lemma_filter_pred(pred, k);
    }
    assert forall|i: int|
        0 <= i < e.len() && has_substring((#[trigger] e[i]).0, "error"@)
            && has_substring(lowercase(e[i].1), trim_whitespace(lowercase(query)))
            implies f.matching(query).contains(e[i]) by {
        e.lemma_filter_contains(pred, i);
    }
    e.lemma_filter_len(pred);
}

/// Counting a single incoming message: it is a field error exactly when its
/// level is "error" and its text holds "Field Error:".
pub proof fn law_field_error_needs_the_marker(level: Level, text: Seq<char>)
    ensures
        is_field_error((level_name(level), text)) <==> (level is Error && has_substring(
            text,
            "Field Error:"@,
        )),
{
    lemma_level_names_distinct(level);
}

proof fn lemma_level_names_distinct(level: Level)
    ensures
        level_name(level) == "error"@ <==> level is Error,
{
    reveal_strlit("error");
    reveal_strlit("debug");
    reveal_strlit("info");
    reveal_strlit("success");
    reveal_strlit("warning");
    if !(level is Error) {
        assert(level_name(level)[0] != "error"@[0] || level_name(level).len() != "error"@.len());
    }
}

/// The messages of `incoming` at level Error whose text holds
/// "Field Error:".
pub open spec fn incoming_field_errors(incoming: Seq<(Level, String)>) -> nat
    decreases incoming.len(),
{
    if incoming.len() == 0 {
        0
    } else {
        incoming_field_errors(incoming.drop_last()) + if incoming.last().0 is Error && has_substring(
            incoming.last().1@,
            "Field Error:"@,
        ) {
            1nat
        } else {
            0nat
        }
    }
}

proof fn lemma_count_matches(incoming: Seq<(Level, String)>, entries: Seq<(Seq<char>, Seq<char>)>)
    requires
        entries.len() == incoming.len(),
        forall|i: int|
            0 <= i < incoming.len() ==> #[trigger] entries[i] == (level_name(incoming[i].0), incoming[i].1@),
    ensures
        entries.filter(|e: (Seq<char>, Seq<char>)| is_field_error(e)).len() == incoming_field_errors(incoming),
    decreases incoming.len(),
{
    reveal_with_fuel(Seq::<_>::filter, 1);
    if incoming.len() > 0 {
        let n = incoming.len() - 1;
        lemma_count_matches(incoming.drop_last(), entries.drop_last());
        lemma_level_names_distinct(incoming[n].0);
        assert(entries[n] == (level_name(incoming[n].0), incoming[n].1@));
    }
}

/// `from_incoming` counts exactly the incoming messages at level Error whose
/// text holds "Field Error:": the count is stated in terms of the incoming
/// messages themselves.
pub proof fn law_from_incoming_counts_marked_errors(incoming: Seq<(Level, String)>, f: Flashes)
    requires
        f.entries().len() == incoming.len(),
        forall|i: int|
            0 <= i < incoming.len() ==> #[trigger] f.entries()[i] == (
                level_name(incoming[i].0),
                incoming[i].1@,
            ),
        f.error_count == f.entries().filter(|e: (Seq<char>, Seq<char>)| is_field_error(e)).len(),
    ensures
        f.error_count == incoming_field_errors(incoming),
        incoming_field_errors(incoming) <= incoming.len(),
{
    lemma_count_matches(incoming, f.entries());
    f.entries().lemma_filter_len(|e: (Seq<char>, Seq<char>)| is_field_error(e));
}

} // verus!
