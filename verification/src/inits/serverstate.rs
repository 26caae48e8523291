use vstd::prelude::*;

use std::collections::HashMap;
use vstd::std_specs::iter::IteratorSpec;

use crate::forms::user::{User, UserOnline, UserOnlineDisplay};

verus! {

broadcast use vstd::std_specs::hash::group_hash_axioms;

/// How long a user stays in the online list without being seen: five
/// seconds, in nanoseconds.
pub const STALE_AFTER_NANOS: u64 = 5_000_000_000;

/// How long the online list goes between two cleanings: one hour, in
/// nanoseconds.
pub const CLEAN_INTERVAL_NANOS: i128 = 3_600_000_000_000;

/// The state the server shares between requests: the users who are online,
/// by id, and the wall-clock time (nanoseconds since the Unix epoch) after
/// which the list is next cleaned.
pub struct ServerState {
    pub online: HashMap<i64, UserOnline>,
    pub clean_timer: i128,
}

/// A user last seen at `seen` is stale at `now`: at least five seconds have
/// passed (no time has passed where `now` is earlier).
pub open spec fn is_stale(seen: u64, now: u64) -> bool {
    now >= seen && now - seen >= STALE_AFTER_NANOS
}

/// The list after dropping every user who is stale at `now`.
pub open spec fn without_stale(online: Map<i64, UserOnline>, now: u64) -> Map<i64, UserOnline> {
    online.restrict(Set::new(|k: i64| !is_stale(online[k].time, now)))
}

/// The list after `user` is seen at `now`: a guest changes nothing; a
/// signed-in user is filed under their id, seen at `now`, keeping the name
/// the list already shows for them.
pub open spec fn with_seen(online: Map<i64, UserOnline>, user: User, now: u64) -> Map<i64, UserOnline> {
    if user.anonymous {
        online
    } else {
        let k = user.id as i64;
        online.insert(
            k,
            UserOnline {
                id: k,
                display: if online.contains_key(k) {
                    online[k].display
                } else {
                    user.display
                },
                time: now,
            },
        )
    }
}

/// `list` shows the users filed under `keys`, in that order, where `keys`
/// are the keys of `online`, each once.
pub open spec fn lists_online(list: Seq<UserOnlineDisplay>, online: Map<i64, UserOnline>, keys: Seq<i64>) -> bool {
    &&& keys.len() == list.len()
    &&& keys.no_duplicates()
    &&& forall|k: i64| online.contains_key(k) <==> #[trigger] keys.contains(k)
    &&& forall|i: int|
        0 <= i < list.len() ==> (#[trigger] list[i]).id == online[keys[i]].id && list[i].display@
            == online[keys[i]].display@
}

impl ServerState {
    /// Every user in the list is filed under their own id.
    pub open spec fn wf(&self) -> bool {
        forall|k: i64| #[trigger] self.online@.contains_key(k) ==> self.online@[k].id == k
    }

    /// A new state, with nobody online, to be cleaned an hour after `now`.
    pub fn new(now: i128) -> (s: ServerState)
        requires
            now <= i128::MAX - CLEAN_INTERVAL_NANOS,
        ensures
            s.wf(),
            s.online@ == Map::<i64, UserOnline>::empty(),
            s.clean_timer == now + CLEAN_INTERVAL_NANOS,
    {
        ServerState { online: HashMap::new(), clean_timer: now + CLEAN_INTERVAL_NANOS }
    }

    /// Drops every user who has not been seen for five seconds at `now`.
    pub fn clean_list(&mut self, now: u64)
        requires
            old(self).wf(),
        ensures
            final(self).wf(),
            final(self).clean_timer == old(self).clean_timer,
            final(self).online@ == without_stale(old(self).online@, now),
    {
        let mut removals: Vec<i64> = Vec::new();
        for entry in it: self.online.iter()
            invariant
                self.wf(),
                self.online@ == old(self).online@,
                self.clean_timer == old(self).clean_timer,
                it.seq() == vstd::std_specs::hash::spec_hash_map_iter(&self.online).remaining(),
                forall|j: int|
                    0 <= j < removals@.len() ==> self.online@.contains_key(#[trigger] removals@[j])
                        && is_stale(self.online@[removals@[j]].time, now),
                forall|t: int|
                    0 <= t < it.index() && is_stale((#[trigger] it.seq()[t]).1.time, now)
                        ==> removals@.contains(it.seq()[t].1.id),
        {
            proof {
                let t = it.index();
                assert(entry == it.seq()[t]);
                assert(self.online@.contains_key(*it.seq()[t].0));
            }
            if now >= entry.1.time && now - entry.1.time >= STALE_AFTER_NANOS {
                let ghost before = removals@;
                removals.push(entry.1.id);
                proof {
                    assert(removals@[removals@.len() - 1] == entry.1.id);
                    assert forall|x: i64| before.contains(x) implies #[trigger] removals@.contains(x) by {
                        let j = choose|j: int| 0 <= j < before.len() && before[j] == x;
                        assert(removals@[j] == x);
                    }
                }
            }
        }
        proof {
            let v = vstd::std_specs::hash::spec_hash_map_iter(&self.online).remaining();
            assert forall|k: i64|
                self.online@.contains_key(k) && is_stale(self.online@[k].time, now) implies #[trigger] removals@.contains(k) by {
                assert(v.contains((&k, &self.online@[k])));
                let t = choose|t: int| 0 <= t < v.len() && v[t] == (&k, &self.online@[k]);
                assert(v[t].1.id == k);
            }
        }
        let ghost start = self.online@;
        if removals.len() > 0 {
            let mut i: usize = 0;
            while i < removals.len()
                invariant
                    0 <= i <= removals@.len(),
                    self.clean_timer == old(self).clean_timer,
                    forall|k: i64| #[trigger] self.online@.contains_key(k) <==> (start.contains_key(k)
                        && forall|j: int| 0 <= j < i ==> #[trigger] removals@[j] != k),
                    forall|k: i64| #[trigger] self.online@.contains_key(k) ==> self.online@[k] == start[k],
                decreases removals@.len() - i,
            {
                self.online.remove(&removals[i]);
                i += 1;
            }
        }
        proof {
            assert forall|k: i64| #[trigger] removals@.contains(k) implies start.contains_key(k)
                && is_stale(start[k].time, now) by {
                let j = choose|j: int| 0 <= j < removals@.len() && removals@[j] == k;
            }
            assert(self.online@ =~= without_stale(start, now));
        }
    }

    /// Marks a signed-in user as seen at `now`, adding them to the list if
    /// they are not in it; a guest is not tracked.
    pub fn set_active(&mut self, user: &User, now: u64)
        requires
            old(self).wf(),
        ensures
            final(self).wf(),
            final(self).clean_timer == old(self).clean_timer,
            final(self).online@ == with_seen(old(self).online@, *user, now),
    {
        if user.anonymous {
            return;
        }
        let key = user.id as i64;
        let display = match self.online.get(&key) {
            Some(u) => u.display.clone(),
            None => user.display.clone(),
        };
        self.online.insert(key, UserOnline { id: key, display, time: now });
    }

    /// The users who are online, each once, in no particular order: one
    /// entry for each key of the list, showing the id and name of the user
    /// filed there.
    pub fn users_online(&self) -> (list: Vec<UserOnlineDisplay>)
        ensures
            list@.len() == self.online@.dom().len(),
            exists|keys: Seq<i64>| #[trigger] lists_online(list@, self.online@, keys),
    {
        let ghost v = vstd::std_specs::hash::spec_hash_map_iter(&self.online).remaining();
        let mut list: Vec<UserOnlineDisplay> = Vec::new();
        for entry in it: self.online.iter()
            invariant
                it.seq() == v,
                v == vstd::std_specs::hash::spec_hash_map_iter(&self.online).remaining(),
                v.no_duplicates(),
                list@.len() == it.index(),
                forall|t: int|
                    0 <= t < it.index() ==> (#[trigger] list@[t]).id == v[t].1.id
                        && list@[t].display@ == v[t].1.display@,
        {
            proof {
                let t = it.index();
                assert(entry == it.seq()[t]);
            }
            list.push(UserOnlineDisplay { display: entry.1.display.clone(), id: entry.1.id });
        }
        proof {
            let keys = v.map_values(|p: (&i64, &UserOnline)| *p.0);
            assert forall|i: int, j: int| 0 <= i < keys.len() && 0 <= j < keys.len() && i != j implies keys[i]
                != keys[j] by {
                assert(self.online@.contains_key(*v[i].0));
                assert(self.online@.contains_key(*v[j].0));
                if *v[i].0 == *v[j].0 {
                    assert(v[i] == v[j]);
                }
            }
            assert forall|k: i64| self.online@.contains_key(k) <==> #[trigger] keys.contains(k) by {
                if self.online@.contains_key(k) {
                    assert(v.contains((&k, &self.online@[k])));
                    let t = choose|t: int| 0 <= t < v.len() && v[t] == (&k, &self.online@[k]);
                    assert(keys[t] == k);
                }
                if keys.contains(k) {
                    let t = choose|t: int| 0 <= t < keys.len() && keys[t] == k;
                    assert(self.online@.contains_key(*v[t].0));
                }
            }
            assert forall|i: int| 0 <= i < list@.len() implies (#[trigger] list@[i]).id
                == self.online@[keys[i]].id && list@[i].display@ == self.online@[keys[i]].display@ by {
                assert(self.online@.contains_key(*v[i].0));
            }
            assert(lists_online(list@, self.online@, keys));
        }
        list
    }

    /// Whether the list is due for cleaning at wall-clock time `now`
    /// (nanoseconds since the Unix epoch): the cleaning time has passed.
    pub fn cleaning_due(&self, now: i128) -> (due: bool)
        ensures
            due == (self.clean_timer < now),
    {
        self.clean_timer < now
    }

    /// Sets the next cleaning an hour after wall-clock time `now`.
    pub fn schedule_cleaning(&mut self, now: i128)
        requires
            now <= i128::MAX - CLEAN_INTERVAL_NANOS,
        ensures
            final(self).clean_timer == now + CLEAN_INTERVAL_NANOS,
            final(self).online@ == old(self).online@,
    {
        self.clean_timer = now + CLEAN_INTERVAL_NANOS;
    }
}

/// A signed-in user who was just seen survives a cleaning at that moment,
/// under their own id.
pub proof fn law_just_seen_user_survives_cleaning(online: Map<i64, UserOnline>, user: User, now: u64)
    requires
        !user.anonymous,
    ensures
        without_stale(with_seen(online, user, now), now).contains_key(user.id as i64),
        without_stale(with_seen(online, user, now), now)[user.id as i64].id == user.id as i64,
{
}

/// Cleaning twice at the same moment is cleaning once.
pub proof fn law_cleaning_is_idempotent(online: Map<i64, UserOnline>, now: u64)
    ensures
        without_stale(without_stale(online, now), now) == without_stale(online, now),
{
    assert(without_stale(without_stale(online, now), now) =~= without_stale(online, now));
}

/// Seeing a guest leaves the list as it is.
pub proof fn law_guests_are_not_tracked(online: Map<i64, UserOnline>, user: User, now: u64)
    requires
        user.anonymous,
    ensures
        with_seen(online, user, now) == online,
{
}

/// Cleaning keeps every user filed under their own id, and never adds one.
pub proof fn law_cleaning_only_removes(online: Map<i64, UserOnline>, now: u64)
    requires
        forall|k: i64| #[trigger] online.contains_key(k) ==> online[k].id == k,
    ensures
        without_stale(online, now).dom().subset_of(online.dom()),
        forall|k: i64|
            #[trigger] without_stale(online, now).contains_key(k) ==> without_stale(online, now)[k]
                == online[k] && online[k].id == k,
{
}

/// Where every user is filed under their own id, the list of users online
/// names each of them once, by that id.
pub proof fn law_listed_ids_are_the_users_online(
    list: Seq<UserOnlineDisplay>,
    online: Map<i64, UserOnline>,
    keys: Seq<i64>,
)
    requires
        lists_online(list, online, keys),
        forall|k: i64| #[trigger] online.contains_key(k) ==> online[k].id == k,
    ensures
        forall|i: int| 0 <= i < list.len() ==> online.contains_key(#[trigger] list[i].id),
        forall|i: int, j: int| 0 <= i < j < list.len() ==> #[trigger] list[i].id != #[trigger] list[j].id,
        forall|k: i64|
            #[trigger] online.contains_key(k) ==> exists|i: int| 0 <= i < list.len() && #[trigger] list[i].id == k,
{
    assert forall|i: int| 0 <= i < list.len() implies online.contains_key(#[trigger] list[i].id) by {
        assert(keys.contains(keys[i]));
    }
    assert forall|i: int, j: int| 0 <= i < j < list.len() implies #[trigger] list[i].id != #[trigger] list[j].id by {
        assert(keys.contains(keys[i]));
        assert(keys.contains(keys[j]));
    }
    assert forall|k: i64| #[trigger] online.contains_key(k) implies exists|i: int|
        0 <= i < list.len() && #[trigger] list[i].id == k by {
        assert(keys.contains(k));
        let i = choose|i: int| 0 <= i < keys.len() && keys[i] == k;
        assert(keys.contains(keys[i]));
        assert(list[i].id == k);
    }
}

/// Cleaning at `now` drops exactly the users not seen for at least five
/// seconds (5 000 000 000 ns) before `now`, and keeps every other user as
/// it was; a user seen after `now` is kept.
pub proof fn law_cleaning_drops_users_unseen_for_five_seconds(online: Map<i64, UserOnline>, now: u64, k: i64)
    ensures
        online.contains_key(k) && now >= online[k].time + 5_000_000_000 ==> !without_stale(
            online,
            now,
        ).contains_key(k),
        online.contains_key(k) && now < online[k].time + 5_000_000_000 ==> without_stale(
            online,
            now,
        ).contains_key(k) && without_stale(online, now)[k] == online[k],
        !online.contains_key(k) ==> !without_stale(online, now).contains_key(k),
{
}

/// Seeing a signed-in user at `now` files them under their id, seen at
/// `now`, keeps the name already shown for them (their own name if they were
/// not listed), and leaves every other user as it was.
pub proof fn law_seeing_a_user(online: Map<i64, UserOnline>, user: User, now: u64)
    requires
        !user.anonymous,
    ensures
        ({
            let seen = with_seen(online, user, now);
            let k = user.id as i64;
            &&& seen.dom() == online.dom().insert(k)
            &&& seen[k].id == user.id
            &&& seen[k].time == now
            &&& seen[k].display@ == if online.contains_key(k) {
                online[k].display@
            } else {
                user.display@
            }
            &&& forall|j: i64| j != k && #[trigger] online.contains_key(j) ==> seen[j] == online[j]
        }),
{
}

} // verus!
