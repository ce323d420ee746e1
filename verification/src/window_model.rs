//! What the sliding window achieves on a store that does what the Redis documentation says of
//! `ZREMRANGEBYSCORE`, `ZADD .. NX`, `ZCOUNT` and `ZREVRANGEBYSCORE .. LIMIT`.
//!
//! A sorted set whose members are their own scores is modelled as the sequence of its members
//! in ascending order, scores taken as exact. A check is modelled as what it is: the commands
//! that the limiter writes, run in one transaction, and what the limiter makes of the replies.
//! A transaction runs with no other command between its own, so that any number of concurrent
//! checks on a key amount to some sequence of checks. The lifetime that every check renews is
//! left out: it only removes a set that no check has touched for a whole window, and the
//! members of such a set are a window old or older. Nothing here is executable: the laws below
//! hold of the model, and of a real store as far as it behaves like the model.

use crate::counter_model::allowed_count;
use crate::counter_model::lemma_allowed_count;
use crate::entities::Decision;
use crate::entities::Identity;
use crate::key::law_request_key_injective;
use crate::key::mistaken_for;
use crate::key::request_key;
use crate::rate_limiters::sliding_window::oldest_fetched;
use crate::rate_limiters::sliding_window::sliding_window_decision;
use crate::rate_limiters::sliding_window::sliding_window_outcome;
use crate::rate_limiters::sliding_window::sliding_window_protocol;
use crate::rate_limiters::sliding_window::Window;
use crate::store::command;
use crate::store::lemma_words_of_command;
use crate::store::words_of;
use crate::store::PipedCommand;
use crate::text::decimal;
use crate::text::decimal_value;
use crate::text::law_written_numbers_are_read_back;
use crate::text::lemma_decimal_round_trip;
use vstd::prelude::*;

verus! {

/// Whether each member is smaller than the next.
pub open spec fn ascending(members: Seq<nat>) -> bool {
    forall|i: int, j: int| 0 <= i < j < members.len() ==> members[i] < members[j]
}

/// `ZREMRANGEBYSCORE key -inf (start`: the members without those below `start`.
pub open spec fn without_older(members: Seq<nat>, start: nat) -> Seq<nat>
    decreases members.len(),
{
    if members.len() == 0 || members[0] >= start {
        members
    } else {
        without_older(members.drop_first(), start)
    }
}

/// `ZADD key NX t t`: the members with `t` among them.
pub open spec fn with_member(members: Seq<nat>, t: nat) -> Seq<nat>
    decreases members.len(),
{
    if members.len() == 0 || members.last() < t {
        members.push(t)
    } else if members.last() == t {
        members
    } else {
        with_member(members.drop_last(), t).push(members.last())
    }
}

/// The last of what `ZREVRANGEBYSCORE key +inf -inf LIMIT 0 limit` replies: the oldest among
/// the newest `limit` members, and nothing where the reply is empty.
pub open spec fn oldest_of_newest(members: Seq<nat>, limit: nat) -> Option<nat> {
    if limit == 0 || members.len() == 0 {
        None
    } else if members.len() <= limit {
        Some(members[0])
    } else {
        Some(members[members.len() - limit])
    }
}

/// The members after the transaction of one check of a request at `now`, and the decision on
/// it.
pub open spec fn window_check(
    members: Seq<nat>,
    window_size: nat,
    window_nanos: nat,
    now: nat,
) -> (Seq<nat>, Decision) {
    let kept = without_older(members, (now - window_nanos) as nat);
    let recorded = with_member(kept, now);
    (
        recorded,
        sliding_window_decision(
            window_size,
            window_nanos,
            now,
            recorded.len(),
            oldest_of_newest(recorded, window_size),
        ),
    )
}

/// The members after checks of requests at each of the given instants in turn, and the
/// decisions on them.
pub open spec fn window_checks(
    members: Seq<nat>,
    window_size: nat,
    window_nanos: nat,
    instants: Seq<nat>,
) -> (Seq<nat>, Seq<Decision>)
    decreases instants.len(),
{
    if instants.len() == 0 {
        (members, Seq::empty())
    } else {
        let before = window_checks(members, window_size, window_nanos, instants.drop_last());
        let last = window_check(before.0, window_size, window_nanos, instants.last());
        (last.0, before.1.push(last.1))
    }
}

/// The first position from `i` on whose instant is no more than a window older than the
/// instant at position `j`.
pub open spec fn window_begin_from(instants: Seq<nat>, window_nanos: nat, j: int, i: int) -> int
    decreases j - i,
{
    if i >= j || instants[i] + window_nanos >= instants[j] {
        i
    } else {
        window_begin_from(instants, window_nanos, j, i + 1)
    }
}

/// The position of the oldest request that lies in the window of the request at position `j`.
pub open spec fn window_begin(instants: Seq<nat>, window_nanos: nat, j: int) -> int {
    window_begin_from(instants, window_nanos, j, 0)
}

/// Requests of one client as the laws take them: one after the other by the clock, none
/// before the first window can begin.
pub open spec fn in_sequence(window_nanos: nat, instants: Seq<nat>) -> bool {
    &&& instants.len() >= 1
    &&& ascending(instants)
    &&& window_nanos <= instants[0]
}

/// Dropping the older members of an ascending sequence leaves its members from the first one
/// on that is not older.
proof fn lemma_without_older(members: Seq<nat>, start: nat)
    requires
        ascending(members),
    ensures
        ({
            let kept = without_older(members, start);
            let dropped = members.len() - kept.len();
            &&& 0 <= dropped <= members.len()
            &&& kept == members.subrange(dropped, members.len() as int)
            &&& forall|i: int| 0 <= i < dropped ==> members[i] < start
            &&& forall|i: int| dropped <= i < members.len() ==> members[i] >= start
        }),
    decreases members.len(),
{
    if members.len() == 0 || members[0] >= start {
        assert(members.subrange(0, members.len() as int) =~= members);
    } else {
        let rest = members.drop_first();
        assert(ascending(rest)) by {
            assert forall|i: int, j: int| 0 <= i < j < rest.len() implies rest[i] < rest[j] by {
                assert(rest[i] == members[i + 1]);
                assert(rest[j] == members[j + 1]);
            }
        }
        lemma_without_older(rest, start);
        let kept = without_older(rest, start);
        let dropped = rest.len() - kept.len();
        assert(rest.subrange(dropped, rest.len() as int) =~= members.subrange(
            dropped + 1,
            members.len() as int,
        ));
        assert forall|i: int| 0 <= i < dropped + 1 implies members[i] < start by {
            if i > 0 {
                assert(rest[i - 1] == members[i]);
            }
        }
        assert forall|i: int| dropped + 1 <= i < members.len() implies members[i] >= start by {
            assert(rest[i - 1] == members[i]);
        }
    }
}

/// The window of the request at position `j` begins at the one position before which every
/// request is too old and from which on none is.
proof fn lemma_window_begin(instants: Seq<nat>, window_nanos: nat, j: int, i: int, begin: int)
    requires
        ascending(instants),
        0 <= i <= begin <= j < instants.len(),
        forall|k: int| i <= k < begin ==> instants[k] + window_nanos < instants[j],
        instants[begin] + window_nanos >= instants[j],
    ensures
        window_begin_from(instants, window_nanos, j, i) == begin,
    decreases begin - i,
{
    if i < begin {
        lemma_window_begin(instants, window_nanos, j, i + 1, begin);
    }
}

/// The window of the request at position `j` begins at or before `j`, holds every request from
/// its beginning up to `j`, and none before.
proof fn lemma_window_begin_bounds(instants: Seq<nat>, window_nanos: nat, j: int, i: int)
    requires
        ascending(instants),
        0 <= i <= j < instants.len(),
    ensures
        ({
            let begin = window_begin_from(instants, window_nanos, j, i);
            &&& i <= begin <= j
            &&& instants[begin] + window_nanos >= instants[j]
            &&& forall|k: int| i <= k < begin ==> instants[k] + window_nanos < instants[j]
            &&& forall|k: int| begin <= k <= j ==> instants[k] + window_nanos >= instants[j]
        }),
    decreases j - i,
{
    if !(i >= j || instants[i] + window_nanos >= instants[j]) {
        lemma_window_begin_bounds(instants, window_nanos, j, i + 1);
    }
}

/// A part of an ascending sequence is ascending.
proof fn lemma_ascending_subrange(members: Seq<nat>, from: int, to: int)
    requires
        ascending(members),
        0 <= from <= to <= members.len(),
    ensures
        ascending(members.subrange(from, to)),
{
    let part = members.subrange(from, to);
    assert forall|i: int, j: int| 0 <= i < j < part.len() implies part[i] < part[j] by {
        assert(part[i] == members[from + i]);
        assert(part[j] == members[from + j]);
    }
}

/// Where the store holds the requests of the window of the last request but one, the check of
/// the last request leaves it with the requests of the window of the last.
proof fn lemma_window_slides(window_nanos: nat, instants: Seq<nat>, earlier_begin: int)
    requires
        ascending(instants),
        instants.len() >= 2,
        window_nanos <= instants[0],
        0 <= earlier_begin <= instants.len() - 2,
        forall|k: int|
            0 <= k < earlier_begin ==> (#[trigger] instants[k]) + window_nanos
                < instants[instants.len() - 2],
    ensures
        ({
            let last = instants.len() - 1;
            let held = instants.subrange(earlier_begin, last);
            let kept = without_older(held, (instants[last] - window_nanos) as nat);
            let begin = window_begin(instants, window_nanos, last);
            &&& earlier_begin <= begin <= last
            &&& with_member(kept, instants[last]) == instants.subrange(
                begin,
                instants.len() as int,
            )
        }),
{
    let last = instants.len() - 1;
    let now = instants[last];
    let start = (now - window_nanos) as nat;
    let held = instants.subrange(earlier_begin, last);
    lemma_ascending_subrange(instants, earlier_begin, last);
    lemma_without_older(held, start);
    let kept = without_older(held, start);
    let dropped = held.len() - kept.len();
    let found = earlier_begin + dropped;
    assert(instants[last - 1] < instants[last]);
    assert forall|k: int| 0 <= k < found implies instants[k] + window_nanos < instants[last] by {
        if k >= earlier_begin {
            assert(held[k - earlier_begin] == instants[k]);
        }
    }
    assert(instants[found] + window_nanos >= instants[last]) by {
        if found < last {
            assert(held[dropped] == instants[found]);
        }
    }
    lemma_window_begin(instants, window_nanos, last, 0, found);
    assert(kept =~= instants.subrange(found, last));
    assert(kept.len() == 0 || kept.last() < now) by {
        if kept.len() > 0 {
            assert(kept.last() == instants[last - 1]);
        }
    }
    assert(with_member(kept, now) == kept.push(now));
    assert(kept.push(now) =~= instants.subrange(found, instants.len() as int));
}

/// After each check of a sequence on a fresh key the store holds the requests of the window of
/// the last one, that one included, and nothing else.
proof fn lemma_members_are_the_window(window_size: nat, window_nanos: nat, instants: Seq<nat>)
    requires
        in_sequence(window_nanos, instants),
    ensures
        ({
            let run = window_checks(Seq::empty(), window_size, window_nanos, instants);
            let last = instants.len() - 1;
            let begin = window_begin(instants, window_nanos, last);
            &&& run.1.len() == instants.len()
            &&& 0 <= begin <= last
            &&& forall|k: int| 0 <= k < begin ==> instants[k] + window_nanos < instants[last]
            &&& run.0 == instants.subrange(begin, instants.len() as int)
            &&& run.1[last] == sliding_window_decision(
                window_size,
                window_nanos,
                instants.last(),
                (instants.len() - begin) as nat,
                oldest_of_newest(instants.subrange(begin, instants.len() as int), window_size),
            )
        }),
    decreases instants.len(),
{
    let last = instants.len() - 1;
    let now = instants.last();
    let earlier = instants.drop_last();
    let before = window_checks(Seq::empty(), window_size, window_nanos, earlier);
    let start = (now - window_nanos) as nat;
    lemma_window_begin_bounds(instants, window_nanos, last, 0);
    if instants.len() == 1 {
        assert(earlier =~= Seq::<nat>::empty());
        assert(before.0 =~= Seq::<nat>::empty());
        assert(without_older(before.0, start) =~= Seq::<nat>::empty());
        assert(with_member(Seq::<nat>::empty(), now) =~= seq![now]);
        assert(instants.subrange(0, 1) =~= seq![now]);
    } else {
        lemma_ascending_subrange(instants, 0, last);
        assert(earlier =~= instants.subrange(0, last));
        assert(earlier[0] == instants[0]);
        lemma_members_are_the_window(window_size, window_nanos, earlier);
        let earlier_begin = window_begin(earlier, window_nanos, last - 1);
        assert(earlier.subrange(earlier_begin, earlier.len() as int) =~= instants.subrange(
            earlier_begin,
            last,
        ));
        assert forall|k: int| 0 <= k < earlier_begin implies (#[trigger] instants[k])
            + window_nanos < instants[instants.len() - 2] by {
            assert(earlier[k] == instants[k]);
            assert(earlier[last - 1] == instants[last - 1]);
        }
        lemma_window_slides(window_nanos, instants, earlier_begin);
    }
}

/// What checks of requests at the given instants on a fresh key come to.
pub open spec fn window_decisions(
    window_size: nat,
    window_nanos: nat,
    instants: Seq<nat>,
) -> Seq<Decision> {
    window_checks(Seq::empty(), window_size, window_nanos, instants).1
}

/// What came before a check does not depend on what comes after it.
proof fn lemma_earlier_decisions(
    window_size: nat,
    window_nanos: nat,
    instants: Seq<nat>,
    count: int,
)
    requires
        0 <= count <= instants.len(),
    ensures
        window_decisions(window_size, window_nanos, instants).len() == instants.len(),
        forall|i: int|
            0 <= i < count ==> window_decisions(window_size, window_nanos, instants)[i]
                == window_decisions(
                window_size,
                window_nanos,
                instants.subrange(0, count),
            )[i],
    decreases instants.len(),
{
    if count == instants.len() {
        assert(instants.subrange(0, count) =~= instants);
        if instants.len() > 0 {
            lemma_earlier_decisions(
                window_size,
                window_nanos,
                instants.drop_last(),
                instants.len() - 1,
            );
        }
    } else {
        lemma_earlier_decisions(window_size, window_nanos, instants.drop_last(), count);
        assert(instants.drop_last().subrange(0, count) =~= instants.subrange(0, count));
    }
}

/// Each request of a sequence is decided by the number of requests in the window that ends
/// with it.
proof fn lemma_counts_its_window(
    window_size: nat,
    window_nanos: nat,
    instants: Seq<nat>,
    j: int,
)
    requires
        in_sequence(window_nanos, instants),
        0 <= j < instants.len(),
    ensures
        ({
            let begin = window_begin(instants, window_nanos, j);
            &&& 0 <= begin <= j
            &&& forall|k: int| 0 <= k < begin ==> instants[k] + window_nanos < instants[j]
            &&& forall|k: int| begin <= k <= j ==> instants[k] + window_nanos >= instants[j]
            &&& window_decisions(window_size, window_nanos, instants)[j]
                == sliding_window_decision(
                window_size,
                window_nanos,
                instants[j],
                (j + 1 - begin) as nat,
                oldest_of_newest(instants.subrange(begin, j + 1), window_size),
            )
        }),
{
    let upto = instants.subrange(0, j + 1);
    lemma_earlier_decisions(window_size, window_nanos, instants, j + 1);
    assert(in_sequence(window_nanos, upto));
    lemma_members_are_the_window(window_size, window_nanos, upto);
    lemma_window_begin_bounds(upto, window_nanos, j, 0);
    let begin = window_begin(upto, window_nanos, j);
    assert forall|k: int| 0 <= k < begin implies instants[k] + window_nanos < instants[j] by {
        assert(upto[k] == instants[k]);
    }
    assert(upto[begin] == instants[begin]);
    assert(upto[j] == instants[j]);
    lemma_window_begin(instants, window_nanos, j, 0, begin);
    lemma_window_begin_bounds(instants, window_nanos, j, 0);
    assert(upto.subrange(begin, upto.len() as int) =~= instants.subrange(begin, j + 1));
}

/// Of requests within one window the first `window_size` are admitted and the others refused.
proof fn lemma_within_one_window(
    window_size: nat,
    window_nanos: nat,
    instants: Seq<nat>,
)
    requires
        in_sequence(window_nanos, instants),
        instants.last() <= instants[0] + window_nanos,
        window_nanos > 0,
    ensures
        window_decisions(window_size, window_nanos, instants).len() == instants.len(),
        forall|i: int|
            0 <= i < instants.len() ==> #[trigger] window_decisions(
                window_size,
                window_nanos,
                instants,
            )[i] == if i < window_size {
                Decision::Allowed { remaining: (window_size - (i + 1)) as nat }
            } else if window_size == 0 {
                Decision::Throttled { retry_nanos: window_nanos }
            } else {
                Decision::Throttled {
                    retry_nanos: (window_nanos - (instants[i] - instants[i + 1 - window_size])) as nat,
                }
            },
        forall|i: int|
            window_size <= i < instants.len() ==> (#[trigger] window_decisions(
                window_size,
                window_nanos,
                instants,
            )[i])->retry_nanos > 0,
{
    lemma_earlier_decisions(window_size, window_nanos, instants, 0);
    assert forall|i: int| 0 <= i < instants.len() implies ({
        let decision = #[trigger] window_decisions(window_size, window_nanos, instants)[i];
        &&& decision == if i < window_size {
            Decision::Allowed { remaining: (window_size - (i + 1)) as nat }
        } else if window_size == 0 {
            Decision::Throttled { retry_nanos: window_nanos }
        } else {
            Decision::Throttled {
                retry_nanos: (window_nanos - (instants[i] - instants[i + 1 - window_size])) as nat,
            }
        }
        &&& i >= window_size ==> decision->retry_nanos > 0
    }) by {
        lemma_counts_its_window(window_size, window_nanos, instants, i);
        let begin = window_begin(instants, window_nanos, i);
        if begin > 0 {
            assert(instants[0] + window_nanos < instants[i]);
            assert(instants[i] <= instants.last());
            assert(false);
        }
        let held = instants.subrange(0, i + 1);
        if i >= window_size && window_size > 0 {
            assert(held[held.len() - window_size] == instants[i + 1 - window_size]);
            assert(instants[0] < instants[i + 1 - window_size] || i + 1 - window_size == 0);
            if i + 1 - window_size == 0 {
                assert(false);
            }
            assert(instants[i] <= instants.last());
        }
    }
}

/// What the store replies to a command: a number, or a list of members.
pub enum Reply {
    Number(int),
    Members(Seq<Seq<char>>),
}

/// The sorted set of a key, which is empty where the store has none.
pub open spec fn members_of(store: Map<Seq<char>, Seq<nat>>, key: Seq<char>) -> Seq<nat> {
    if store.contains_key(key) {
        store[key]
    } else {
        Seq::empty()
    }
}

/// The newest members from the newest down, no more than `limit` of them, as the store writes
/// them.
pub open spec fn newest_members(members: Seq<nat>, limit: nat) -> Seq<Seq<char>> {
    let count = if members.len() <= limit {
        members.len()
    } else {
        limit
    };
    Seq::new(count, |i: int| decimal(members[members.len() - 1 - i]))
}

/// The store after one command, and the command's reply. Only the commands that the limiter
/// sends are told apart, each in the form in which it sends them; any other command leaves the
/// store as it is, and so does `EXPIRE`.
pub open spec fn run_command(store: Map<Seq<char>, Seq<nat>>, words: Seq<Seq<char>>) -> (
    Map<Seq<char>, Seq<nat>>,
    Reply,
) {
    if words.len() == 4 && words[0] == "ZREMRANGEBYSCORE"@ && words[2] == "-inf"@ && words[3].len()
        > 0 && words[3][0] == '(' {
        let members = members_of(store, words[1]);
        let kept = without_older(
            members,
            decimal_value(words[3].subrange(1, words[3].len() as int)),
        );
        (store.insert(words[1], kept), Reply::Number(members.len() - kept.len()))
    } else if words.len() == 5 && words[0] == "ZADD"@ && words[2] == "NX"@ {
        let members = members_of(store, words[1]);
        let recorded = with_member(members, decimal_value(words[3]));
        (store.insert(words[1], recorded), Reply::Number(recorded.len() - members.len()))
    } else if words.len() == 4 && words[0] == "ZCOUNT"@ && words[2] == "-inf"@ && words[3]
        == "+inf"@ {
        (store, Reply::Number(members_of(store, words[1]).len() as int))
    } else if words.len() == 7 && words[0] == "ZREVRANGEBYSCORE"@ && words[2] == "+inf"@ && words[3]
        == "-inf"@ && words[4] == "LIMIT"@ && words[5] == "0"@ {
        (
            store,
            Reply::Members(newest_members(members_of(store, words[1]), decimal_value(words[6]))),
        )
    } else {
        (store, Reply::Number(0))
    }
}

/// The store after the commands of a pipeline have run in one transaction, and the replies
/// that the pipeline keeps.
pub open spec fn run_transaction(store: Map<Seq<char>, Seq<nat>>, commands: Seq<PipedCommand>) -> (
    Map<Seq<char>, Seq<nat>>,
    Seq<Reply>,
)
    decreases commands.len(),
{
    if commands.len() == 0 {
        (store, Seq::empty())
    } else {
        let before = run_transaction(store, commands.drop_last());
        let last = run_command(before.0, words_of(commands.last()));
        (
            last.0,
            if commands.last().ignored {
                before.1
            } else {
                before.1.push(last.1)
            },
        )
    }
}

/// The store after one check of a sliding window on `key` for a request at `now`, and what the
/// check comes to: what the limiter makes of the replies that its commands get.
pub open spec fn sliding_window_check(
    store: Map<Seq<char>, Seq<nat>>,
    key: Seq<char>,
    window_size: nat,
    window_nanos: nat,
    duration_secs: nat,
    now: nat,
) -> (Map<Seq<char>, Seq<nat>>, Option<Decision>) {
    let window = Window { now: now as u64, start: (now - window_nanos) as u64 };
    let done = run_transaction(
        store,
        sliding_window_protocol(key, window, window_size, duration_secs),
    );
    (
        done.0,
        sliding_window_outcome(
            window_size,
            window_nanos,
            now,
            done.1[0]->Number_0 as nat,
            done.1[1]->Members_0,
        ),
    )
}

/// The store after checks of a sliding window on `key` for requests at each of the given
/// instants in turn, and what they come to.
pub open spec fn sliding_window_checks(
    store: Map<Seq<char>, Seq<nat>>,
    key: Seq<char>,
    window_size: nat,
    window_nanos: nat,
    duration_secs: nat,
    instants: Seq<nat>,
) -> (Map<Seq<char>, Seq<nat>>, Seq<Option<Decision>>)
    decreases instants.len(),
{
    if instants.len() == 0 {
        (store, Seq::empty())
    } else {
        let before = sliding_window_checks(
            store,
            key,
            window_size,
            window_nanos,
            duration_secs,
            instants.drop_last(),
        );
        let last = sliding_window_check(
            before.0,
            key,
            window_size,
            window_nanos,
            duration_secs,
            instants.last(),
        );
        (last.0, before.1.push(last.1))
    }
}

/// The decisions of a sliding window on requests at the given instants; none for a check that
/// fails.
pub open spec fn sliding_window_decisions(
    window_size: nat,
    window_nanos: nat,
    duration_secs: nat,
    store: Map<Seq<char>, Seq<nat>>,
    key: Seq<char>,
    instants: Seq<nat>,
) -> Seq<Option<Decision>> {
    sliding_window_checks(store, key, window_size, window_nanos, duration_secs, instants).1
}

/// Whether each member is a timestamp of 64 bits.
pub open spec fn all_fit(members: Seq<nat>) -> bool {
    forall|i: int| 0 <= i < members.len() ==> #[trigger] members[i] <= u64::MAX
}

/// Requests of one client as the laws take them: the key is fresh, the requests come one after
/// the other by the clock, none before the first window can begin, and their timestamps fit in
/// 64 bits.
pub open spec fn fresh_sequence(
    store: Map<Seq<char>, Seq<nat>>,
    key: Seq<char>,
    window_nanos: nat,
    instants: Seq<nat>,
) -> bool {
    &&& members_of(store, key).len() == 0
    &&& in_sequence(window_nanos, instants)
    &&& instants.last() <= u64::MAX
}

/// What is left after older members are dropped were members before.
proof fn lemma_without_older_fits(members: Seq<nat>, start: nat)
    requires
        all_fit(members),
    ensures
        all_fit(without_older(members, start)),
    decreases members.len(),
{
    if !(members.len() == 0 || members[0] >= start) {
        let rest = members.drop_first();
        assert forall|i: int| 0 <= i < rest.len() implies #[trigger] rest[i] <= u64::MAX by {
            assert(rest[i] == members[i + 1]);
        }
        lemma_without_older_fits(rest, start);
    }
}

/// With one more member that fits, all members fit.
proof fn lemma_with_member_fits(members: Seq<nat>, t: nat)
    requires
        all_fit(members),
        t <= u64::MAX,
    ensures
        all_fit(with_member(members, t)),
        with_member(members, t).len() > 0,
    decreases members.len(),
{
    if members.len() == 0 || members.last() < t {
    } else if members.last() == t {
    } else {
        let rest = members.drop_last();
        assert forall|i: int| 0 <= i < rest.len() implies #[trigger] rest[i] <= u64::MAX by {
            assert(rest[i] == members[i]);
        }
        lemma_with_member_fits(rest, t);
        let all = with_member(rest, t).push(members.last());
        assert forall|i: int| 0 <= i < all.len() implies #[trigger] all[i] <= u64::MAX by {
            if i < all.len() - 1 {
                assert(all[i] == with_member(rest, t)[i]);
            } else {
                assert(all[i] == members[members.len() - 1]);
            }
        }
    }
}

/// The last of the members that the store fetches reads as the oldest of the newest.
proof fn lemma_oldest_fetched(members: Seq<nat>, limit: nat)
    requires
        all_fit(members),
    ensures
        oldest_fetched(newest_members(members, limit)) == Some(oldest_of_newest(members, limit)),
{
    let fetched = newest_members(members, limit);
    if fetched.len() > 0 {
        let oldest = members[members.len() - fetched.len()];
        assert(fetched.last() == decimal(oldest));
        law_written_numbers_are_read_back(oldest as u64);
    }
}

/// The names of the commands that take four words differ.
proof fn lemma_command_names()
    ensures
        "ZREMRANGEBYSCORE"@ != "ZCOUNT"@,
{
    reveal_strlit("ZREMRANGEBYSCORE");
    reveal_strlit("ZCOUNT");
    assert("ZREMRANGEBYSCORE"@.len() == 16);
    assert("ZCOUNT"@.len() == 6);
}

/// The commands of a sliding window come to one check: the members older than the window are
/// dropped, the request is recorded, and the decision is made on the count and on the oldest
/// of the newest members.
proof fn lemma_sliding_window_transaction(
    store: Map<Seq<char>, Seq<nat>>,
    key: Seq<char>,
    window_size: nat,
    window_nanos: nat,
    duration_secs: nat,
    now: nat,
)
    requires
        window_nanos <= now <= u64::MAX,
        all_fit(members_of(store, key)),
    ensures
        sliding_window_check(store, key, window_size, window_nanos, duration_secs, now) == ({
            let check = window_check(members_of(store, key), window_size, window_nanos, now);
            (store.insert(key, check.0), Some(check.1))
        }),
        all_fit(window_check(members_of(store, key), window_size, window_nanos, now).0),
{
    let start = (now - window_nanos) as nat;
    let window = Window { now: now as u64, start: start as u64 };
    let bound = seq!['('] + decimal(start);
    let words0 = seq!["ZREMRANGEBYSCORE"@, key, "-inf"@, bound];
    let words1 = seq!["ZADD"@, key, "NX"@, decimal(now), decimal(now)];
    let words2 = seq!["ZCOUNT"@, key, "-inf"@, "+inf"@];
    let words3 = seq![
        "ZREVRANGEBYSCORE"@,
        key,
        "+inf"@,
        "-inf"@,
        "LIMIT"@,
        "0"@,
        decimal(window_size),
    ];
    let words4 = seq!["EXPIRE"@, key, decimal(duration_secs)];
    let command0 = command(words0, true);
    let command1 = command(words1, true);
    let command2 = command(words2, false);
    let command3 = command(words3, false);
    let command4 = command(words4, true);
    let all = sliding_window_protocol(key, window, window_size, duration_secs);
    assert(all =~= seq![command0, command1, command2, command3, command4]);
    lemma_words_of_command(words0, true);
    lemma_words_of_command(words1, true);
    lemma_words_of_command(words2, false);
    lemma_words_of_command(words3, false);
    lemma_words_of_command(words4, true);
    lemma_command_names();
    lemma_decimal_round_trip(start);
    lemma_decimal_round_trip(now);
    lemma_decimal_round_trip(window_size);
    assert(bound.subrange(1, bound.len() as int) =~= decimal(start));
    assert(bound[0] == '(');

    let members = members_of(store, key);
    let kept = without_older(members, start);
    let recorded = with_member(kept, now);
    lemma_without_older_fits(members, start);
    lemma_with_member_fits(kept, now);
    lemma_oldest_fetched(recorded, window_size);

    let first0 = Seq::<PipedCommand>::empty();
    let first1 = seq![command0];
    let first2 = seq![command0, command1];
    let first3 = seq![command0, command1, command2];
    let first4 = seq![command0, command1, command2, command3];
    assert(first1.drop_last() =~= first0);
    assert(first2.drop_last() =~= first1);
    assert(first3.drop_last() =~= first2);
    assert(first4.drop_last() =~= first3);
    assert(all.drop_last() =~= first4);
    let run0 = run_transaction(store, first0);
    assert(run0 == (store, Seq::<Reply>::empty()));
    let run1 = run_transaction(store, first1);
    assert(run1.0 == store.insert(key, kept) && run1.1 =~= Seq::<Reply>::empty());
    let run2 = run_transaction(store, first2);
    assert(members_of(run1.0, key) == kept);
    assert(run2.0 =~= store.insert(key, recorded) && run2.1 =~= Seq::<Reply>::empty());
    assert(members_of(run2.0, key) == recorded);
    let run3 = run_transaction(store, first3);
    assert(run3.0 == run2.0 && run3.1 =~= seq![Reply::Number(recorded.len() as int)]);
    let run4 = run_transaction(store, first4);
    let fetched = Reply::Members(newest_members(recorded, window_size));
    assert(run4.0 == run2.0 && run4.1 =~= seq![Reply::Number(recorded.len() as int), fetched]);
    let run5 = run_transaction(store, all);
    assert(run5.0 == run2.0 && run5.1 == run4.1);
}

/// Checks of a sliding window in turn on a fresh key come to checks of a sorted set that
/// starts empty.
proof fn lemma_sliding_window_checks(
    store: Map<Seq<char>, Seq<nat>>,
    key: Seq<char>,
    window_size: nat,
    window_nanos: nat,
    duration_secs: nat,
    instants: Seq<nat>,
)
    requires
        members_of(store, key).len() == 0,
        instants.len() > 0 ==> fresh_sequence(store, key, window_nanos, instants),
    ensures
        ({
            let run = sliding_window_checks(
                store,
                key,
                window_size,
                window_nanos,
                duration_secs,
                instants,
            );
            let sets = window_checks(Seq::empty(), window_size, window_nanos, instants);
            &&& members_of(run.0, key) == sets.0
            &&& all_fit(sets.0)
            &&& run.1.len() == instants.len()
            &&& sets.1.len() == instants.len()
            &&& forall|i: int| 0 <= i < instants.len() ==> #[trigger] run.1[i] == Some(sets.1[i])
        }),
    decreases instants.len(),
{
    if instants.len() == 0 {
        assert(members_of(store, key) =~= Seq::<nat>::empty());
    } else {
        let earlier = instants.drop_last();
        if earlier.len() > 0 {
            assert(earlier[0] == instants[0]);
            assert(earlier.last() == instants[instants.len() - 2]);
            assert(ascending(earlier)) by {
                assert forall|i: int, j: int| 0 <= i < j < earlier.len() implies earlier[i]
                    < earlier[j] by {
                    assert(earlier[i] == instants[i]);
                    assert(earlier[j] == instants[j]);
                }
            }
            assert(instants[instants.len() - 2] < instants[instants.len() - 1]);
        }
        lemma_sliding_window_checks(
            store,
            key,
            window_size,
            window_nanos,
            duration_secs,
            earlier,
        );
        let before = sliding_window_checks(
            store,
            key,
            window_size,
            window_nanos,
            duration_secs,
            earlier,
        );
        assert(instants[0] <= instants.last()) by {
            if instants.len() > 1 {
                assert(instants[0] < instants[instants.len() - 1]);
            }
        }
        lemma_sliding_window_transaction(
            before.0,
            key,
            window_size,
            window_nanos,
            duration_secs,
            instants.last(),
        );
    }
}

/// A sliding window decides on each request of a fresh client by the number of requests in
/// the window that ends with it: those that are no more than `window_nanos` older, and itself.
/// A request that it refuses is told to wait until the oldest of the newest `window_size`
/// requests leaves the window.
pub proof fn law_sliding_window_counts_its_window(
    window_size: nat,
    window_nanos: nat,
    duration_secs: nat,
    store: Map<Seq<char>, Seq<nat>>,
    key: Seq<char>,
    instants: Seq<nat>,
    j: int,
)
    requires
        fresh_sequence(store, key, window_nanos, instants),
        0 <= j < instants.len(),
    ensures
        ({
            let begin = window_begin(instants, window_nanos, j);
            &&& 0 <= begin <= j
            &&& forall|k: int| 0 <= k < begin ==> instants[k] + window_nanos < instants[j]
            &&& forall|k: int| begin <= k <= j ==> instants[k] + window_nanos >= instants[j]
            &&& sliding_window_decisions(
                window_size,
                window_nanos,
                duration_secs,
                store,
                key,
                instants,
            )[j] == Some(
                sliding_window_decision(
                    window_size,
                    window_nanos,
                    instants[j],
                    (j + 1 - begin) as nat,
                    oldest_of_newest(instants.subrange(begin, j + 1), window_size),
                ),
            )
        }),
{
    lemma_sliding_window_checks(store, key, window_size, window_nanos, duration_secs, instants);
    lemma_counts_its_window(window_size, window_nanos, instants, j);
}

/// As long as all requests of a fresh client lie within one window, a sliding window admits the
/// first `window_size` of them, each with one request less left than the one before, down to
/// zero. It refuses every later one and tells it to wait, for more than no time and no longer
/// than the window lasts.
pub proof fn law_sliding_window_within_one_window(
    window_size: nat,
    window_nanos: nat,
    duration_secs: nat,
    store: Map<Seq<char>, Seq<nat>>,
    key: Seq<char>,
    instants: Seq<nat>,
)
    requires
        fresh_sequence(store, key, window_nanos, instants),
        instants.last() <= instants[0] + window_nanos,
        window_nanos > 0,
    ensures
        sliding_window_decisions(
            window_size,
            window_nanos,
            duration_secs,
            store,
            key,
            instants,
        ).len() == instants.len(),
        forall|i: int|
            0 <= i < instants.len() ==> #[trigger] sliding_window_decisions(
                window_size,
                window_nanos,
                duration_secs,
                store,
                key,
                instants,
            )[i] == Some(
                if i < window_size {
                    Decision::Allowed { remaining: (window_size - (i + 1)) as nat }
                } else if window_size == 0 {
                    Decision::Throttled { retry_nanos: window_nanos }
                } else {
                    Decision::Throttled {
                        retry_nanos: (window_nanos - (instants[i] - instants[i + 1
                            - window_size])) as nat,
                    }
                },
            ),
        forall|i: int|
            window_size <= i < instants.len() ==> 0 < (#[trigger] sliding_window_decisions(
                window_size,
                window_nanos,
                duration_secs,
                store,
                key,
                instants,
            )[i])->Some_0->retry_nanos <= window_nanos,
{
    lemma_sliding_window_checks(store, key, window_size, window_nanos, duration_secs, instants);
    lemma_within_one_window(window_size, window_nanos, instants);
    let closed = window_decisions(window_size, window_nanos, instants);
    assert forall|i: int| window_size <= i < instants.len() implies 0 < (
    #[trigger] sliding_window_decisions(
        window_size,
        window_nanos,
        duration_secs,
        store,
        key,
        instants,
    )[i])->Some_0->retry_nanos <= window_nanos by {
        assert(closed[i]->retry_nanos > 0);
    }
}

/// The decisions of checks that did not fail.
pub open spec fn decided(outcomes: Seq<Option<Decision>>) -> Seq<Decision> {
    Seq::new(outcomes.len(), |i: int| outcomes[i]->Some_0)
}

/// However many requests of a fresh client lie within one window, a sliding window admits
/// exactly `window_size` of them, or all where there are fewer.
pub proof fn law_sliding_window_admits_the_limit(
    window_size: nat,
    window_nanos: nat,
    duration_secs: nat,
    store: Map<Seq<char>, Seq<nat>>,
    key: Seq<char>,
    instants: Seq<nat>,
)
    requires
        fresh_sequence(store, key, window_nanos, instants),
        instants.last() <= instants[0] + window_nanos,
        window_nanos > 0,
    ensures
        allowed_count(
            decided(
                sliding_window_decisions(
                    window_size,
                    window_nanos,
                    duration_secs,
                    store,
                    key,
                    instants,
                ),
            ),
        ) == if instants.len() <= window_size {
            instants.len()
        } else {
            window_size
        },
{
    law_sliding_window_within_one_window(
        window_size,
        window_nanos,
        duration_secs,
        store,
        key,
        instants,
    );
    let outcomes = sliding_window_decisions(
        window_size,
        window_nanos,
        duration_secs,
        store,
        key,
        instants,
    );
    assert forall|i: int| 0 <= i < decided(outcomes).len() implies (#[trigger] decided(
        outcomes,
    )[i] is Allowed <==> i < window_size) by {
        assert(decided(outcomes)[i] == outcomes[i]->Some_0);
    }
    lemma_allowed_count(decided(outcomes), window_size);
}

/// No window that ends with an admitted request holds more than `window_size` requests of the
/// client, admitted or not: where the requests from position `i` up to an admitted one at
/// position `j` are no more than a window apart, there are no more than `window_size` of them.
pub proof fn law_sliding_window_never_exceeds_the_limit(
    window_size: nat,
    window_nanos: nat,
    duration_secs: nat,
    store: Map<Seq<char>, Seq<nat>>,
    key: Seq<char>,
    instants: Seq<nat>,
    i: int,
    j: int,
)
    requires
        fresh_sequence(store, key, window_nanos, instants),
        0 <= i <= j < instants.len(),
        instants[i] + window_nanos >= instants[j],
        sliding_window_decisions(
            window_size,
            window_nanos,
            duration_secs,
            store,
            key,
            instants,
        )[j] matches Some(decision) && decision is Allowed,
    ensures
        j - i + 1 <= window_size,
{
    law_sliding_window_counts_its_window(
        window_size,
        window_nanos,
        duration_secs,
        store,
        key,
        instants,
        j,
    );
}

/// What a sliding window answers a client does not depend on the checks of another client: a
/// check for the identity `b` comes to the same whether or not a check for a different
/// identity `a` went before it. This holds of any two identities that do not share a key.
pub proof fn law_sliding_window_identities_are_independent(
    a: Identity,
    b: Identity,
    store: Map<Seq<char>, Seq<nat>>,
    window_size: nat,
    window_nanos: nat,
    duration_secs: nat,
    now: nat,
    later: nat,
)
    requires
        a != b,
        !mistaken_for(a, b),
        !mistaken_for(b, a),
        window_nanos <= now <= u64::MAX,
        window_nanos <= later <= u64::MAX,
        all_fit(members_of(store, request_key(a))),
        all_fit(members_of(store, request_key(b))),
    ensures
        ({
            let after = sliding_window_check(
                store,
                request_key(a),
                window_size,
                window_nanos,
                duration_secs,
                now,
            ).0;
            sliding_window_check(
                after,
                request_key(b),
                window_size,
                window_nanos,
                duration_secs,
                later,
            ).1 == sliding_window_check(
                store,
                request_key(b),
                window_size,
                window_nanos,
                duration_secs,
                later,
            ).1
        }),
{
    law_request_key_injective(a, b);
    let after = sliding_window_check(
        store,
        request_key(a),
        window_size,
        window_nanos,
        duration_secs,
        now,
    ).0;
    lemma_sliding_window_transaction(
        store,
        request_key(a),
        window_size,
        window_nanos,
        duration_secs,
        now,
    );
    assert(members_of(after, request_key(b)) == members_of(store, request_key(b)));
    lemma_sliding_window_transaction(
        store,
        request_key(b),
        window_size,
        window_nanos,
        duration_secs,
        later,
    );
    lemma_sliding_window_transaction(
        after,
        request_key(b),
        window_size,
        window_nanos,
        duration_secs,
        later,
    );
}

} // verus!
