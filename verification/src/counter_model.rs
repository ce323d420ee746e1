//! What the token bucket and the fixed window achieve on a store that does what the Redis
//! documentation says of `SETNX`, `EXPIRE .. NX`, `INCRBY` and `TTL`.
//!
//! The store is modelled as a map from keys to counters, time as milliseconds on the store's
//! clock. A check is modelled as what it is: the commands that the limiter writes, run in one
//! transaction, and the limiter's decision on the replies. A transaction runs at one instant
//! and with no other command between its own, so that any number of concurrent checks on a
//! key amount to some sequence of checks. Nothing here is executable: the laws below hold of
//! the model, and of a real store as far as it behaves like the model.

use crate::entities::Decision;
use crate::entities::Identity;
use crate::key::law_request_key_injective;
use crate::key::mistaken_for;
use crate::key::request_key;
use crate::rate_limiters::fixed_window::fixed_window_decision;
use crate::rate_limiters::fixed_window::fixed_window_protocol;
use crate::rate_limiters::retry_nanos_of_ttl;
use crate::rate_limiters::token_bucket::token_bucket_decision;
use crate::rate_limiters::token_bucket::token_bucket_protocol;
use crate::store::command;
use crate::store::lemma_words_of_command;
use crate::store::words_of;
use crate::store::PipedCommand;
use crate::text::decimal;
use crate::text::decimal_value;
use crate::text::lemma_decimal_round_trip;
use crate::text::lemma_numeral_digits;
use vstd::prelude::*;

verus! {

/// A counter of the store.
pub struct Counter {
    /// The number it holds.
    pub value: int,
    /// The last instant at which it is still there, if it has a lifetime.
    pub deadline: Option<int>,
}

/// Whether the store holds a counter under `key` at the instant `now`.
pub open spec fn live(store: Map<Seq<char>, Counter>, key: Seq<char>, now: int) -> bool {
    store.contains_key(key) && match store[key].deadline {
        Some(deadline) => now <= deadline,
        None => true,
    }
}

/// `SETNX key value`: sets the counter if there is none.
pub open spec fn set_if_absent(
    store: Map<Seq<char>, Counter>,
    key: Seq<char>,
    value: int,
    now: int,
) -> Map<Seq<char>, Counter> {
    if live(store, key, now) {
        store
    } else {
        store.insert(key, Counter { value, deadline: None })
    }
}

/// `EXPIRE key seconds NX`: gives the counter a lifetime if it has none; a lifetime of no
/// seconds removes it at once.
pub open spec fn expire_if_lasting(
    store: Map<Seq<char>, Counter>,
    key: Seq<char>,
    seconds: nat,
    now: int,
) -> Map<Seq<char>, Counter> {
    if live(store, key, now) && store[key].deadline is None {
        if seconds == 0 {
            store.remove(key)
        } else {
            store.insert(
                key,
                Counter { value: store[key].value, deadline: Some(now + seconds * 1000) },
            )
        }
    } else {
        store
    }
}

/// `INCRBY key delta`: adds to the counter, which starts at zero where there is none, and
/// replies with the new number.
pub open spec fn increment(
    store: Map<Seq<char>, Counter>,
    key: Seq<char>,
    delta: int,
    now: int,
) -> (Map<Seq<char>, Counter>, int) {
    if live(store, key, now) {
        (
            store.insert(
                key,
                Counter { value: store[key].value + delta, deadline: store[key].deadline },
            ),
            store[key].value + delta,
        )
    } else {
        (store.insert(key, Counter { value: delta, deadline: None }), delta)
    }
}

/// `TTL key`: the remaining lifetime rounded to whole seconds, `-1` for a counter without
/// lifetime and `-2` where there is no counter.
pub open spec fn time_to_live(store: Map<Seq<char>, Counter>, key: Seq<char>, now: int) -> int {
    if !live(store, key, now) {
        -2
    } else {
        match store[key].deadline {
            Some(deadline) => (deadline - now + 500) / 1000,
            None => -1,
        }
    }
}

/// The number that an argument denotes: decimal digits, after a minus sign for a negative
/// number.
pub open spec fn integer_value(word: Seq<char>) -> int {
    if word.len() > 0 && word[0] == '-' {
        -(decimal_value(word.subrange(1, word.len() as int)) as int)
    } else {
        decimal_value(word) as int
    }
}

/// The store after one command at the instant `now`, and the command's reply. Only the four
/// commands that the limiters send are told apart, `EXPIRE` only in its form with `NX`; any
/// other command leaves the store as it is.
pub open spec fn run_command(store: Map<Seq<char>, Counter>, words: Seq<Seq<char>>, now: int) -> (
    Map<Seq<char>, Counter>,
    int,
) {
    if words.len() == 3 && words[0] == "SETNX"@ {
        (set_if_absent(store, words[1], integer_value(words[2]), now), if live(
            store,
            words[1],
            now,
        ) {
            0int
        } else {
            1int
        })
    } else if words.len() == 4 && words[0] == "EXPIRE"@ && words[3] == "NX"@ {
        (
            expire_if_lasting(store, words[1], integer_value(words[2]) as nat, now),
            if live(store, words[1], now) && store[words[1]].deadline is None {
                1int
            } else {
                0int
            },
        )
    } else if words.len() == 3 && words[0] == "INCRBY"@ {
        increment(store, words[1], integer_value(words[2]), now)
    } else if words.len() == 2 && words[0] == "TTL"@ {
        (store, time_to_live(store, words[1], now))
    } else {
        (store, 0)
    }
}

/// The store after the commands of a pipeline have run in one transaction at the instant
/// `now`, and the replies that the pipeline keeps.
pub open spec fn run_transaction(
    store: Map<Seq<char>, Counter>,
    commands: Seq<PipedCommand>,
    now: int,
) -> (Map<Seq<char>, Counter>, Seq<int>)
    decreases commands.len(),
{
    if commands.len() == 0 {
        (store, Seq::empty())
    } else {
        let before = run_transaction(store, commands.drop_last(), now);
        let last = run_command(before.0, words_of(commands.last()), now);
        (
            last.0,
            if commands.last().ignored {
                before.1
            } else {
                before.1.push(last.1)
            },
        )
    }
}

/// The store after one check of a token bucket on `key` at the instant `now`, and the
/// decision: what the limiter decides on the replies that its commands get.
pub open spec fn token_bucket_check(
    store: Map<Seq<char>, Counter>,
    key: Seq<char>,
    bucket_size: nat,
    validity_secs: nat,
    now: int,
) -> (Map<Seq<char>, Counter>, Decision) {
    let done = run_transaction(store, token_bucket_protocol(key, bucket_size, validity_secs), now);
    (done.0, token_bucket_decision(done.1[0], done.1[1]))
}

/// The store after one check of a fixed window on `key` at the instant `now`, and the
/// decision: what the limiter decides on the replies that its commands get.
pub open spec fn fixed_window_check(
    store: Map<Seq<char>, Counter>,
    key: Seq<char>,
    window_size: nat,
    duration_secs: nat,
    now: int,
) -> (Map<Seq<char>, Counter>, Decision) {
    let done = run_transaction(store, fixed_window_protocol(key, duration_secs), now);
    (done.0, fixed_window_decision(window_size, done.1[0] as nat, done.1[1]))
}

/// The store after checks of a token bucket on `key` at each of the given instants in turn,
/// and the decisions.
pub open spec fn token_bucket_checks(
    store: Map<Seq<char>, Counter>,
    key: Seq<char>,
    bucket_size: nat,
    validity_secs: nat,
    instants: Seq<int>,
) -> (Map<Seq<char>, Counter>, Seq<Decision>)
    decreases instants.len(),
{
    if instants.len() == 0 {
        (store, Seq::empty())
    } else {
        let before = token_bucket_checks(
            store,
            key,
            bucket_size,
            validity_secs,
            instants.drop_last(),
        );
        let last = token_bucket_check(before.0, key, bucket_size, validity_secs, instants.last());
        (last.0, before.1.push(last.1))
    }
}

/// The store after checks of a fixed window on `key` at each of the given instants in turn,
/// and the decisions.
pub open spec fn fixed_window_checks(
    store: Map<Seq<char>, Counter>,
    key: Seq<char>,
    window_size: nat,
    duration_secs: nat,
    instants: Seq<int>,
) -> (Map<Seq<char>, Counter>, Seq<Decision>)
    decreases instants.len(),
{
    if instants.len() == 0 {
        (store, Seq::empty())
    } else {
        let before = fixed_window_checks(
            store,
            key,
            window_size,
            duration_secs,
            instants.drop_last(),
        );
        let last = fixed_window_check(before.0, key, window_size, duration_secs, instants.last());
        (last.0, before.1.push(last.1))
    }
}

/// What the transaction of one check comes to: the counter is made with its initial value
/// and its lifetime if there is none, and moved by `delta`; the replies that are kept are the
/// new value and the time left. The token bucket starts its counter at the bucket size and
/// counts down by one; the fixed window starts at zero and counts up by one.
pub open spec fn counter_check(
    store: Map<Seq<char>, Counter>,
    key: Seq<char>,
    initial: int,
    delta: int,
    lifetime_secs: nat,
    now: int,
) -> (Map<Seq<char>, Counter>, int, int) {
    let created = set_if_absent(store, key, initial, now);
    let timed = expire_if_lasting(created, key, lifetime_secs, now);
    let counted = increment(timed, key, delta, now);
    (counted.0, counted.1, time_to_live(counted.0, key, now))
}

/// The store after checks on `key` at each of the given instants in turn, and their replies.
pub open spec fn counter_checks(
    store: Map<Seq<char>, Counter>,
    key: Seq<char>,
    initial: int,
    delta: int,
    lifetime_secs: nat,
    instants: Seq<int>,
) -> (Map<Seq<char>, Counter>, Seq<(int, int)>)
    decreases instants.len(),
{
    if instants.len() == 0 {
        (store, Seq::empty())
    } else {
        let before = counter_checks(store, key, initial, delta, lifetime_secs, instants.drop_last());
        let last = counter_check(before.0, key, initial, delta, lifetime_secs, instants.last());
        (last.0, before.1.push((last.1, last.2)))
    }
}

/// Checks that fall into one window: the key is fresh at the first of them, they come in
/// order, and the last of them is made before the lifetime that the first one started has
/// passed.
pub open spec fn within_one_window(
    store: Map<Seq<char>, Counter>,
    key: Seq<char>,
    lifetime_secs: nat,
    instants: Seq<int>,
) -> bool {
    &&& lifetime_secs >= 1
    &&& instants.len() >= 1
    &&& !live(store, key, instants[0])
    &&& forall|i: int, j: int| 0 <= i <= j < instants.len() ==> instants[i] <= instants[j]
    &&& instants.last() <= instants[0] + lifetime_secs * 1000
}

/// What the store replies to each check of one window: the counter moved once per check, and
/// the time left of the lifetime that the first check started.
pub proof fn lemma_replies_within_one_window(
    store: Map<Seq<char>, Counter>,
    key: Seq<char>,
    initial: int,
    delta: int,
    lifetime_secs: nat,
    instants: Seq<int>,
)
    requires
        within_one_window(store, key, lifetime_secs, instants),
    ensures
        ({
            let run = counter_checks(store, key, initial, delta, lifetime_secs, instants);
            let deadline = instants[0] + lifetime_secs * 1000;
            &&& run.1.len() == instants.len()
            &&& run.0.contains_key(key)
            &&& run.0[key] == Counter {
                value: initial + delta * instants.len(),
                deadline: Some(deadline),
            }
            &&& forall|i: int|
                0 <= i < instants.len() ==> #[trigger] run.1[i] == (
                    initial + delta * (i + 1),
                    (deadline - instants[i] + 500) / 1000,
                )
        }),
    decreases instants.len(),
{
    let run = counter_checks(store, key, initial, delta, lifetime_secs, instants);
    let deadline = instants[0] + lifetime_secs * 1000;
    if instants.len() == 1 {
        assert(instants.drop_last() =~= Seq::<int>::empty());
        let before = counter_checks(store, key, initial, delta, lifetime_secs, instants.drop_last());
        assert(before.0 == store);
        assert(delta * 1 == delta);
    } else {
        let earlier = instants.drop_last();
        assert(earlier[0] == instants[0]);
        assert(earlier.last() == instants[instants.len() - 2]);
        assert(within_one_window(store, key, lifetime_secs, earlier));
        lemma_replies_within_one_window(store, key, initial, delta, lifetime_secs, earlier);
        let before = counter_checks(store, key, initial, delta, lifetime_secs, earlier);
        assert(delta * instants.len() == delta * earlier.len() + delta) by (nonlinear_arith)
            requires
                instants.len() == earlier.len() + 1,
        ;
        assert forall|i: int| 0 <= i < instants.len() implies #[trigger] run.1[i] == (
            initial + delta * (i + 1),
            (deadline - instants[i] + 500) / 1000,
        ) by {
            if i < earlier.len() {
                assert(run.1[i] == before.1[i]);
                assert(earlier[i] == instants[i]);
            }
        }
    }
}

/// The value of a decimal numeral is the number it was written from.
proof fn lemma_integer_value_of_decimal(n: nat)
    ensures
        integer_value(decimal(n)) == n,
{
    lemma_decimal_round_trip(n);
    lemma_numeral_digits(10, n);
    assert(decimal(n)[0] != '-');
}

/// The values of the numerals that the limiters write out in their commands.
proof fn lemma_integer_value_of_literals()
    ensures
        integer_value("-1"@) == -1,
        integer_value("0"@) == 0,
        integer_value("1"@) == 1,
{
    reveal_strlit("-1");
    reveal_strlit("0");
    reveal_strlit("1");
    reveal_with_fuel(decimal_value, 3);
    assert("-1"@.subrange(1, 2) =~= seq!['1']);
    assert(seq!['1'].drop_last() =~= Seq::<char>::empty());
    assert("0"@.drop_last() =~= Seq::<char>::empty());
    assert("1"@.drop_last() =~= Seq::<char>::empty());
}

/// The names of the four commands differ.
proof fn lemma_command_names()
    ensures
        "SETNX"@ != "EXPIRE"@,
        "SETNX"@ != "INCRBY"@,
        "SETNX"@ != "TTL"@,
        "EXPIRE"@ != "INCRBY"@,
        "EXPIRE"@ != "TTL"@,
        "INCRBY"@ != "TTL"@,
{
    reveal_strlit("SETNX");
    reveal_strlit("EXPIRE");
    reveal_strlit("INCRBY");
    reveal_strlit("TTL");
    assert("SETNX"@[0] == 'S');
    assert("EXPIRE"@[0] == 'E');
    assert("INCRBY"@[0] == 'I');
    assert("TTL"@[0] == 'T');
}

/// Four commands that create a counter, give it a lifetime, move it and ask for the time left
/// come to one check.
proof fn lemma_counter_transaction(
    store: Map<Seq<char>, Counter>,
    key: Seq<char>,
    initial_word: Seq<char>,
    initial: int,
    delta_word: Seq<char>,
    delta: int,
    lifetime_secs: nat,
    now: int,
)
    requires
        integer_value(initial_word) == initial,
        integer_value(delta_word) == delta,
    ensures
        run_transaction(
            store,
            seq![
                command(seq!["SETNX"@, key, initial_word], true),
                command(seq!["EXPIRE"@, key, decimal(lifetime_secs), "NX"@], true),
                command(seq!["INCRBY"@, key, delta_word], false),
                command(seq!["TTL"@, key], false),
            ],
            now,
        ) == ({
            let check = counter_check(store, key, initial, delta, lifetime_secs, now);
            (check.0, seq![check.1, check.2])
        }),
{
    let command0 = command(seq!["SETNX"@, key, initial_word], true);
    let command1 = command(seq!["EXPIRE"@, key, decimal(lifetime_secs), "NX"@], true);
    let command2 = command(seq!["INCRBY"@, key, delta_word], false);
    let command3 = command(seq!["TTL"@, key], false);
    let all = seq![command0, command1, command2, command3];
    lemma_words_of_command(seq!["SETNX"@, key, initial_word], true);
    lemma_words_of_command(seq!["EXPIRE"@, key, decimal(lifetime_secs), "NX"@], true);
    lemma_words_of_command(seq!["INCRBY"@, key, delta_word], false);
    lemma_words_of_command(seq!["TTL"@, key], false);
    lemma_command_names();
    lemma_integer_value_of_decimal(lifetime_secs);
    let first0 = Seq::<PipedCommand>::empty();
    let first1 = seq![command0];
    let first2 = seq![command0, command1];
    let first3 = seq![command0, command1, command2];
    assert(first1.drop_last() =~= first0);
    assert(first2.drop_last() =~= first1);
    assert(first3.drop_last() =~= first2);
    assert(all.drop_last() =~= first3);
    let run0 = run_transaction(store, first0, now);
    assert(run0 == (store, Seq::<int>::empty()));
    let run1 = run_transaction(store, first1, now);
    assert(run1.0 == set_if_absent(store, key, initial, now) && run1.1 =~= Seq::<int>::empty());
    let run2 = run_transaction(store, first2, now);
    assert(run2.0 == expire_if_lasting(run1.0, key, lifetime_secs, now) && run2.1 =~= Seq::<int>::empty());
    let run3 = run_transaction(store, first3, now);
    let counted = increment(run2.0, key, delta, now);
    assert(run3.0 == counted.0 && run3.1 =~= seq![counted.1]);
    let run4 = run_transaction(store, all, now);
    assert(run4.0 == counted.0 && run4.1 =~= seq![counted.1, time_to_live(counted.0, key, now)]);
}

/// The commands of a token bucket come to one check that starts at the bucket size and counts
/// down.
proof fn lemma_token_bucket_transaction(
    store: Map<Seq<char>, Counter>,
    key: Seq<char>,
    bucket_size: nat,
    validity_secs: nat,
    now: int,
)
    ensures
        token_bucket_check(store, key, bucket_size, validity_secs, now) == ({
            let check = counter_check(store, key, bucket_size as int, -1, validity_secs, now);
            (check.0, token_bucket_decision(check.1, check.2))
        }),
{
    lemma_integer_value_of_decimal(bucket_size);
    lemma_integer_value_of_literals();
    lemma_counter_transaction(
        store,
        key,
        decimal(bucket_size),
        bucket_size as int,
        "-1"@,
        -1,
        validity_secs,
        now,
    );
}

/// The commands of a fixed window come to one check that starts at zero and counts up.
proof fn lemma_fixed_window_transaction(
    store: Map<Seq<char>, Counter>,
    key: Seq<char>,
    window_size: nat,
    duration_secs: nat,
    now: int,
)
    ensures
        fixed_window_check(store, key, window_size, duration_secs, now) == ({
            let check = counter_check(store, key, 0, 1, duration_secs, now);
            (check.0, fixed_window_decision(window_size, check.1 as nat, check.2))
        }),
{
    lemma_integer_value_of_literals();
    lemma_counter_transaction(store, key, "0"@, 0, "1"@, 1, duration_secs, now);
}

/// Checks of a token bucket in turn come to checks that start at the bucket size and count
/// down.
proof fn lemma_token_bucket_checks(
    store: Map<Seq<char>, Counter>,
    key: Seq<char>,
    bucket_size: nat,
    validity_secs: nat,
    instants: Seq<int>,
)
    ensures
        ({
            let run = token_bucket_checks(store, key, bucket_size, validity_secs, instants);
            let replies = counter_checks(store, key, bucket_size as int, -1, validity_secs, instants);
            &&& run.0 == replies.0
            &&& run.1.len() == instants.len()
            &&& replies.1.len() == instants.len()
            &&& forall|i: int|
                0 <= i < instants.len() ==> #[trigger] run.1[i] == token_bucket_decision(
                    replies.1[i].0,
                    replies.1[i].1,
                )
        }),
    decreases instants.len(),
{
    if instants.len() > 0 {
        lemma_token_bucket_checks(store, key, bucket_size, validity_secs, instants.drop_last());
        let before = token_bucket_checks(
            store,
            key,
            bucket_size,
            validity_secs,
            instants.drop_last(),
        );
        lemma_token_bucket_transaction(before.0, key, bucket_size, validity_secs, instants.last());
    }
}

/// Checks of a fixed window in turn come to checks that start at zero and count up.
proof fn lemma_fixed_window_checks(
    store: Map<Seq<char>, Counter>,
    key: Seq<char>,
    window_size: nat,
    duration_secs: nat,
    instants: Seq<int>,
)
    ensures
        ({
            let run = fixed_window_checks(store, key, window_size, duration_secs, instants);
            let replies = counter_checks(store, key, 0, 1, duration_secs, instants);
            &&& run.0 == replies.0
            &&& run.1.len() == instants.len()
            &&& replies.1.len() == instants.len()
            &&& forall|i: int|
                0 <= i < instants.len() ==> #[trigger] run.1[i] == fixed_window_decision(
                    window_size,
                    replies.1[i].0 as nat,
                    replies.1[i].1,
                )
        }),
    decreases instants.len(),
{
    if instants.len() > 0 {
        lemma_fixed_window_checks(store, key, window_size, duration_secs, instants.drop_last());
        let before = fixed_window_checks(
            store,
            key,
            window_size,
            duration_secs,
            instants.drop_last(),
        );
        lemma_fixed_window_transaction(before.0, key, window_size, duration_secs, instants.last());
    }
}

/// The decisions of a token bucket on checks at the given instants.
pub open spec fn token_bucket_decisions(
    bucket_size: nat,
    validity_secs: nat,
    store: Map<Seq<char>, Counter>,
    key: Seq<char>,
    instants: Seq<int>,
) -> Seq<Decision> {
    token_bucket_checks(store, key, bucket_size, validity_secs, instants).1
}

/// The decisions of a fixed window on checks at the given instants.
pub open spec fn fixed_window_decisions(
    window_size: nat,
    duration_secs: nat,
    store: Map<Seq<char>, Counter>,
    key: Seq<char>,
    instants: Seq<int>,
) -> Seq<Decision> {
    fixed_window_checks(store, key, window_size, duration_secs, instants).1
}

/// How many of the decisions admit.
pub open spec fn allowed_count(decisions: Seq<Decision>) -> nat
    decreases decisions.len(),
{
    if decisions.len() == 0 {
        0
    } else {
        allowed_count(decisions.drop_last()) + if decisions.last() is Allowed {
            1nat
        } else {
            0nat
        }
    }
}

/// The nanoseconds that a throttled client is told to wait when it is refused at `now` in a
/// window that began at `begin` and lasts `lifetime_secs`.
pub open spec fn wait_in_window(begin: int, lifetime_secs: nat, now: int) -> nat {
    retry_nanos_of_ttl((begin + lifetime_secs * 1000 - now + 500) / 1000)
}

/// Within one window a token bucket admits the first `bucket_size` checks, each with one
/// token less left than the one before, down to zero; it refuses every later check, and tells
/// the client to wait for what is left of the bucket's lifetime, in whole seconds.
pub proof fn law_token_bucket_within_one_window(
    bucket_size: nat,
    validity_secs: nat,
    store: Map<Seq<char>, Counter>,
    key: Seq<char>,
    instants: Seq<int>,
)
    requires
        within_one_window(store, key, validity_secs, instants),
    ensures
        token_bucket_decisions(bucket_size, validity_secs, store, key, instants).len()
            == instants.len(),
        forall|i: int|
            0 <= i < instants.len() ==> #[trigger] token_bucket_decisions(
                bucket_size,
                validity_secs,
                store,
                key,
                instants,
            )[i] == if i < bucket_size {
                Decision::Allowed { remaining: (bucket_size - (i + 1)) as nat }
            } else {
                Decision::Throttled {
                    retry_nanos: wait_in_window(instants[0], validity_secs, instants[i]),
                }
            },
{
    lemma_replies_within_one_window(store, key, bucket_size as int, -1, validity_secs, instants);
    lemma_token_bucket_checks(store, key, bucket_size, validity_secs, instants);
    let replies = counter_checks(store, key, bucket_size as int, -1, validity_secs, instants).1;
    assert forall|i: int| 0 <= i < instants.len() implies #[trigger] token_bucket_decisions(
        bucket_size,
        validity_secs,
        store,
        key,
        instants,
    )[i] == if i < bucket_size {
        Decision::Allowed { remaining: (bucket_size - (i + 1)) as nat }
    } else {
        Decision::Throttled { retry_nanos: wait_in_window(instants[0], validity_secs, instants[i]) }
    } by {
        assert(replies[i].0 == bucket_size - (i + 1));
    }
}

/// Within one window a fixed window admits the first `window_size` checks, each with one
/// request less left than the one before, down to zero; it refuses every later check, and
/// tells the client to wait for what is left of the window, in whole seconds.
pub proof fn law_fixed_window_within_one_window(
    window_size: nat,
    duration_secs: nat,
    store: Map<Seq<char>, Counter>,
    key: Seq<char>,
    instants: Seq<int>,
)
    requires
        within_one_window(store, key, duration_secs, instants),
    ensures
        fixed_window_decisions(window_size, duration_secs, store, key, instants).len()
            == instants.len(),
        forall|i: int|
            0 <= i < instants.len() ==> #[trigger] fixed_window_decisions(
                window_size,
                duration_secs,
                store,
                key,
                instants,
            )[i] == if i < window_size {
                Decision::Allowed { remaining: (window_size - (i + 1)) as nat }
            } else {
                Decision::Throttled {
                    retry_nanos: wait_in_window(instants[0], duration_secs, instants[i]),
                }
            },
{
    lemma_replies_within_one_window(store, key, 0, 1, duration_secs, instants);
    lemma_fixed_window_checks(store, key, window_size, duration_secs, instants);
    let replies = counter_checks(store, key, 0, 1, duration_secs, instants).1;
    assert forall|i: int| 0 <= i < instants.len() implies #[trigger] fixed_window_decisions(
        window_size,
        duration_secs,
        store,
        key,
        instants,
    )[i] == if i < window_size {
        Decision::Allowed { remaining: (window_size - (i + 1)) as nat }
    } else {
        Decision::Throttled { retry_nanos: wait_in_window(instants[0], duration_secs, instants[i]) }
    } by {
        assert(replies[i].0 == i + 1);
    }
}

/// A client that is refused inside a window is told to wait no longer than the window lasts,
/// and to wait at all as long as half a second or more of the window is left.
pub proof fn law_wait_in_window_bounded(begin: int, lifetime_secs: nat, now: int)
    requires
        begin <= now <= begin + lifetime_secs * 1000,
    ensures
        wait_in_window(begin, lifetime_secs, now) <= lifetime_secs * 1_000_000_000,
        now + 500 <= begin + lifetime_secs * 1000 ==> wait_in_window(begin, lifetime_secs, now) > 0,
{
    let ttl = (begin + lifetime_secs * 1000 - now + 500) / 1000;
    assert(ttl <= lifetime_secs);
    assert(ttl * 1_000_000_000 <= lifetime_secs * 1_000_000_000);
}

/// The check that follows the last admitted one of a window is refused: a token bucket that
/// has admitted `bucket_size` checks refuses the next one in the same window. It tells the
/// client to wait no longer than the bucket lasts, and to wait at all if half a second or more
/// of the bucket's lifetime is left.
pub proof fn law_token_bucket_throttles_when_exhausted(
    bucket_size: nat,
    validity_secs: nat,
    store: Map<Seq<char>, Counter>,
    key: Seq<char>,
    instants: Seq<int>,
)
    requires
        within_one_window(store, key, validity_secs, instants),
        instants.len() > bucket_size,
    ensures
        ({
            let decision = token_bucket_decisions(
                bucket_size,
                validity_secs,
                store,
                key,
                instants,
            )[bucket_size as int];
            &&& decision is Throttled
            &&& decision->retry_nanos <= validity_secs * 1_000_000_000
            &&& instants[bucket_size as int] + 500 <= instants[0] + validity_secs * 1000
                ==> decision->retry_nanos > 0
        }),
{
    law_token_bucket_within_one_window(bucket_size, validity_secs, store, key, instants);
    assert(instants[0] <= instants[bucket_size as int] <= instants.last());
    law_wait_in_window_bounded(instants[0], validity_secs, instants[bucket_size as int]);
}

/// The check that follows the last admitted one of a window is refused: a fixed window that
/// has admitted `window_size` checks refuses the next one in the same window. It tells the
/// client to wait no longer than the window lasts, and to wait at all if half a second or more
/// of the window is left.
pub proof fn law_fixed_window_throttles_when_exhausted(
    window_size: nat,
    duration_secs: nat,
    store: Map<Seq<char>, Counter>,
    key: Seq<char>,
    instants: Seq<int>,
)
    requires
        within_one_window(store, key, duration_secs, instants),
        instants.len() > window_size,
    ensures
        ({
            let decision = fixed_window_decisions(
                window_size,
                duration_secs,
                store,
                key,
                instants,
            )[window_size as int];
            &&& decision is Throttled
            &&& decision->retry_nanos <= duration_secs * 1_000_000_000
            &&& instants[window_size as int] + 500 <= instants[0] + duration_secs * 1000
                ==> decision->retry_nanos > 0
        }),
{
    law_fixed_window_within_one_window(window_size, duration_secs, store, key, instants);
    assert(instants[0] <= instants[window_size as int] <= instants.last());
    law_wait_in_window_bounded(instants[0], duration_secs, instants[window_size as int]);
}

/// A fixed window never tells a client that it refuses within a window to wait longer than
/// the window lasts.
pub proof fn law_fixed_window_retry_bounded(
    window_size: nat,
    duration_secs: nat,
    store: Map<Seq<char>, Counter>,
    key: Seq<char>,
    instants: Seq<int>,
    i: int,
)
    requires
        within_one_window(store, key, duration_secs, instants),
        0 <= i < instants.len(),
        fixed_window_decisions(window_size, duration_secs, store, key, instants)[i] is Throttled,
    ensures
        fixed_window_decisions(
            window_size,
            duration_secs,
            store,
            key,
            instants,
        )[i]->retry_nanos <= duration_secs * 1_000_000_000,
{
    law_fixed_window_within_one_window(window_size, duration_secs, store, key, instants);
    assert(instants[0] <= instants[i] <= instants.last());
    law_wait_in_window_bounded(instants[0], duration_secs, instants[i]);
}

/// Among decisions of which the first `limit` admit and all others refuse, as many admit as
/// there are decisions, but no more than `limit`.
pub proof fn lemma_allowed_count(decisions: Seq<Decision>, limit: nat)
    requires
        forall|i: int| 0 <= i < decisions.len() ==> (#[trigger] decisions[i] is Allowed <==> i < limit),
    ensures
        allowed_count(decisions) == if decisions.len() <= limit {
            decisions.len()
        } else {
            limit
        },
    decreases decisions.len(),
{
    if decisions.len() > 0 {
        let earlier = decisions.drop_last();
        assert forall|i: int| 0 <= i < earlier.len() implies (#[trigger] earlier[i] is Allowed <==> i
            < limit) by {
            assert(earlier[i] == decisions[i]);
        }
        lemma_allowed_count(earlier, limit);
        assert(decisions.last() == decisions[decisions.len() - 1]);
    }
}

/// However many checks a token bucket gets on one key within one window, it admits exactly
/// `bucket_size` of them, or all where there are fewer.
pub proof fn law_token_bucket_admits_the_limit(
    bucket_size: nat,
    validity_secs: nat,
    store: Map<Seq<char>, Counter>,
    key: Seq<char>,
    instants: Seq<int>,
)
    requires
        within_one_window(store, key, validity_secs, instants),
    ensures
        allowed_count(token_bucket_decisions(bucket_size, validity_secs, store, key, instants))
            == if instants.len() <= bucket_size {
            instants.len()
        } else {
            bucket_size
        },
{
    law_token_bucket_within_one_window(bucket_size, validity_secs, store, key, instants);
    lemma_allowed_count(
        token_bucket_decisions(bucket_size, validity_secs, store, key, instants),
        bucket_size,
    );
}

/// However many checks a fixed window gets on one key within one window, it admits exactly
/// `window_size` of them, or all where there are fewer.
pub proof fn law_fixed_window_admits_the_limit(
    window_size: nat,
    duration_secs: nat,
    store: Map<Seq<char>, Counter>,
    key: Seq<char>,
    instants: Seq<int>,
)
    requires
        within_one_window(store, key, duration_secs, instants),
    ensures
        allowed_count(fixed_window_decisions(window_size, duration_secs, store, key, instants))
            == if instants.len() <= window_size {
            instants.len()
        } else {
            window_size
        },
{
    law_fixed_window_within_one_window(window_size, duration_secs, store, key, instants);
    lemma_allowed_count(
        fixed_window_decisions(window_size, duration_secs, store, key, instants),
        window_size,
    );
}

/// A check on one key leaves the counters of all other keys as they are, and so does not
/// change what a check on another key is answered.
proof fn lemma_counters_are_independent(
    store: Map<Seq<char>, Counter>,
    key: Seq<char>,
    other: Seq<char>,
    initial: int,
    delta: int,
    lifetime_secs: nat,
    now: int,
    later: int,
)
    requires
        key != other,
    ensures
        ({
            let after = counter_check(store, key, initial, delta, lifetime_secs, now).0;
            let undisturbed = counter_check(store, other, initial, delta, lifetime_secs, later);
            let disturbed = counter_check(after, other, initial, delta, lifetime_secs, later);
            &&& after.contains_key(other) == store.contains_key(other)
            &&& after.contains_key(other) ==> after[other] == store[other]
            &&& disturbed.1 == undisturbed.1
            &&& disturbed.2 == undisturbed.2
        }),
{
}

/// What a token bucket answers a client does not depend on the checks of another client: a
/// check for the identity `b` is decided the same whether or not a check for a different
/// identity `a` went before it. This holds of any two identities that do not share a key.
pub proof fn law_token_bucket_identities_are_independent(
    a: Identity,
    b: Identity,
    store: Map<Seq<char>, Counter>,
    bucket_size: nat,
    validity_secs: nat,
    now: int,
    later: int,
)
    requires
        a != b,
        !mistaken_for(a, b),
        !mistaken_for(b, a),
    ensures
        ({
            let after = token_bucket_check(store, request_key(a), bucket_size, validity_secs, now).0;
            token_bucket_check(after, request_key(b), bucket_size, validity_secs, later).1
                == token_bucket_check(store, request_key(b), bucket_size, validity_secs, later).1
        }),
{
    law_request_key_injective(a, b);
    let after = token_bucket_check(store, request_key(a), bucket_size, validity_secs, now).0;
    lemma_token_bucket_transaction(store, request_key(a), bucket_size, validity_secs, now);
    lemma_token_bucket_transaction(store, request_key(b), bucket_size, validity_secs, later);
    lemma_token_bucket_transaction(after, request_key(b), bucket_size, validity_secs, later);
    lemma_counters_are_independent(
        store,
        request_key(a),
        request_key(b),
        bucket_size as int,
        -1,
        validity_secs,
        now,
        later,
    );
}

/// What a fixed window answers a client does not depend on the checks of another client: a
/// check for the identity `b` is decided the same whether or not a check for a different
/// identity `a` went before it. This holds of any two identities that do not share a key.
pub proof fn law_fixed_window_identities_are_independent(
    a: Identity,
    b: Identity,
    store: Map<Seq<char>, Counter>,
    window_size: nat,
    duration_secs: nat,
    now: int,
    later: int,
)
    requires
        a != b,
        !mistaken_for(a, b),
        !mistaken_for(b, a),
    ensures
        ({
            let after = fixed_window_check(store, request_key(a), window_size, duration_secs, now).0;
            fixed_window_check(after, request_key(b), window_size, duration_secs, later).1
                == fixed_window_check(store, request_key(b), window_size, duration_secs, later).1
        }),
{
    law_request_key_injective(a, b);
    let after = fixed_window_check(store, request_key(a), window_size, duration_secs, now).0;
    lemma_fixed_window_transaction(store, request_key(a), window_size, duration_secs, now);
    lemma_fixed_window_transaction(store, request_key(b), window_size, duration_secs, later);
    lemma_fixed_window_transaction(after, request_key(b), window_size, duration_secs, later);
    lemma_counters_are_independent(
        store,
        request_key(a),
        request_key(b),
        0,
        1,
        duration_secs,
        now,
        later,
    );
}

} // verus!
