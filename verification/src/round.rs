//! The round aggregator: folds the completed trials of one scenario and one
//! competitor pair — one trial per seed of the dense range `0 .. rounds`, in
//! whatever order they completed — into per-outcome seed buckets and a
//! time list, failing the whole round on any engine contract breach.

use vstd::prelude::*;

use crate::trial::HarnessError;
use crate::trial::Outcome;
use crate::trial::TrialRecord;
use crate::trial::classify_observation;
use crate::trial::record_class;

verus! {

/// The aggregate of one round: for each outcome category the seeds that
/// produced it, plus the elapsed times in completion order.
#[derive(Clone, Debug, PartialEq, Eq)]
pub struct RoundResult {
    pub team0_wins: Vec<u32>,
    pub team1_wins: Vec<u32>,
    pub draws: Vec<u32>,
    pub timeouts: Vec<u32>,
    pub times: Vec<u32>,
}

/// The seed bucket of `r` that outcome `o` is folded into.
pub open spec fn bucket(r: RoundResult, o: Outcome) -> Seq<u32> {
    match o {
        Outcome::WinTeam0 => r.team0_wins@,
        Outcome::WinTeam1 => r.team1_wins@,
        Outcome::Draw => r.draws@,
        Outcome::TimedOut => r.timeouts@,
    }
}

/// Some bucket of `r` holds seed `s`.
pub open spec fn in_some_bucket(r: RoundResult, s: u32) -> bool {
    r.team0_wins@.contains(s) || r.team1_wins@.contains(s) || r.draws@.contains(s)
        || r.timeouts@.contains(s)
}

/// Some record in `records` ran seed `s`.
pub open spec fn has_seed(records: Seq<TrialRecord>, s: u32) -> bool {
    exists|i: int| #![trigger records[i]] 0 <= i < records.len() && records[i].seed == s
}

/// `records` are the completed trials of one round of `rounds` seeds: one
/// record for each seed of `0 .. rounds`, in any completion order.
pub open spec fn seed_complete(records: Seq<TrialRecord>, rounds: u32) -> bool {
    &&& records.len() == rounds
    &&& forall|i: int| #![trigger records[i]] 0 <= i < records.len() ==> records[i].seed < rounds
    &&& forall|i: int, j: int|
        #![trigger records[i], records[j]]
        0 <= i < j < records.len() ==> records[i].seed != records[j].seed
    &&& forall|s: u32| s < rounds ==> #[trigger] has_seed(records, s)
}

/// Every record's final observation classifies within the engine contract.
pub open spec fn all_in_contract(records: Seq<TrialRecord>, max_ticks: u32) -> bool {
    forall|i: int|
        #![trigger record_class(records[i], max_ticks)]
        0 <= i < records.len() ==> record_class(records[i], max_ticks) is Some
}

/// The seeds among `records` whose trials classify to outcome `o`, in
/// record order.
pub open spec fn seeds_with(records: Seq<TrialRecord>, max_ticks: u32, o: Outcome) -> Seq<u32>
    decreases records.len(),
{
    if records.len() == 0 {
        Seq::empty()
    } else {
        let rest = seeds_with(records.drop_last(), max_ticks, o);
        if record_class(records.last(), max_ticks) == Some(o) {
            rest.push(records.last().seed)
        } else {
            rest
        }
    }
}

/// The elapsed times of `records`, in record order.
pub open spec fn times_of(records: Seq<TrialRecord>) -> Seq<u32>
    decreases records.len(),
{
    if records.len() == 0 {
        Seq::empty()
    } else {
        times_of(records.drop_last()).push(records.last().time)
    }
}

/// Some record in `records` ran seed `s` and classified to `o`.
pub open spec fn seed_has_class(
    records: Seq<TrialRecord>,
    max_ticks: u32,
    o: Outcome,
    s: u32,
) -> bool {
    exists|i: int|
        #![trigger records[i]]
        0 <= i < records.len() && records[i].seed == s && record_class(records[i], max_ticks)
            == Some(o)
}

/// The four buckets of `r` are pairwise disjoint, free of duplicates, and
/// together hold exactly the seeds `0 .. rounds`.
pub open spec fn partitions_seeds(r: RoundResult, rounds: u32) -> bool {
    &&& forall|s: u32| #[trigger] in_some_bucket(r, s) ==> s < rounds
    &&& forall|s: u32| s < rounds ==> #[trigger] in_some_bucket(r, s)
    &&& forall|o1: Outcome, o2: Outcome, s: u32|
        #![trigger bucket(r, o1).contains(s), bucket(r, o2).contains(s)]
        o1 != o2 ==> !(bucket(r, o1).contains(s) && bucket(r, o2).contains(s))
    &&& forall|o: Outcome, a: int, b: int|
        #![trigger bucket(r, o)[a], bucket(r, o)[b]]
        0 <= a < b < bucket(r, o).len() ==> bucket(r, o)[a] != bucket(r, o)[b]
}

/// A bucket holds a seed exactly when some record ran that seed and
/// classified to the bucket's outcome.
pub proof fn lemma_seeds_with_membership(records: Seq<TrialRecord>, max_ticks: u32, o: Outcome)
    ensures
        forall|s: u32| #[trigger]
            seeds_with(records, max_ticks, o).contains(s) <==> seed_has_class(
                records,
                max_ticks,
                o,
                s,
            ),
    decreases records.len(),
{
    if records.len() == 0 {
    } else {
        let prefix = records.drop_last();
        let last = records.last();
        lemma_seeds_with_membership(prefix, max_ticks, o);
        let with_all = seeds_with(records, max_ticks, o);
        let with_prefix = seeds_with(prefix, max_ticks, o);
        assert forall|i: int| 0 <= i < prefix.len() implies prefix[i] == records[i] by {}
        assert forall|s: u32| #[trigger]
            with_all.contains(s) implies seed_has_class(records, max_ticks, o, s) by {
            let k = choose|k: int| 0 <= k < with_all.len() && with_all[k] == s;
            if record_class(last, max_ticks) == Some(o) {
                if k < with_prefix.len() {
                    assert(with_prefix[k] == s);
                    assert(with_prefix.contains(s));
                    let i = choose|i: int|
                        0 <= i < prefix.len() && prefix[i].seed == s && record_class(
                            prefix[i],
                            max_ticks,
                        ) == Some(o);
                    assert(records[i].seed == s);
                } else {
                    assert(with_all[k] == last.seed);
                    assert(records[records.len() - 1].seed == s);
                }
            } else {
                assert(with_prefix.contains(s));
                let i = choose|i: int|
                    0 <= i < prefix.len() && prefix[i].seed == s && record_class(
                        prefix[i],
                        max_ticks,
                    ) == Some(o);
                assert(records[i].seed == s);
            }
        }
        assert forall|s: u32|
            seed_has_class(records, max_ticks, o, s) implies #[trigger] with_all.contains(s) by {
            let i = choose|i: int|
                0 <= i < records.len() && records[i].seed == s && record_class(
                    records[i],
                    max_ticks,
                ) == Some(o);
            if i < records.len() - 1 {
                assert(prefix[i].seed == s && record_class(prefix[i], max_ticks) == Some(o));
                assert(seed_has_class(prefix, max_ticks, o, s));
                assert(with_prefix.contains(s));
                let k = choose|k: int| 0 <= k < with_prefix.len() && with_prefix[k] == s;
                assert(with_all[k] == s);
            } else {
                assert(records[i] == last);
                assert(with_all[with_prefix.len() as int] == s);
            }
        }
    }
}

/// When no two records share a seed, no bucket holds a seed twice.
pub proof fn lemma_seeds_with_unique(records: Seq<TrialRecord>, max_ticks: u32, o: Outcome)
    requires
        forall|i: int, j: int|
            #![trigger records[i], records[j]]
            0 <= i < j < records.len() ==> records[i].seed != records[j].seed,
    ensures
        forall|a: int, b: int|
            #![trigger seeds_with(records, max_ticks, o)[a], seeds_with(records, max_ticks, o)[b]]
            0 <= a < b < seeds_with(records, max_ticks, o).len() ==> seeds_with(
                records,
                max_ticks,
                o,
            )[a] != seeds_with(records, max_ticks, o)[b],
    decreases records.len(),
{
    if records.len() == 0 {
    } else {
        let prefix = records.drop_last();
        let last = records.last();
        assert forall|i: int| 0 <= i < prefix.len() implies prefix[i] == records[i] by {}
        lemma_seeds_with_unique(prefix, max_ticks, o);
        lemma_seeds_with_membership(prefix, max_ticks, o);
        let with_all = seeds_with(records, max_ticks, o);
        let with_prefix = seeds_with(prefix, max_ticks, o);
        if record_class(last, max_ticks) == Some(o) {
            assert(!with_prefix.contains(last.seed)) by {
                if with_prefix.contains(last.seed) {
                    let i = choose|i: int|
                        0 <= i < prefix.len() && prefix[i].seed == last.seed && record_class(
                            prefix[i],
                            max_ticks,
                        ) == Some(o);
                    assert(records[i].seed == records[records.len() - 1].seed);
                }
            }
            assert forall|a: int, b: int|
                0 <= a < b < with_all.len() implies with_all[a] != with_all[b] by {
                if b < with_prefix.len() {
                } else {
                    assert(with_all[b] == last.seed);
                    assert(with_all[a] == with_prefix[a]);
                    if with_all[a] == last.seed {
                        assert(with_prefix.contains(last.seed));
                    }
                }
            }
        }
    }
}

/// Folds the completed trials of one round. Fails with
/// `InvalidConfiguration` when zero rounds were requested, and with
/// `InvariantViolation` — discarding all partial tallies — when any trial's
/// final observation is outside the engine contract. On success the four
/// buckets partition the seeds `0 .. rounds` and the time list holds one
/// entry per round, in completion order.
pub fn run_round(records: &Vec<TrialRecord>, rounds: u32, max_ticks: u32) -> (result: Result<
    RoundResult,
    HarnessError,
>)
    requires
        seed_complete(records@, rounds),
    ensures
        match result {
            Ok(r) => {
                &&& rounds >= 1
                &&& all_in_contract(records@, max_ticks)
                &&& forall|o: Outcome| #[trigger]
                    bucket(r, o) == seeds_with(records@, max_ticks, o)
                &&& r.times@ == times_of(records@)
                &&& r.times@.len() == rounds
                &&& r.team0_wins@.len() + r.team1_wins@.len() + r.draws@.len()
                    + r.timeouts@.len() == rounds
                &&& partitions_seeds(r, rounds)
            },
            Err(e) => {
                &&& (e == HarnessError::InvalidConfiguration <==> rounds == 0)
                &&& (e == HarnessError::InvariantViolation <==> rounds >= 1 && !all_in_contract(
                    records@,
                    max_ticks,
                ))
            },
        },
{
    if rounds == 0 {
        return Err(HarnessError::InvalidConfiguration);
    }
    let mut team0_wins: Vec<u32> = Vec::new();
    let mut team1_wins: Vec<u32> = Vec::new();
    let mut draws: Vec<u32> = Vec::new();
    let mut timeouts: Vec<u32> = Vec::new();
    let mut times: Vec<u32> = Vec::new();
    let n = records.len();
    let mut i: usize = 0;
    while i < n
        invariant
            n == records@.len(),
            i <= n,
            rounds >= 1,
            team0_wins@ == seeds_with(records@.take(i as int), max_ticks, Outcome::WinTeam0),
            team1_wins@ == seeds_with(records@.take(i as int), max_ticks, Outcome::WinTeam1),
            draws@ == seeds_with(records@.take(i as int), max_ticks, Outcome::Draw),
            timeouts@ == seeds_with(records@.take(i as int), max_ticks, Outcome::TimedOut),
            times@ == times_of(records@.take(i as int)),
            times@.len() == i,
            all_in_contract(records@.take(i as int), max_ticks),
        decreases n - i,
    {
        let rec = records[i];
        proof {
            let pre = records@.take(i as int);
            let post = records@.take(i as int + 1);
            assert(post.drop_last() =~= pre);
            assert(post.last() == records@[i as int]);
            assert forall|k: int|
                0 <= k < post.len() implies #[trigger] record_class(post[k], max_ticks)
                == record_class(records@[k], max_ticks) by {
                assert(post[k] == records@[k]);
            }
        }
        match classify_observation(rec.status, rec.tick, max_ticks) {
            Ok(o) => {
                match o {
                    Outcome::WinTeam0 => team0_wins.push(rec.seed),
                    Outcome::WinTeam1 => team1_wins.push(rec.seed),
                    Outcome::Draw => draws.push(rec.seed),
                    Outcome::TimedOut => timeouts.push(rec.seed),
                }
            },
            Err(e) => {
                proof {
                    assert(record_class(records@[i as int], max_ticks) is None);
                    assert(!all_in_contract(records@, max_ticks));
                }
                return Err(e);
            },
        }
        times.push(rec.time);
        i = i + 1;
        proof {
            let pre = records@.take(i as int - 1);
            let post = records@.take(i as int);
            assert forall|k: int|
                0 <= k < post.len() implies #[trigger] record_class(post[k], max_ticks) is Some by {
                if k < i as int - 1 {
                    assert(post[k] == pre[k]);
                    assert(record_class(pre[k], max_ticks) is Some);
                } else {
                    assert(post[k] == records@[i as int - 1]);
                }
            }
        }
    }
    proof {
        assert(records@.take(n as int) =~= records@);
    }
    let r = RoundResult { team0_wins, team1_wins, draws, timeouts, times };
    proof {
        lemma_round_result_partition(r, records@, rounds, max_ticks);
        lemma_bucket_lens_sum(records@, max_ticks);
    }
    Ok(r)
}

/// Every in-contract record lands in exactly one bucket, so the four
/// bucket lengths sum to the number of records.
pub proof fn lemma_bucket_lens_sum(records: Seq<TrialRecord>, max_ticks: u32)
    requires
        all_in_contract(records, max_ticks),
    ensures
        seeds_with(records, max_ticks, Outcome::WinTeam0).len() + seeds_with(
            records,
            max_ticks,
            Outcome::WinTeam1,
        ).len() + seeds_with(records, max_ticks, Outcome::Draw).len() + seeds_with(
            records,
            max_ticks,
            Outcome::TimedOut,
        ).len() == records.len(),
    decreases records.len(),
{
    if records.len() == 0 {
    } else {
        let prefix = records.drop_last();
        let last = records.last();
        assert forall|k: int|
            0 <= k < prefix.len() implies #[trigger] record_class(prefix[k], max_ticks) is Some by {
            assert(prefix[k] == records[k]);
            assert(record_class(records[k], max_ticks) is Some);
        }
        lemma_bucket_lens_sum(prefix, max_ticks);
        assert(record_class(records[records.len() - 1], max_ticks) is Some);
        assert(record_class(last, max_ticks) is Some);
    }
}

/// A seed held by some classified bucket was run by some record, so it is
/// below `rounds`.
proof fn lemma_contained_seed_bound(
    records: Seq<TrialRecord>,
    rounds: u32,
    max_ticks: u32,
    o: Outcome,
    s: u32,
)
    requires
        seed_complete(records, rounds),
        seeds_with(records, max_ticks, o).contains(s),
    ensures
        s < rounds,
{
    lemma_seeds_with_membership(records, max_ticks, o);
    let i = choose|i: int|
        0 <= i < records.len() && records[i].seed == s && record_class(records[i], max_ticks)
            == Some(o);
    assert(records[i].seed < rounds);
}

/// A round result whose buckets are the classified seeds of a complete,
/// in-contract record set partitions the seeds `0 .. rounds`.
proof fn lemma_round_result_partition(
    r: RoundResult,
    records: Seq<TrialRecord>,
    rounds: u32,
    max_ticks: u32,
)
    requires
        seed_complete(records, rounds),
        all_in_contract(records, max_ticks),
        forall|o: Outcome| #[trigger] bucket(r, o) == seeds_with(records, max_ticks, o),
    ensures
        partitions_seeds(r, rounds),
{
    lemma_seeds_with_membership(records, max_ticks, Outcome::WinTeam0);
    lemma_seeds_with_membership(records, max_ticks, Outcome::WinTeam1);
    lemma_seeds_with_membership(records, max_ticks, Outcome::Draw);
    lemma_seeds_with_membership(records, max_ticks, Outcome::TimedOut);
    lemma_seeds_with_unique(records, max_ticks, Outcome::WinTeam0);
    lemma_seeds_with_unique(records, max_ticks, Outcome::WinTeam1);
    lemma_seeds_with_unique(records, max_ticks, Outcome::Draw);
    lemma_seeds_with_unique(records, max_ticks, Outcome::TimedOut);
    assert forall|s: u32| #[trigger] in_some_bucket(r, s) implies s < rounds by {
        if r.team0_wins@.contains(s) {
            assert(bucket(r, Outcome::WinTeam0).contains(s));
            lemma_contained_seed_bound(records, rounds, max_ticks, Outcome::WinTeam0, s);
        } else if r.team1_wins@.contains(s) {
            assert(bucket(r, Outcome::WinTeam1).contains(s));
            lemma_contained_seed_bound(records, rounds, max_ticks, Outcome::WinTeam1, s);
        } else if r.draws@.contains(s) {
            assert(bucket(r, Outcome::Draw).contains(s));
            lemma_contained_seed_bound(records, rounds, max_ticks, Outcome::Draw, s);
        } else {
            assert(bucket(r, Outcome::TimedOut).contains(s));
            lemma_contained_seed_bound(records, rounds, max_ticks, Outcome::TimedOut, s);
        }
    }
    assert forall|s: u32| s < rounds implies #[trigger] in_some_bucket(r, s) by {
        assert(has_seed(records, s));
        let i = choose|i: int| 0 <= i < records.len() && records[i].seed == s;
        assert(record_class(records[i], max_ticks) is Some);
        let o = choose|o: Outcome| record_class(records[i], max_ticks) == Some(o);
        assert(seed_has_class(records, max_ticks, o, s));
        assert(bucket(r, o).contains(s));
        match o {
            Outcome::WinTeam0 => assert(r.team0_wins@.contains(s)),
            Outcome::WinTeam1 => assert(r.team1_wins@.contains(s)),
            Outcome::Draw => assert(r.draws@.contains(s)),
            Outcome::TimedOut => assert(r.timeouts@.contains(s)),
        }
    }
    assert forall|o1: Outcome, o2: Outcome, s: u32|
        #![trigger bucket(r, o1).contains(s), bucket(r, o2).contains(s)]
        o1 != o2 implies !(bucket(r, o1).contains(s) && bucket(r, o2).contains(s)) by {
        if bucket(r, o1).contains(s) && bucket(r, o2).contains(s) {
            assert(seed_has_class(records, max_ticks, o1, s));
            assert(seed_has_class(records, max_ticks, o2, s));
            let i = choose|i: int|
                0 <= i < records.len() && records[i].seed == s && record_class(
                    records[i],
                    max_ticks,
                ) == Some(o1);
            let j = choose|j: int|
                0 <= j < records.len() && records[j].seed == s && record_class(
                    records[j],
                    max_ticks,
                ) == Some(o2);
            if i < j {
                assert(records[i].seed != records[j].seed);
            } else if j < i {
                assert(records[j].seed != records[i].seed);
            }
        }
    }
}

/// No bucket can hold more seeds than there were records.
pub proof fn lemma_seeds_with_len(records: Seq<TrialRecord>, max_ticks: u32, o: Outcome)
    ensures
        seeds_with(records, max_ticks, o).len() <= records.len(),
    decreases records.len(),
{
    if records.len() == 0 {
    } else {
        lemma_seeds_with_len(records.drop_last(), max_ticks, o);
    }
}

/// A timed-out trial is never counted as a win for team 0: in a
/// well-formed round the timeout bucket and the team-0 win bucket are
/// disjoint, so every timeout lowers the win count exactly like a loss.
pub proof fn lemma_timeout_counts_against_team0(r: RoundResult, rounds: u32)
    requires
        partitions_seeds(r, rounds),
    ensures
        forall|s: u32| r.timeouts@.contains(s) ==> !r.team0_wins@.contains(s),
{
    assert forall|s: u32| r.timeouts@.contains(s) implies !r.team0_wins@.contains(s) by {
        assert(bucket(r, Outcome::TimedOut).contains(s));
        if r.team0_wins@.contains(s) {
            assert(bucket(r, Outcome::WinTeam0).contains(s));
        }
    }
}

/// The dense seed range `0 .. rounds` that one round dispatches, one seed
/// per trial.
pub fn seed_range(rounds: u32) -> (seeds: Vec<u32>)
    ensures
        seeds@.len() == rounds,
        forall|i: int| 0 <= i < rounds ==> seeds@[i] == i,
{
    let mut seeds: Vec<u32> = Vec::new();
    let mut s: u32 = 0;
    while s < rounds
        invariant
            s <= rounds,
            seeds@.len() == s,
            forall|i: int| 0 <= i < s ==> seeds@[i] == i,
        decreases rounds - s,
    {
        seeds.push(s);
        s = s + 1;
    }
    seeds
}

} // verus!
