//! Result aggregation and the batch-level run decision.
//!
//! Upload tasks complete in a nondeterministic order; the aggregator merges
//! their outcomes back into catalog order and partitions them into a success
//! map and a failure list. A batch whose preparation failed is aborted
//! before any task exists, surfacing the prepare error alone.

use vstd::prelude::*;

use crate::assets::asset_ids;
use crate::assets::ids_unique;
use crate::assets::views_of_outcomes;
use crate::assets::AssetView;
use crate::assets::Batch;
use crate::assets::OutcomeView;
use crate::assets::UploadOutcome;
use crate::errors::ErrorView;
use crate::errors::UploadError;

verus! {

/// The outcome recorded for `id`: the result of the first outcome carrying
/// that identifier, or `None` when no outcome carries it.
pub open spec fn outcome_lookup(outcomes: Seq<OutcomeView>, id: Seq<char>) -> Option<
    Result<Seq<char>, ErrorView>,
>
    decreases outcomes.len(),
{
    if outcomes.len() == 0 {
        None
    } else if outcomes[0].asset_id == id {
        Some(outcomes[0].result)
    } else {
        outcome_lookup(outcomes.drop_first(), id)
    }
}

/// Every asset of the batch has an outcome: no asset is silently dropped.
pub open spec fn covered(assets: Seq<AssetView>, outcomes: Seq<OutcomeView>) -> bool {
    forall|i: int|
        0 <= i < assets.len() ==> #[trigger] outcome_lookup(outcomes, assets[i].asset_id) is Some
}

/// Every pair of distinct outcome positions holds distinct identifiers.
pub open spec fn outcome_ids_unique(outcomes: Seq<OutcomeView>) -> bool {
    forall|i: int, j: int|
        0 <= i < j < outcomes.len() ==> outcomes[i].asset_id != outcomes[j].asset_id
}

/// The success map in catalog order: each asset whose outcome is a URL,
/// paired with that URL.
pub open spec fn successes_of(assets: Seq<AssetView>, outcomes: Seq<OutcomeView>) -> Seq<
    (Seq<char>, Seq<char>),
>
    decreases assets.len(),
{
    if assets.len() == 0 {
        Seq::empty()
    } else {
        successes_of(assets.drop_last(), outcomes) + (match outcome_lookup(
            outcomes,
            assets.last().asset_id,
        ) {
            Some(r) => match r {
                Ok(url) => seq![(assets.last().asset_id, url)],
                Err(_) => Seq::empty(),
            },
            None => Seq::empty(),
        })
    }
}

/// The failure list in catalog order: each asset whose outcome is an error,
/// paired with that error.
pub open spec fn failures_of(assets: Seq<AssetView>, outcomes: Seq<OutcomeView>) -> Seq<
    (Seq<char>, ErrorView),
>
    decreases assets.len(),
{
    if assets.len() == 0 {
        Seq::empty()
    } else {
        failures_of(assets.drop_last(), outcomes) + (match outcome_lookup(
            outcomes,
            assets.last().asset_id,
        ) {
            Some(r) => match r {
                Ok(_) => Seq::empty(),
                Err(e) => seq![(assets.last().asset_id, e)],
            },
            None => Seq::empty(),
        })
    }
}

/// The first components of a pair sequence are pairwise distinct: the list
/// holds at most one entry per identifier.
pub open spec fn pair_ids_unique<T>(s: Seq<(Seq<char>, T)>) -> bool {
    forall|p: int, q: int| 0 <= p < q < s.len() ==> s[p].0 != s[q].0
}

/// The identifiers of a success map, as a set.
pub open spec fn success_ids(s: Seq<(Seq<char>, Seq<char>)>) -> Set<Seq<char>> {
    s.map_values(|p: (Seq<char>, Seq<char>)| p.0).to_set()
}

/// The identifiers of a failure list, as a set.
pub open spec fn failure_ids(s: Seq<(Seq<char>, ErrorView)>) -> Set<Seq<char>> {
    s.map_values(|p: (Seq<char>, ErrorView)| p.0).to_set()
}

/// The identifiers of a batch, as a set.
pub open spec fn id_set(assets: Seq<AssetView>) -> Set<Seq<char>> {
    asset_ids(assets).to_set()
}

/// The batch result: the success map (identifier, URL) and the failure list
/// (identifier, error), both in catalog order.
pub struct BatchResult {
    pub successes: Vec<(String, String)>,
    pub failures: Vec<(String, UploadError)>,
}

/// Mathematical image of a batch result.
pub struct BatchResultView {
    pub successes: Seq<(Seq<char>, Seq<char>)>,
    pub failures: Seq<(Seq<char>, ErrorView)>,
}

impl View for BatchResult {
    type V = BatchResultView;

    open spec fn view(&self) -> BatchResultView {
        BatchResultView {
            successes: self.successes@.map_values(|p: (String, String)| (p.0@, p.1@)),
            failures: self.failures@.map_values(|p: (String, UploadError)| (p.0@, p.1@)),
        }
    }
}

/// If position `m` holds the first outcome for `id`, the lookup returns that
/// outcome's result.
proof fn lemma_lookup_at(outcomes: Seq<OutcomeView>, id: Seq<char>, m: int)
    requires
        0 <= m < outcomes.len(),
        outcomes[m].asset_id == id,
        forall|k: int| 0 <= k < m ==> outcomes[k].asset_id != id,
    ensures
        outcome_lookup(outcomes, id) == Some(outcomes[m].result),
    decreases m,
{
    if m > 0 {
        lemma_lookup_at(outcomes.drop_first(), id, m - 1);
    }
}

/// If no outcome carries `id`, the lookup returns nothing.
proof fn lemma_lookup_none(outcomes: Seq<OutcomeView>, id: Seq<char>)
    requires
        forall|k: int| 0 <= k < outcomes.len() ==> outcomes[k].asset_id != id,
    ensures
        outcome_lookup(outcomes, id) is None,
    decreases outcomes.len(),
{
    if outcomes.len() > 0 {
        lemma_lookup_none(outcomes.drop_first(), id);
    }
}

/// Appending one success pair inserts its identifier into the success set.
proof fn lemma_success_ids_snoc(s: Seq<(Seq<char>, Seq<char>)>, p: (Seq<char>, Seq<char>))
    ensures
        success_ids(s + seq![p]) == success_ids(s).insert(p.0),
{
    let f = |q: (Seq<char>, Seq<char>)| q.0;
    assert((s + seq![p]).map_values(f) =~= s.map_values(f).push(p.0));
    assert forall|a: Seq<char>| s.map_values(f).push(p.0).to_set().contains(a) implies s.map_values(
        f,
    ).to_set().insert(p.0).contains(a) by {
        let ks = s.map_values(f).push(p.0);
        let k = choose|k: int| 0 <= k < ks.len() && ks[k] == a;
        if k < s.len() as int {
            assert(s.map_values(f)[k] == a);
        }
    }
    assert forall|a: Seq<char>| s.map_values(f).to_set().insert(p.0).contains(a) implies s
        .map_values(f)
        .push(p.0)
        .to_set()
        .contains(a) by {
        if a == p.0 {
            assert(s.map_values(f).push(p.0)[s.len() as int] == a);
        } else {
            let k = choose|k: int|
                0 <= k < s.map_values(f).len() && s.map_values(f)[k] == a;
            assert(s.map_values(f).push(p.0)[k] == a);
        }
    }
    assert(s.map_values(f).push(p.0).to_set() =~= s.map_values(f).to_set().insert(p.0));
}

/// Appending one failure pair inserts its identifier into the failure set.
proof fn lemma_failure_ids_snoc(s: Seq<(Seq<char>, ErrorView)>, p: (Seq<char>, ErrorView))
    ensures
        failure_ids(s + seq![p]) == failure_ids(s).insert(p.0),
{
    let f = |q: (Seq<char>, ErrorView)| q.0;
    assert((s + seq![p]).map_values(f) =~= s.map_values(f).push(p.0));
    assert forall|a: Seq<char>| s.map_values(f).push(p.0).to_set().contains(a) implies s.map_values(
        f,
    ).to_set().insert(p.0).contains(a) by {
        let ks = s.map_values(f).push(p.0);
        let k = choose|k: int| 0 <= k < ks.len() && ks[k] == a;
        if k < s.len() as int {
            assert(s.map_values(f)[k] == a);
        }
    }
    assert forall|a: Seq<char>| s.map_values(f).to_set().insert(p.0).contains(a) implies s
        .map_values(f)
        .push(p.0)
        .to_set()
        .contains(a) by {
        if a == p.0 {
            assert(s.map_values(f).push(p.0)[s.len() as int] == a);
        } else {
            let k = choose|k: int|
                0 <= k < s.map_values(f).len() && s.map_values(f)[k] == a;
            assert(s.map_values(f).push(p.0)[k] == a);
        }
    }
    assert(s.map_values(f).push(p.0).to_set() =~= s.map_values(f).to_set().insert(p.0));
}

/// Dropping the last asset inserts the dropped identifier into the batch's
/// identifier set.
proof fn lemma_id_set_snoc(assets: Seq<AssetView>)
    requires
        assets.len() > 0,
    ensures
        id_set(assets) == id_set(assets.drop_last()).insert(assets.last().asset_id),
{
    let f = |a: AssetView| a.asset_id;
    let prefix = assets.drop_last();
    assert(asset_ids(assets) =~= prefix.map_values(f).push(assets.last().asset_id));
    assert forall|a: Seq<char>| id_set(assets).contains(a) implies id_set(prefix).insert(
        assets.last().asset_id,
    ).contains(a) by {
        let ks = asset_ids(assets);
        let k = choose|k: int| 0 <= k < ks.len() && ks[k] == a;
        if k < prefix.len() as int {
            assert(asset_ids(prefix)[k] == a);
        }
    }
    assert forall|a: Seq<char>| id_set(prefix).insert(assets.last().asset_id).contains(a) implies
        id_set(assets).contains(a) by {
        if a == assets.last().asset_id {
            assert(asset_ids(assets)[assets.len() - 1] == a);
        } else {
            let ks = asset_ids(prefix);
            let k = choose|k: int| 0 <= k < ks.len() && ks[k] == a;
            assert(asset_ids(assets)[k] == a);
        }
    }
    assert(id_set(assets) =~= id_set(prefix).insert(assets.last().asset_id));
}

/// The identifier of the last asset of a uniquely-identified batch does not
/// occur among the earlier ones.
proof fn lemma_last_id_fresh(assets: Seq<AssetView>)
    requires
        assets.len() > 0,
        ids_unique(assets),
    ensures
        !id_set(assets.drop_last()).contains(assets.last().asset_id),
{
    let prefix = assets.drop_last();
    if id_set(prefix).contains(assets.last().asset_id) {
        let ks = asset_ids(prefix);
        let k = choose|k: int| 0 <= k < ks.len() && ks[k] == assets.last().asset_id;
        assert(prefix[k].asset_id == assets.last().asset_id);
        assert(assets[k].asset_id == assets[assets.len() - 1].asset_id);
        assert(false);
    }
}

/// A pair taken from a success map carries an identifier of that map's set.
proof fn lemma_success_ids_member(s: Seq<(Seq<char>, Seq<char>)>, p: int)
    requires
        0 <= p < s.len(),
    ensures
        success_ids(s).contains(s[p].0),
{
    let f = |q: (Seq<char>, Seq<char>)| q.0;
    assert(s.map_values(f)[p] == s[p].0);
}

/// A pair taken from a failure list carries an identifier of that list's set.
proof fn lemma_failure_ids_member(s: Seq<(Seq<char>, ErrorView)>, p: int)
    requires
        0 <= p < s.len(),
    ensures
        failure_ids(s).contains(s[p].0),
{
    let f = |q: (Seq<char>, ErrorView)| q.0;
    assert(s.map_values(f)[p] == s[p].0);
}

/// The aggregation invariant: for every batch whose identifiers are unique
/// and whose assets are all covered by an outcome, the success map and the
/// failure list together hold exactly one entry per asset, neither holds an
/// identifier twice, their identifier sets are disjoint, and their union is
/// exactly the batch's identifier set.
pub proof fn lemma_outcome_partition(assets: Seq<AssetView>, outcomes: Seq<OutcomeView>)
    requires
        ids_unique(assets),
        covered(assets, outcomes),
    ensures
        successes_of(assets, outcomes).len() + failures_of(assets, outcomes).len() == assets.len(),
        pair_ids_unique(successes_of(assets, outcomes)),
        pair_ids_unique(failures_of(assets, outcomes)),
        success_ids(successes_of(assets, outcomes)).disjoint(
            failure_ids(failures_of(assets, outcomes)),
        ),
        success_ids(successes_of(assets, outcomes)).union(
            failure_ids(failures_of(assets, outcomes)),
        ) == id_set(assets),
    decreases assets.len(),
{
    let succ = successes_of(assets, outcomes);
    let fail = failures_of(assets, outcomes);
    if assets.len() == 0 {
        assert(success_ids(succ) =~= Set::<Seq<char>>::empty());
        assert(failure_ids(fail) =~= Set::<Seq<char>>::empty());
        assert(id_set(assets) =~= Set::<Seq<char>>::empty());
        assert(success_ids(succ).union(failure_ids(fail)) =~= id_set(assets));
    } else {
        let prefix = assets.drop_last();
        let x = assets.last();
        assert(covered(prefix, outcomes)) by {
            assert forall|i: int|
                0 <= i < prefix.len() implies #[trigger] outcome_lookup(
                outcomes,
                prefix[i].asset_id,
            ) is Some by {
                assert(prefix[i] == assets[i]);
                assert(outcome_lookup(outcomes, assets[i].asset_id) is Some);
            }
        }
        lemma_outcome_partition(prefix, outcomes);
        lemma_id_set_snoc(assets);
        lemma_last_id_fresh(assets);
        assert(outcome_lookup(outcomes, x.asset_id) is Some) by {
            assert(assets[assets.len() - 1] == x);
        }
        let ps = successes_of(prefix, outcomes);
        let pf = failures_of(prefix, outcomes);
        match outcome_lookup(outcomes, x.asset_id) {
            Some(r) => match r {
                Ok(url) => {
                    assert(succ == ps + seq![(x.asset_id, url)]);
                    assert(fail == pf + Seq::<(Seq<char>, ErrorView)>::empty());
                    assert(fail =~= pf);
                    lemma_success_ids_snoc(ps, (x.asset_id, url));
                    assert(succ.len() == ps.len() + 1);
                    assert(success_ids(succ).union(failure_ids(fail)) =~= id_set(assets));
                    assert forall|p: int, q: int|
                        0 <= p < q < succ.len() implies succ[p].0 != succ[q].0 by {
                        if q < ps.len() as int {
                            assert(succ[p] == ps[p] && succ[q] == ps[q]);
                        } else {
                            assert(succ[p] == ps[p]);
                            assert(succ[q].0 == x.asset_id);
                            lemma_success_ids_member(ps, p);
                            assert(id_set(prefix).contains(ps[p].0));
                        }
                    }
                },
                Err(e) => {
                    assert(fail == pf + seq![(x.asset_id, e)]);
                    assert(succ == ps + Seq::<(Seq<char>, Seq<char>)>::empty());
                    assert(succ =~= ps);
                    lemma_failure_ids_snoc(pf, (x.asset_id, e));
                    assert(fail.len() == pf.len() + 1);
                    assert(success_ids(succ).union(failure_ids(fail)) =~= id_set(assets));
                    assert forall|p: int, q: int|
                        0 <= p < q < fail.len() implies fail[p].0 != fail[q].0 by {
                        if q < pf.len() as int {
                            assert(fail[p] == pf[p] && fail[q] == pf[q]);
                        } else {
                            assert(fail[p] == pf[p]);
                            assert(fail[q].0 == x.asset_id);
                            lemma_failure_ids_member(pf, p);
                            assert(id_set(prefix).contains(pf[p].0));
                        }
                    }
                },
            },
            None => {
                assert(false);
            },
        }
    }
}

/// A lookup that succeeds names an outcome that is present in the sequence.
proof fn lemma_lookup_found(s: Seq<OutcomeView>, id: Seq<char>)
    requires
        outcome_lookup(s, id) is Some,
    ensures
        s.contains(
            OutcomeView { asset_id: id, result: outcome_lookup(s, id)->0 },
        ),
    decreases s.len(),
{
    if s.len() > 0 {
        if s[0].asset_id == id {
            assert(s[0] == OutcomeView { asset_id: id, result: outcome_lookup(s, id)->0 });
        } else {
            lemma_lookup_found(s.drop_first(), id);
            let x = OutcomeView { asset_id: id, result: outcome_lookup(s, id)->0 };
            let m = choose|m: int| 0 <= m < s.drop_first().len() && s.drop_first()[m] == x;
            assert(s[m + 1] == x);
        }
    }
}

/// In a sequence with unique identifiers, any contained outcome is what the
/// lookup of its identifier returns.
proof fn lemma_lookup_contains(s: Seq<OutcomeView>, x: OutcomeView)
    requires
        outcome_ids_unique(s),
        s.contains(x),
    ensures
        outcome_lookup(s, x.asset_id) == Some(x.result),
{
    let m = choose|m: int| 0 <= m < s.len() && s[m] == x;
    lemma_lookup_at(s, x.asset_id, m);
}

/// Two outcome sequences with unique identifiers that hold the same
/// outcomes — in any order — agree on every lookup.
proof fn lemma_lookup_permuted(o1: Seq<OutcomeView>, o2: Seq<OutcomeView>, id: Seq<char>)
    requires
        outcome_ids_unique(o1),
        outcome_ids_unique(o2),
        o1.to_multiset() == o2.to_multiset(),
    ensures
        outcome_lookup(o1, id) == outcome_lookup(o2, id),
{
    broadcast use vstd::seq_lib::group_to_multiset_ensures;

    if outcome_lookup(o1, id) is Some {
        lemma_lookup_found(o1, id);
        let x = OutcomeView { asset_id: id, result: outcome_lookup(o1, id)->0 };
        assert(o1.to_multiset().count(x) > 0);
        assert(o2.contains(x));
        lemma_lookup_contains(o2, x);
    } else if outcome_lookup(o2, id) is Some {
        lemma_lookup_found(o2, id);
        let x = OutcomeView { asset_id: id, result: outcome_lookup(o2, id)->0 };
        assert(o2.to_multiset().count(x) > 0);
        assert(o1.contains(x));
        lemma_lookup_contains(o1, x);
    }
}

/// Each asset's recorded entry is exactly its own outcome: a fixed asset's
/// URL or error in the aggregated result is determined by the outcome
/// carrying that asset's identifier, whatever the other assets of the batch
/// did.
pub proof fn lemma_entry_matches_outcome(
    assets: Seq<AssetView>,
    outcomes: Seq<OutcomeView>,
    i: int,
)
    requires
        covered(assets, outcomes),
        0 <= i < assets.len(),
    ensures
        match outcome_lookup(outcomes, assets[i].asset_id) {
            Some(r) => match r {
                Ok(url) => successes_of(assets, outcomes).contains((assets[i].asset_id, url)),
                Err(e) => failures_of(assets, outcomes).contains((assets[i].asset_id, e)),
            },
            None => false,
        },
    decreases assets.len(),
{
    let prefix = assets.drop_last();
    let x = assets.last();
    assert(outcome_lookup(outcomes, assets[i].asset_id) is Some);
    if i == assets.len() - 1 {
        let ps = successes_of(prefix, outcomes);
        let pf = failures_of(prefix, outcomes);
        match outcome_lookup(outcomes, x.asset_id) {
            Some(r) => match r {
                Ok(url) => {
                    assert(successes_of(assets, outcomes)[ps.len() as int] == (x.asset_id, url));
                },
                Err(e) => {
                    assert(failures_of(assets, outcomes)[pf.len() as int] == (x.asset_id, e));
                },
            },
            None => {},
        }
    } else {
        assert(covered(prefix, outcomes)) by {
            assert forall|k: int|
                0 <= k < prefix.len() implies #[trigger] outcome_lookup(
                outcomes,
                prefix[k].asset_id,
            ) is Some by {
                assert(prefix[k] == assets[k]);
            }
        }
        lemma_entry_matches_outcome(prefix, outcomes, i);
        assert(prefix[i] == assets[i]);
        let ps = successes_of(prefix, outcomes);
        let pf = failures_of(prefix, outcomes);
        match outcome_lookup(outcomes, assets[i].asset_id) {
            Some(r) => match r {
                Ok(url) => {
                    let m = choose|m: int|
                        0 <= m < ps.len() && ps[m] == (assets[i].asset_id, url);
                    assert(successes_of(assets, outcomes)[m] == (assets[i].asset_id, url));
                },
                Err(e) => {
                    let m = choose|m: int|
                        0 <= m < pf.len() && pf[m] == (assets[i].asset_id, e);
                    assert(failures_of(assets, outcomes)[m] == (assets[i].asset_id, e));
                },
            },
            None => {},
        }
    }
}

/// Aggregation is independent of the order in which tasks completed: two
/// outcome collections holding the same outcomes, each identifier at most
/// once, aggregate every batch to the same success map and failure list.
pub proof fn lemma_aggregation_order_independent(
    assets: Seq<AssetView>,
    o1: Seq<OutcomeView>,
    o2: Seq<OutcomeView>,
)
    requires
        outcome_ids_unique(o1),
        outcome_ids_unique(o2),
        o1.to_multiset() == o2.to_multiset(),
    ensures
        successes_of(assets, o1) == successes_of(assets, o2),
        failures_of(assets, o1) == failures_of(assets, o2),
    decreases assets.len(),
{
    if assets.len() > 0 {
        lemma_aggregation_order_independent(assets.drop_last(), o1, o2);
        lemma_lookup_permuted(o1, o2, assets.last().asset_id);
    }
}

/// Finds the first outcome carrying `id`, if any.
fn find_outcome(outcomes: &Vec<UploadOutcome>, id: &String) -> (r: Option<usize>)
    ensures
        match r {
            Some(j) => j < outcomes@.len() && outcomes@[j as int].asset_id@ == id@ && forall|k: int|
                0 <= k < j ==> outcomes@[k].asset_id@ != id@,
            None => forall|k: int| 0 <= k < outcomes@.len() ==> outcomes@[k].asset_id@ != id@,
        },
{
    let n = outcomes.len();
    let mut j: usize = 0;
    while j < n
        invariant
            n == outcomes@.len(),
            j <= n,
            forall|k: int| 0 <= k < j ==> outcomes@[k].asset_id@ != id@,
        decreases n - j,
    {
        if outcomes[j].asset_id == *id {
            return Some(j);
        }
        j = j + 1;
    }
    None
}

/// Decides whether every asset of the batch has an outcome: the runtime
/// counterpart of the aggregator's coverage precondition, for callers that
/// assemble the outcome collection outside this crate.
pub fn outcomes_cover(batch: &Batch, outcomes: &Vec<UploadOutcome>) -> (b: bool)
    ensures
        b == covered(batch@, views_of_outcomes(outcomes@)),
{
    let ghost ovs = views_of_outcomes(outcomes@);
    let n = batch.len();
    let mut i: usize = 0;
    while i < n
        invariant
            ovs == views_of_outcomes(outcomes@),
            n == batch@.len(),
            i <= n,
            forall|k: int|
                0 <= k < i ==> #[trigger] outcome_lookup(ovs, batch@[k].asset_id) is Some,
        decreases n - i,
    {
        let asset = batch.get(i);
        match find_outcome(outcomes, &asset.asset_id) {
            Some(j) => {
                proof {
                    assert(ovs[j as int].asset_id == outcomes@[j as int].asset_id@);
                    assert forall|k: int| 0 <= k < j implies ovs[k].asset_id
                        != asset@.asset_id by {
                        assert(ovs[k].asset_id == outcomes@[k].asset_id@);
                    }
                    lemma_lookup_at(ovs, asset@.asset_id, j as int);
                }
            },
            None => {
                proof {
                    assert forall|k: int| 0 <= k < ovs.len() implies ovs[k].asset_id
                        != asset@.asset_id by {
                        assert(ovs[k].asset_id == outcomes@[k].asset_id@);
                    }
                    lemma_lookup_none(ovs, asset@.asset_id);
                }
                return false;
            },
        }
        i = i + 1;
    }
    true
}

/// Merges the unordered task outcomes back into catalog order, partitioning
/// them into the success map and the failure list. The result is a function
/// of the batch and of which outcome each identifier carries — not of the
/// order in which tasks completed — and the two lists partition the batch:
/// one entry per asset, disjoint identifier sets whose union is the batch's.
pub fn aggregate(batch: &Batch, outcomes: &Vec<UploadOutcome>) -> (r: BatchResult)
    requires
        batch.wf(),
        covered(batch@, views_of_outcomes(outcomes@)),
    ensures
        r@.successes == successes_of(batch@, views_of_outcomes(outcomes@)),
        r@.failures == failures_of(batch@, views_of_outcomes(outcomes@)),
        r@.successes.len() + r@.failures.len() == batch@.len(),
        pair_ids_unique(r@.successes),
        pair_ids_unique(r@.failures),
        success_ids(r@.successes).disjoint(failure_ids(r@.failures)),
        success_ids(r@.successes).union(failure_ids(r@.failures)) == id_set(batch@),
{
    let ghost ovs = views_of_outcomes(outcomes@);
    let mut successes: Vec<(String, String)> = Vec::new();
    let mut failures: Vec<(String, UploadError)> = Vec::new();
    let n = batch.len();
    let mut i: usize = 0;
    while i < n
        invariant
            batch.wf(),
            covered(batch@, ovs),
            ovs == views_of_outcomes(outcomes@),
            n == batch@.len(),
            i <= n,
            successes@.map_values(|p: (String, String)| (p.0@, p.1@)) == successes_of(
                batch@.take(i as int),
                ovs,
            ),
            failures@.map_values(|p: (String, UploadError)| (p.0@, p.1@)) == failures_of(
                batch@.take(i as int),
                ovs,
            ),
        decreases n - i,
    {
        let asset = batch.get(i);
        let ghost pre = batch@.take(i as int);
        let ghost cur = batch@.take(i + 1);
        proof {
            assert(cur.drop_last() =~= pre);
            assert(cur.last() == batch@[i as int]);
        }
        match find_outcome(outcomes, &asset.asset_id) {
            Some(j) => {
                proof {
                    assert(ovs[j as int].asset_id == outcomes@[j as int].asset_id@);
                    assert forall|k: int| 0 <= k < j implies ovs[k].asset_id
                        != asset@.asset_id by {
                        assert(ovs[k].asset_id == outcomes@[k].asset_id@);
                    }
                    lemma_lookup_at(ovs, asset@.asset_id, j as int);
                }
                let outcome = &outcomes[j];
                match &outcome.result {
                    Ok(url) => {
                        successes.push((asset.asset_id.clone(), url.clone()));
                        proof {
                            assert(successes@.map_values(|p: (String, String)| (p.0@, p.1@))
                                =~= successes_of(pre, ovs).push((asset@.asset_id, url@)));
                            assert(successes_of(cur, ovs) =~= successes_of(pre, ovs).push(
                                (asset@.asset_id, url@),
                            ));
                            assert(failures_of(cur, ovs) =~= failures_of(pre, ovs));
                        }
                    },
                    Err(e) => {
                        failures.push((asset.asset_id.clone(), e.duplicate()));
                        proof {
                            assert(failures@.map_values(|p: (String, UploadError)| (p.0@, p.1@))
                                =~= failures_of(pre, ovs).push((asset@.asset_id, e@)));
                            assert(failures_of(cur, ovs) =~= failures_of(pre, ovs).push(
                                (asset@.asset_id, e@),
                            ));
                            assert(successes_of(cur, ovs) =~= successes_of(pre, ovs));
                        }
                    },
                }
            },
            None => {
                proof {
                    assert forall|k: int| 0 <= k < ovs.len() implies ovs[k].asset_id
                        != asset@.asset_id by {
                        assert(ovs[k].asset_id == outcomes@[k].asset_id@);
                    }
                    lemma_lookup_none(ovs, asset@.asset_id);
                    assert(outcome_lookup(ovs, batch@[i as int].asset_id) is Some);
                    assert(false);
                }
            },
        }
        i = i + 1;
    }
    proof {
        assert(batch@.take(n as int) =~= batch@);
        lemma_outcome_partition(batch@, ovs);
    }
    BatchResult { successes, failures }
}

/// Runs the decision layer of one batch: a failed preparation aborts the
/// batch before any outcome exists and surfaces the prepare error alone;
/// otherwise the collected outcomes are aggregated. Exactly the prepared
/// batches produce a batch result.
pub fn run_batch(batch: &Batch, prepare_result: Result<(), String>, outcomes: &Vec<UploadOutcome>)
    -> (r: Result<BatchResult, UploadError>)
    requires
        batch.wf(),
        prepare_result is Ok ==> covered(batch@, views_of_outcomes(outcomes@)),
    ensures
        r is Ok <==> prepare_result is Ok,
        prepare_result is Err ==> r->Err_0@ == ErrorView::Prepare(prepare_result->Err_0@),
        prepare_result is Ok ==> {
            &&& r->Ok_0@.successes == successes_of(batch@, views_of_outcomes(outcomes@))
            &&& r->Ok_0@.failures == failures_of(batch@, views_of_outcomes(outcomes@))
            &&& r->Ok_0@.successes.len() + r->Ok_0@.failures.len() == batch@.len()
            &&& pair_ids_unique(r->Ok_0@.successes)
            &&& pair_ids_unique(r->Ok_0@.failures)
            &&& success_ids(r->Ok_0@.successes).disjoint(failure_ids(r->Ok_0@.failures))
            &&& success_ids(r->Ok_0@.successes).union(failure_ids(r->Ok_0@.failures)) == id_set(
                batch@,
            )
        },
{
    match prepare_result {
        Err(message) => Err(UploadError::Prepare(message)),
        Ok(()) => Ok(aggregate(batch, outcomes)),
    }
}

} // verus!
