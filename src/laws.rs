use vstd::prelude::*;
use crate::nft::{
    add_outcome, frontend_valid, keys_unique, lists_values, lists_values_by, pairs_map,
    standard_key, Controller, NftCanister, OperationError,
};
use crate::principal::Principal;
use crate::url::url_valid;

verus! {

/// The registry contents after each record of `recs` has been added in turn,
/// keyed by its own identifier.
pub open spec fn added_records(m: Map<Seq<u8>, NftCanister>, recs: Seq<NftCanister>) -> Map<
    Seq<u8>,
    NftCanister,
>
    decreases recs.len(),
{
    if recs.len() == 0 {
        m
    } else {
        added_records(m, recs.drop_last()).insert(recs.last().principal_id@, recs.last())
    }
}

/// The identifiers of a list of records.
pub open spec fn record_ids(recs: Seq<NftCanister>) -> Seq<Seq<u8>> {
    recs.map_values(|c: NftCanister| c.principal_id@)
}

/// Once `a` controls the registry, an add by any other caller is refused as
/// unauthorized, whatever the record.
pub proof fn law_only_controller_adds(controller: Controller, a: Principal, b: Principal, c: NftCanister)
    requires
        controller.0@ == a@,
        b@ != a@,
    ensures
        add_outcome(controller.0@, b@, c) == Err::<(), OperationError>(OperationError::NotAuthorized),
{
}

/// After the controller `a` hands control to another identity `b`, adds by
/// `a` are refused as unauthorized and adds by `b` pass the authority check.
pub proof fn law_handover(before: Controller, after: Controller, a: Principal, b: Principal, c: NftCanister)
    requires
        before.0@ == a@,
        after.0@ == b@,
        a@ != b@,
    ensures
        add_outcome(after.0@, a@, c) == Err::<(), OperationError>(OperationError::NotAuthorized),
        add_outcome(after.0@, b@, c) != Err::<(), OperationError>(OperationError::NotAuthorized),
{
}

/// An add by the controller of a record whose attribute list is not exactly
/// one pair keyed "standard" is refused as a bad parameter.
pub proof fn law_attributes_checked(controller: Controller, c: NftCanister)
    requires
        c.details@.len() != 1 || c.details@[0].0@ != standard_key(),
    ensures
        add_outcome(controller.0@, controller.0@, c) == Err::<(), OperationError>(
            OperationError::BadParameters,
        ),
{
}

/// For a record that is valid apart from its name, an add by the controller
/// succeeds exactly when the name has at most 120 characters, and is refused
/// as a bad parameter otherwise.
pub proof fn law_name_limit(controller: Controller, c: NftCanister)
    requires
        url_valid(c.thumbnail@),
        frontend_valid(c),
        c.details@.len() == 1,
        c.details@[0].0@ == standard_key(),
        c.description@.len() <= 1200,
    ensures
        c.name@.len() <= 120 ==> add_outcome(controller.0@, controller.0@, c) is Ok,
        c.name@.len() > 120 ==> add_outcome(controller.0@, controller.0@, c) == Err::<
            (),
            OperationError,
        >(OperationError::BadParameters),
{
}

/// Once a stored identifier has been removed, a lookup of it finds nothing.
pub proof fn law_removed_is_gone(before: Map<Seq<u8>, NftCanister>, after: Map<Seq<u8>, NftCanister>, id: Principal)
    requires
        before.contains_key(id@),
        after == before.remove(id@),
    ensures
        !after.contains_key(id@),
{
}

proof fn lemma_added_records(recs: Seq<NftCanister>)
    requires
        record_ids(recs).no_duplicates(),
    ensures
        added_records(Map::empty(), recs).dom() == record_ids(recs).to_set(),
        forall|i: int|
            0 <= i < recs.len() ==> added_records(Map::empty(), recs)[#[trigger] recs[i].principal_id@]
                == recs[i],
    decreases recs.len(),
{
    if recs.len() > 0 {
        let d = recs.drop_last();
        assert(record_ids(d) =~= record_ids(recs).drop_last());
        lemma_added_records(d);
        assert(record_ids(recs) =~= record_ids(d).push(recs.last().principal_id@));
        record_ids(d).lemma_push_to_set_commute(recs.last().principal_id@);
        assert(added_records(Map::empty(), recs).dom() =~= record_ids(recs).to_set());
        assert forall|i: int| 0 <= i < recs.len() implies added_records(Map::empty(), recs)[
            #[trigger] recs[i].principal_id@] == recs[i] by {
            if i < recs.len() - 1 {
                assert(record_ids(recs)[i] != record_ids(recs)[recs.len() - 1]);
                assert(d[i] == recs[i]);
            }
        }
    }
}

/// After records with pairwise distinct identifiers are added to an empty
/// registry, listing it yields as many records as were added, and exactly
/// those records.
pub proof fn law_list_after_adds(recs: Seq<NftCanister>, listed: Seq<&NftCanister>)
    requires
        record_ids(recs).no_duplicates(),
        lists_values(listed, added_records(Map::empty(), recs)),
    ensures
        listed.len() == recs.len(),
        forall|x: NftCanister| (exists|j: int| 0 <= j < listed.len() && *listed[j] == x) <==> recs.contains(x),
{
    let m = added_records(Map::empty(), recs);
    let ids = record_ids(recs);
    lemma_added_records(recs);
    let ks = choose|ks: Seq<Seq<u8>>| lists_values_by(listed, m, ks);
    ks.unique_seq_to_set();
    ids.unique_seq_to_set();
    assert forall|x: NftCanister| (exists|j: int| 0 <= j < listed.len() && *listed[j] == x) <==> recs.contains(x) by {
        if exists|j: int| 0 <= j < listed.len() && *listed[j] == x {
            let j = choose|j: int| 0 <= j < listed.len() && *listed[j] == x;
            assert(ks.to_set().contains(ks[j]));
            assert(ids.to_set().contains(ks[j]));
            let i = choose|i: int| 0 <= i < ids.len() && ids[i] == ks[j];
            assert(recs[i] == x);
        }
        if recs.contains(x) {
            let i = choose|i: int| 0 <= i < recs.len() && recs[i] == x;
            assert(ids[i] == x.principal_id@);
            assert(ids.to_set().contains(ids[i]));
            assert(ks.to_set().contains(ids[i]));
            let j = choose|j: int| 0 <= j < ks.len() && ks[j] == ids[i];
            assert(*listed[j] == x);
        }
    }
}

/// The keys of a list of pairs.
pub open spec fn pair_keys(s: Seq<(Principal, NftCanister)>) -> Seq<Seq<u8>> {
    s.map_values(|e: (Principal, NftCanister)| e.0@)
}

proof fn lemma_pairs_map_keys(s: Seq<(Principal, NftCanister)>)
    ensures
        pairs_map(s).dom() == pair_keys(s).to_set(),
    decreases s.len(),
{
    if s.len() > 0 {
        let d = s.drop_last();
        lemma_pairs_map_keys(d);
        assert(pair_keys(s) =~= pair_keys(d).push(s.last().0@));
        pair_keys(d).lemma_push_to_set_commute(s.last().0@);
        assert(pairs_map(s).dom() =~= pair_keys(s).to_set());
    }
}

/// Loading the pairs handed out by emptying a registry restores exactly the
/// contents it held; the snapshot holds one pair per stored record, so the
/// registry is non-empty after the round trip exactly when it was before.
pub proof fn law_snapshot_round_trip(
    before: Map<Seq<u8>, NftCanister>,
    snapshot: Seq<(Principal, NftCanister)>,
    after: Map<Seq<u8>, NftCanister>,
)
    requires
        keys_unique(snapshot),
        pairs_map(snapshot) == before,
        after == pairs_map(snapshot),
    ensures
        after == before,
        snapshot.len() == before.dom().len(),
        after.dom().len() == 0 <==> before.dom().len() == 0,
{
    lemma_pairs_map_keys(snapshot);
    let ks = pair_keys(snapshot);
    assert forall|a: int, b: int| 0 <= a < ks.len() && 0 <= b < ks.len() && a != b
        implies ks[a] != ks[b] by {}
    ks.unique_seq_to_set();
}

} // verus!
