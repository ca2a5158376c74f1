use vstd::prelude::*;
use crate::error::ErrorView;
use crate::execute::{
    admits, batch_run, lemma_batch_error_persists, blank, create_result, create_state, delete_state, half_null, named_result,
    named_state, record_of,
};
use crate::msg::DeeplinkView;
use crate::state::{any_name, listed, StoreView};

verus! {

/// Every creation, named or not, takes the identifier after the last one and
/// makes it the last; deleting takes none back.
pub proof fn lemma_each_creation_takes_next_id(
    s: StoreView,
    sender: Seq<char>,
    name: Seq<char>,
    d: DeeplinkView,
    id: u64,
)
    ensures
        create_result(s, d) is Ok ==> create_result(s, d)->Ok_0 == s.last_id() + 1
            && create_state(s, d).last_id() == s.last_id() + 1,
        named_result(s, sender, name, d) is Ok ==> named_result(s, sender, name, d)->Ok_0
            == s.last_id() + 1 && named_state(s, sender, name, d).last_id() == s.last_id() + 1,
        delete_state(s, sender, id).links == s.links,
{
}

/// A batch that succeeds hands out the identifiers after the last one, one
/// apart and in order, stores the links in that order and binds no name.
/// From a fresh registry (last identifier 0) they are 1, 2, 3, ...
pub proof fn lemma_ids_consecutive(s: StoreView, ds: Seq<DeeplinkView>)
    requires
        batch_run(s, ds).1 is Ok,
    ensures
        batch_run(s, ds).1->Ok_0.len() == ds.len(),
        forall|k: int| 0 <= k < ds.len() ==> #[trigger] batch_run(s, ds).1->Ok_0[k] == s.last_id() + 1 + k,
        batch_run(s, ds).0.links == s.links + ds.map_values(|d: DeeplinkView| record_of(d)),
        batch_run(s, ds).0.last_id() == s.last_id() + ds.len(),
        batch_run(s, ds).0.registry == s.registry,
        batch_run(s, ds).0.deleted == s.deleted,
    decreases ds.len(),
{
    if ds.len() > 0 {
        let prev = ds.drop_last();
        lemma_ids_consecutive(s, prev);
        assert(ds.map_values(|d: DeeplinkView| record_of(d)) =~= prev.map_values(
            |d: DeeplinkView| record_of(d),
        ).push(record_of(ds.last())));
        let ids = batch_run(s, ds).1->Ok_0;
        let prev_ids = batch_run(s, prev).1->Ok_0;
        assert forall|k: int| 0 <= k < ds.len() implies #[trigger] ids[k] == s.last_id() + 1 + k by {
            if k < prev.len() {
                assert(ids[k] == prev_ids[k]);
            }
        }
    } else {
        assert(ds.map_values(|d: DeeplinkView| record_of(d)) =~= Seq::<crate::state::LinkSpec>::empty());
        assert(s.links + Seq::<crate::state::LinkSpec>::empty() =~= s.links);
    }
}

/// A batch stops at its first failing link and reports that failure; the
/// links before it stay created.
pub proof fn lemma_batch_stops_at_first_failure(s: StoreView, ds: Seq<DeeplinkView>, k: int)
    requires
        0 <= k < ds.len(),
        batch_run(s, ds.take(k)).1 is Ok,
        create_result(batch_run(s, ds.take(k)).0, ds[k]) is Err,
    ensures
        batch_run(s, ds).1 == Err::<Seq<u64>, ErrorView>(
            create_result(batch_run(s, ds.take(k)).0, ds[k])->Err_0,
        ),
        batch_run(s, ds).0.links == s.links + ds.take(k).map_values(|d: DeeplinkView| record_of(d)),
{
    lemma_ids_consecutive(s, ds.take(k));
    assert(ds.take(k + 1).drop_last() =~= ds.take(k));
    assert(ds.take(k + 1).last() == ds[k]);
    lemma_batch_error_persists(s, ds, k + 1);
}

/// A link with one endpoint absent and the other given is refused as
/// invalid, whatever its type, whoever asks and whatever the registry holds.
pub proof fn lemma_half_null_rejected(s: StoreView, sender: Seq<char>, name: Seq<char>, t: Seq<char>, x: Seq<char>)
    ensures
        create_result(s, DeeplinkView { type_: t, from: None, to: Some(x) }) == Err::<u64, ErrorView>(
            ErrorView::InvalidDeeplink { id: 0, from: blank(), to: x, type_: t },
        ),
        create_result(s, DeeplinkView { type_: t, from: Some(x), to: None }) == Err::<u64, ErrorView>(
            ErrorView::InvalidDeeplink { id: 0, from: x, to: blank(), type_: t },
        ),
        listed(s.admins, sender) ==> named_result(s, sender, name, DeeplinkView { type_: t, from: None, to: Some(x) })
            == Err::<u64, ErrorView>(ErrorView::InvalidDeeplink { id: 0, from: blank(), to: x, type_: t }),
{
}

/// A link whose type names no registered entry is refused with that name,
/// unless it is already refused for a half-absent pair of endpoints.
pub proof fn lemma_unknown_type_rejected(s: StoreView, sender: Seq<char>, name: Seq<char>, d: DeeplinkView)
    requires
        !half_null(d),
        !s.registry.contains_key(d.type_),
    ensures
        create_result(s, d) == Err::<u64, ErrorView>(ErrorView::TypeNotExists { type_: d.type_ }),
        listed(s.admins, sender) ==> named_result(s, sender, name, d) == Err::<u64, ErrorView>(
            ErrorView::TypeNotExists { type_: d.type_ },
        ),
{
}

/// A type whose endpoints are both the wildcard accepts a link between any
/// two registered entries or wildcards.
pub proof fn lemma_wildcard_accepts(s: StoreView, t: Seq<char>, from: Seq<char>, to: Seq<char>)
    requires
        s.registry.contains_key(t),
        s.registry[t].from == any_name(),
        s.registry[t].to == any_name(),
        from == any_name() || s.registry.contains_key(from),
        to == any_name() || s.registry.contains_key(to),
        s.last_id() < u64::MAX,
    ensures
        create_result(s, DeeplinkView { type_: t, from: Some(from), to: Some(to) }) == Ok::<u64, ErrorView>(
            (s.last_id() + 1) as u64,
        ),
{
}

/// An endpoint written as the wildcard is never looked up and never held to
/// a constraint: a link of any registered type between two wildcards is
/// accepted, whatever the table of names holds.
pub proof fn lemma_wildcard_endpoints_accepted(s: StoreView, t: Seq<char>)
    requires
        s.registry.contains_key(t),
        s.last_id() < u64::MAX,
    ensures
        create_result(s, DeeplinkView { type_: t, from: Some(any_name()), to: Some(any_name()) })
            == Ok::<u64, ErrorView>((s.last_id() + 1) as u64),
{
}

/// When the source's type breaks the source constraint of the link's type,
/// the link is refused with a conflict that reports the constraint expected
/// and the type received.
pub proof fn lemma_conflict_reported(s: StoreView, t: Seq<char>, from: Seq<char>, to: Seq<char>)
    requires
        s.registry.contains_key(t),
        s.registry.contains_key(from),
        s.registry.contains_key(to),
        from != any_name(),
        to != any_name(),
        !admits(s.registry[t].from, s.registry[from].type_),
    ensures
        create_result(s, DeeplinkView { type_: t, from: Some(from), to: Some(to) }) == Err::<u64, ErrorView>(
            ErrorView::TypeConflict {
                id: blank(),
                type_: t,
                from,
                to,
                expected_type: t,
                expected_from: s.registry[t].from,
                expected_to: s.registry[t].to,
                received_type: t,
                received_from: s.registry[from].type_,
                received_to: s.registry[to].type_,
            },
        ),
{
}

/// A deleted link can no longer be read, its identifier is listed among the
/// deleted ones, and the stored link itself is kept.
pub proof fn lemma_tombstone_hides(s: StoreView, sender: Seq<char>, id: u64)
    requires
        listed(s.admins, sender),
    ensures
        delete_state(s, sender, id).visible(id) is None,
        delete_state(s, sender, id).deleted.contains(id),
        delete_state(s, sender, id).stored(id) == s.stored(id),
{
}

} // verus!
