use vstd::prelude::*;
use crate::error::{ContractError, ErrorView, result_view};
use crate::state::{
    entries_view, ids_sorted, lists_bindings, names_sorted, numbered_view, strings_view,
    DeeplinkState, DeeplinkStore, LinkSpec,
};

verus! {

/// The admins and executors of a registry.
#[derive(Clone, Debug, PartialEq)]
pub struct ConfigResponse {
    pub admins: Vec<String>,
    pub executors: Vec<String>,
}

/// A full snapshot: every stored link by identifier, every named binding by
/// name, and every deleted identifier, each in increasing order.
#[derive(Clone, Debug, PartialEq)]
pub struct StateResponse {
    pub deeplinks: Vec<(u64, DeeplinkState)>,
    pub named_deeplinks: Vec<(String, DeeplinkState)>,
    pub deleted_deeplinks: Vec<u64>,
}

/// The last identifier handed out; 0 while none was.
pub fn query_last_id(store: &DeeplinkStore) -> (r: u64)
    ensures
        r == store@.last_id(),
{
    store.last_id()
}

/// The link `id`, unless it was never created or was deleted; the two are
/// reported alike.
pub fn query_id(store: &DeeplinkStore, id: u64) -> (r: Result<DeeplinkState, ContractError>)
    ensures
        r is Ok == store@.visible(id) is Some,
        r is Ok ==> r->Ok_0@ == store@.visible(id)->0,
        r is Err ==> r->Err_0@ == (ErrorView::NotFound { id }),
{
    if store.is_deleted(id) {
        return Err(ContractError::NotFound { id });
    }
    match store.stored_link(id) {
        Some(l) => Ok(l.duplicate()),
        None => Err(ContractError::NotFound { id }),
    }
}

pub fn query_config(store: &DeeplinkStore) -> (r: ConfigResponse)
    ensures
        strings_view(r.admins@) == store@.admins,
        strings_view(r.executors@) == store@.executors,
{
    let cfg = store.config().duplicate();
    ConfigResponse { admins: cfg.admins, executors: cfg.executors }
}

pub fn query_state(store: &DeeplinkStore) -> (r: StateResponse)
    requires
        store.wf(),
    ensures
        numbered_view(r.deeplinks@) == store@.links.map(|i: int, l: LinkSpec| ((i + 1) as u64, l)),
        names_sorted(entries_view(r.named_deeplinks@)),
        lists_bindings(entries_view(r.named_deeplinks@), store@.registry),
        ids_sorted(r.deleted_deeplinks@),
        r.deleted_deeplinks@.to_set() == store@.deleted,
{
    let deeplinks = store.numbered_links();
    assert(numbered_view(deeplinks@) =~= store@.links.map(|i: int, l: LinkSpec| ((i + 1) as u64, l)));
    StateResponse {
        deeplinks,
        named_deeplinks: store.named_entries(),
        deleted_deeplinks: store.deleted_ids(),
    }
}

} // verus!
