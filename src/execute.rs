use vstd::prelude::*;
use crate::error::{ContractError, ErrorView, result_view};
use crate::msg::{Deeplink, DeeplinkView, InstantiateMsg};
use crate::state::{
    any_name, any_string, listed, strings_view, DeeplinkState, DeeplinkStore, LinkSpec, StoreView,
};

verus! {

/// The text reported in place of an absent name.
pub open spec fn blank() -> Seq<char> {
    seq!['_']
}

pub open spec fn or_blank(o: Option<Seq<char>>) -> Seq<char> {
    match o {
        Some(s) => s,
        None => blank(),
    }
}

/// An absent endpoint is stored as the wildcard.
pub open spec fn or_any(o: Option<Seq<char>>) -> Seq<char> {
    match o {
        Some(s) => s,
        None => any_name(),
    }
}

/// One endpoint given and the other absent.
pub open spec fn half_null(d: DeeplinkView) -> bool {
    d.from != d.to && (d.from is None || d.to is None)
}

/// A constraint of a schema entry admits an endpoint of type `actual` when it
/// is the wildcard or names that very type.
pub open spec fn admits(constraint: Seq<char>, actual: Seq<char>) -> bool {
    constraint == any_name() || constraint == actual
}

/// An endpoint that names an entry: given, and not the wildcard. Only such
/// an endpoint is looked up.
pub open spec fn concrete(o: Option<Seq<char>>) -> bool {
    o is Some && o->0 != any_name()
}

/// What validating `d` against the table of names `reg` gives; `id` is the
/// name the link is to be registered under, if any. A wildcard endpoint is
/// never looked up, and the endpoints' types are held to the constraints of
/// the link's type only when both endpoints are concrete.
pub open spec fn validation(reg: Map<Seq<char>, LinkSpec>, id: Option<Seq<char>>, d: DeeplinkView) -> Result<(), ErrorView> {
    if half_null(d) {
        Err(ErrorView::InvalidDeeplink { id: 0, from: or_blank(d.from), to: or_blank(d.to), type_: d.type_ })
    } else if !reg.contains_key(d.type_) {
        Err(ErrorView::TypeNotExists { type_: d.type_ })
    } else if concrete(d.from) && !reg.contains_key(d.from->0) {
        Err(ErrorView::FromNotExists { from: d.from->0 })
    } else if concrete(d.to) && !reg.contains_key(d.to->0) {
        Err(ErrorView::ToNotExists { to: d.to->0 })
    } else if concrete(d.from) && concrete(d.to) && !(admits(reg[d.type_].from, reg[d.from->0].type_)
        && admits(reg[d.type_].to, reg[d.to->0].type_)) {
        Err(ErrorView::TypeConflict {
            id: or_blank(id),
            type_: d.type_,
            from: d.from->0,
            to: d.to->0,
            expected_type: d.type_,
            expected_from: reg[d.type_].from,
            expected_to: reg[d.type_].to,
            received_type: d.type_,
            received_from: reg[d.from->0].type_,
            received_to: reg[d.to->0].type_,
        })
    } else {
        Ok(())
    }
}

/// The link stored for the candidate `d`.
pub open spec fn record_of(d: DeeplinkView) -> LinkSpec {
    LinkSpec { type_: d.type_, from: or_any(d.from), to: or_any(d.to) }
}

/// What creating the unnamed link `d` returns.
pub open spec fn create_result(s: StoreView, d: DeeplinkView) -> Result<u64, ErrorView> {
    match validation(s.registry, None, d) {
        Err(e) => Err(e),
        Ok(_) => if s.last_id() < u64::MAX {
            Ok((s.last_id() + 1) as u64)
        } else {
            Err(ErrorView::IdOverflow)
        },
    }
}

/// The registry after creating the unnamed link `d`.
pub open spec fn create_state(s: StoreView, d: DeeplinkView) -> StoreView {
    if create_result(s, d) is Ok {
        StoreView { links: s.links.push(record_of(d)), ..s }
    } else {
        s
    }
}

/// What creating `d` under `name`, asked by `sender`, returns.
pub open spec fn named_result(s: StoreView, sender: Seq<char>, name: Seq<char>, d: DeeplinkView) -> Result<u64, ErrorView> {
    if !listed(s.admins, sender) {
        Err(ErrorView::Unauthorized)
    } else {
        match validation(s.registry, Some(name), d) {
            Err(e) => Err(e),
            Ok(_) => if s.last_id() < u64::MAX {
                Ok((s.last_id() + 1) as u64)
            } else {
                Err(ErrorView::IdOverflow)
            },
        }
    }
}

/// The registry after creating `d` under `name`.
pub open spec fn named_state(s: StoreView, sender: Seq<char>, name: Seq<char>, d: DeeplinkView) -> StoreView {
    if named_result(s, sender, name, d) is Ok {
        StoreView {
            links: s.links.push(record_of(d)),
            registry: s.registry.insert(name, record_of(d)),
            ..s
        }
    } else {
        s
    }
}

/// Creating the links of `ds` one after the other, stopping at the first
/// failure: the registry afterwards, and the identifiers or the failure.
/// Links created before the failure stay.
pub open spec fn batch_run(s: StoreView, ds: Seq<DeeplinkView>) -> (StoreView, Result<Seq<u64>, ErrorView>)
    decreases ds.len(),
{
    if ds.len() == 0 {
        (s, Ok(Seq::empty()))
    } else {
        let (s1, r1) = batch_run(s, ds.drop_last());
        match r1 {
            Err(e) => (s1, Err(e)),
            Ok(ids) => match create_result(s1, ds.last()) {
                Err(e) => (s1, Err(e)),
                Ok(id) => (create_state(s1, ds.last()), Ok(ids.push(id))),
            },
        }
    }
}

pub open spec fn deeplinks_view(ds: Seq<Deeplink>) -> Seq<DeeplinkView> {
    ds.map_values(|d: Deeplink| d@)
}

pub open spec fn ids_result_view(r: Result<Vec<u64>, ContractError>) -> Result<Seq<u64>, ErrorView> {
    match r {
        Ok(v) => Ok(v@),
        Err(e) => Err(e@),
    }
}

/// What deleting `id`, asked by `sender`, returns.
pub open spec fn delete_result(s: StoreView, sender: Seq<char>, id: u64) -> Result<(), ErrorView> {
    if listed(s.admins, sender) {
        Ok(())
    } else {
        Err(ErrorView::Unauthorized)
    }
}

/// The registry after deleting `id`: the link stays stored, its identifier
/// joins the deleted ones.
pub open spec fn delete_state(s: StoreView, sender: Seq<char>, id: u64) -> StoreView {
    if listed(s.admins, sender) {
        StoreView { deleted: s.deleted.insert(id), ..s }
    } else {
        s
    }
}

/// Once a prefix of a batch fails, the whole batch ends as that prefix did:
/// nothing after the failure is created.
pub proof fn lemma_batch_error_persists(s: StoreView, ds: Seq<DeeplinkView>, k: int)
    requires
        0 <= k <= ds.len(),
        batch_run(s, ds.take(k)).1 is Err,
    ensures
        batch_run(s, ds) == batch_run(s, ds.take(k)),
    decreases ds.len() - k,
{
    if k < ds.len() {
        assert(ds.take(k + 1).drop_last() =~= ds.take(k));
        lemma_batch_error_persists(s, ds, k + 1);
    } else {
        assert(ds.take(k) =~= ds);
    }
}

fn blank_string() -> (r: String)
    ensures
        r@ == blank(),
{
    proof {
        reveal_strlit("_");
    }
    "_".to_owned()
}

fn name_or_blank(o: &Option<String>) -> (r: String)
    ensures
        r@ == or_blank(crate::msg::option_view(*o)),
{
    match o {
        Some(s) => s.clone(),
        None => blank_string(),
    }
}

fn name_or_any(o: &Option<String>) -> (r: String)
    ensures
        r@ == or_any(crate::msg::option_view(*o)),
{
    match o {
        Some(s) => s.clone(),
        None => any_string(),
    }
}

/// The stored form of a candidate link.
fn state_of(d: &Deeplink) -> (r: DeeplinkState)
    ensures
        r@ == record_of(d@),
{
    DeeplinkState { type_: d.type_.clone(), from: name_or_any(&d.from), to: name_or_any(&d.to) }
}

/// Sets up a registry: the admins and executors of `msg`, no links, and the
/// root entry `Type` bound.
pub fn instantiate(msg: InstantiateMsg) -> (r: DeeplinkStore)
    ensures
        r.wf(),
        r@.admins == strings_view(msg.admins@),
        r@.executors == strings_view(msg.executers@),
        r@.links.len() == 0,
        r@.registry == map![crate::state::root_type_name() => crate::state::root_entry()],
        r@.deleted.is_empty(),
{
    DeeplinkStore::new(msg.admins, msg.executers)
}

/// Whether the given endpoint `name` is concrete, that is not the wildcard.
fn is_concrete(name: &String) -> (r: bool)
    ensures
        r == (name@ != any_name()),
{
    let any = any_string();
    !(*name == any)
}

/// Validates the candidate link `deeplink` against the table of names; `id` is
/// the name it is to be registered under, if any. Changes nothing.
pub fn validate_deeplink(store: &DeeplinkStore, id: &Option<String>, deeplink: &Deeplink) -> (r: Result<(), ContractError>)
    requires
        store.wf(),
    ensures
        result_view(r) == validation(store@.registry, crate::msg::option_view(*id), deeplink@),
{
    let half = match (&deeplink.from, &deeplink.to) {
        (Some(_), None) => true,
        (None, Some(_)) => true,
        _ => false,
    };
    if half {
        return Err(ContractError::InvalidDeeplink {
            id: 0,
            from: name_or_blank(&deeplink.from),
            to: name_or_blank(&deeplink.to),
            type_: deeplink.type_.clone(),
        });
    }
    let dtype = match store.lookup_named(deeplink.type_.as_str()) {
        Some(t) => t,
        None => {
            return Err(ContractError::TypeNotExists { type_: deeplink.type_.clone() });
        },
    };
    let mut dfrom: Option<&DeeplinkState> = None;
    if let Some(from) = &deeplink.from {
        if is_concrete(from) {
            match store.lookup_named(from.as_str()) {
                Some(f) => {
                    dfrom = Some(f);
                },
                None => {
                    return Err(ContractError::FromNotExists { from: from.clone() });
                },
            }
        }
    }
    let mut dto: Option<&DeeplinkState> = None;
    if let Some(to) = &deeplink.to {
        if is_concrete(to) {
            match store.lookup_named(to.as_str()) {
                Some(t) => {
                    dto = Some(t);
                },
                None => {
                    return Err(ContractError::ToNotExists { to: to.clone() });
                },
            }
        }
    }
    if let (Some(from), Some(to), Some(f), Some(t)) = (&deeplink.from, &deeplink.to, dfrom, dto) {
        let any = any_string();
        let from_ok = dtype.from == any || dtype.from == f.type_;
        let to_ok = dtype.to == any || dtype.to == t.type_;
        if !(from_ok && to_ok) {
            return Err(ContractError::TypeConflict {
                id: name_or_blank(id),
                type_: deeplink.type_.clone(),
                from: from.clone(),
                to: to.clone(),
                expected_type: deeplink.type_.clone(),
                expected_from: dtype.from.clone(),
                expected_to: dtype.to.clone(),
                received_type: deeplink.type_.clone(),
                received_from: f.type_.clone(),
                received_to: t.type_.clone(),
            });
        }
    }
    Ok(())
}

/// Validates `deeplink` and, when it passes, stores it under the next
/// identifier, which is returned.
pub fn create_deeplink(store: &mut DeeplinkStore, deeplink: &Deeplink) -> (r: Result<u64, ContractError>)
    requires
        old(store).wf(),
    ensures
        final(store).wf(),
        result_view(r) == create_result(old(store)@, deeplink@),
        final(store)@ == create_state(old(store)@, deeplink@),
{
    validate_deeplink(store, &None, deeplink)?;
    let last = store.last_id();
    if last == u64::MAX {
        return Err(ContractError::IdOverflow {});
    }
    let id = store.push_link(state_of(deeplink));
    Ok(id)
}

/// Creates `deeplink` and binds `name` to it; only admins may.
pub fn execute_create_named_deeplink(
    store: &mut DeeplinkStore,
    sender: &str,
    name: String,
    deeplink: &Deeplink,
) -> (r: Result<u64, ContractError>)
    requires
        old(store).wf(),
    ensures
        final(store).wf(),
        result_view(r) == named_result(old(store)@, sender@, name@, deeplink@),
        final(store)@ == named_state(old(store)@, sender@, name@, deeplink@),
{
    if !store.config().can_modify(sender) {
        return Err(ContractError::Unauthorized {});
    }
    validate_deeplink(store, &Some(name.clone()), deeplink)?;
    let last = store.last_id();
    if last == u64::MAX {
        return Err(ContractError::IdOverflow {});
    }
    let id = store.push_link(state_of(deeplink));
    store.bind_name(name, state_of(deeplink));
    Ok(id)
}

/// Creates one unnamed link.
pub fn execute_create_deeplink(store: &mut DeeplinkStore, deeplink: &Deeplink) -> (r: Result<u64, ContractError>)
    requires
        old(store).wf(),
    ensures
        final(store).wf(),
        result_view(r) == create_result(old(store)@, deeplink@),
        final(store)@ == create_state(old(store)@, deeplink@),
{
    create_deeplink(store, deeplink)
}

/// Creates the links of `deeplinks` in order and returns their identifiers.
/// The first failure ends the batch and is returned; the links created
/// before it stay. Unnamed creations bind no name, so every link of a batch
/// is validated against the names bound before the batch began: a later link
/// cannot refer to an earlier link of the same batch by name.
pub fn execute_create_deeplinks(store: &mut DeeplinkStore, deeplinks: &Vec<Deeplink>) -> (r: Result<Vec<u64>, ContractError>)
    requires
        old(store).wf(),
    ensures
        final(store).wf(),
        ids_result_view(r) == batch_run(old(store)@, deeplinks_view(deeplinks@)).1,
        final(store)@ == batch_run(old(store)@, deeplinks_view(deeplinks@)).0,
{
    let ghost s0 = store@;
    let ghost ds = deeplinks_view(deeplinks@);
    let mut ids: Vec<u64> = Vec::new();
    let mut i: usize = 0;
    assert(ds.take(0) =~= Seq::<DeeplinkView>::empty());
    while i < deeplinks.len()
        invariant
            store.wf(),
            s0 == old(store)@,
            ds == deeplinks_view(deeplinks@),
            i <= deeplinks@.len(),
            batch_run(s0, ds.take(i as int)) == (store@, Ok::<Seq<u64>, ErrorView>(ids@)),
        decreases deeplinks@.len() - i,
    {
        proof {
            assert(ds.take(i + 1).drop_last() =~= ds.take(i as int));
            assert(ds.take(i + 1).last() == deeplinks@[i as int]@);
        }
        match create_deeplink(store, &deeplinks[i]) {
            Ok(id) => {
                ids.push(id);
            },
            Err(e) => {
                proof {
                    lemma_batch_error_persists(s0, ds, i + 1);
                }
                return Err(e);
            },
        }
        i += 1;
    }
    assert(ds.take(i as int) =~= ds);
    Ok(ids)
}

/// Accepted and ignored: links are never changed in place.
pub fn execute_update_deeplink(
    store: &DeeplinkStore,
    type_: String,
    from: Option<String>,
    to: Option<String>,
) -> (r: Result<(), ContractError>)
    ensures
        r is Ok,
{
    Ok(())
}

/// Marks the link `id` deleted; only admins may. The link stays stored, and
/// links or names that refer to it are left as they are.
pub fn execute_delete_deeplink(store: &mut DeeplinkStore, sender: &str, id: u64) -> (r: Result<(), ContractError>)
    requires
        old(store).wf(),
    ensures
        final(store).wf(),
        result_view(r) == delete_result(old(store)@, sender@, id),
        final(store)@ == delete_state(old(store)@, sender@, id),
{
    if !store.config().can_modify(sender) {
        return Err(ContractError::Unauthorized {});
    }
    store.mark_deleted(id);
    Ok(())
}

/// Replaces the admins; only admins may.
pub fn execute_update_admins(store: &mut DeeplinkStore, sender: &str, new_admins: Vec<String>) -> (r: Result<(), ContractError>)
    requires
        old(store).wf(),
    ensures
        final(store).wf(),
        r is Ok == listed(old(store)@.admins, sender@),
        r is Err ==> r->Err_0@ == ErrorView::Unauthorized && final(store)@ == old(store)@,
        r is Ok ==> final(store)@ == (StoreView { admins: strings_view(new_admins@), ..old(store)@ }),
{
    if !store.config().can_modify(sender) {
        return Err(ContractError::Unauthorized {});
    }
    store.set_admins(new_admins);
    Ok(())
}

/// Replaces the executors; only admins may.
pub fn execute_update_executors(store: &mut DeeplinkStore, sender: &str, new_executors: Vec<String>) -> (r: Result<(), ContractError>)
    requires
        old(store).wf(),
    ensures
        final(store).wf(),
        r is Ok == listed(old(store)@.admins, sender@),
        r is Err ==> r->Err_0@ == ErrorView::Unauthorized && final(store)@ == old(store)@,
        r is Ok ==> final(store)@ == (StoreView { executors: strings_view(new_executors@), ..old(store)@ }),
{
    if !store.config().can_modify(sender) {
        return Err(ContractError::Unauthorized {});
    }
    store.set_executors(new_executors);
    Ok(())
}

/// Decides whether `sender` may have links submitted on its behalf: only
/// executors may.
pub fn execute_cyberlink(store: &DeeplinkStore, sender: &str) -> (r: Result<(), ContractError>)
    ensures
        r is Ok == listed(store@.executors, sender@),
        r is Err ==> r->Err_0@ == ErrorView::Unauthorized,
{
    if !store.config().can_execute(sender) {
        return Err(ContractError::Unauthorized {});
    }
    Ok(())
}

} // verus!
