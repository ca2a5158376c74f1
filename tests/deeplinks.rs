use cw_deeplinks::error::ContractError;
use cw_deeplinks::execute::{
    create_deeplink, execute_create_deeplink, execute_create_deeplinks,
    execute_create_named_deeplink, execute_cyberlink, execute_delete_deeplink,
    execute_update_admins, execute_update_deeplink, execute_update_executors, instantiate,
    validate_deeplink,
};
use cw_deeplinks::msg::{Deeplink, InstantiateMsg};
use cw_deeplinks::names::{compare_names, same_name};
use cw_deeplinks::query::{query_config, query_id, query_last_id, query_state};
use cw_deeplinks::state::{DeeplinkState, DeeplinkStore};

fn strings(v: &[&str]) -> Vec<String> {
    v.iter().map(|s| s.to_string()).collect()
}

fn setup() -> DeeplinkStore {
    instantiate(InstantiateMsg {
        admins: strings(&["admin1", "admin2"]),
        executers: strings(&["exec1", "exec2"]),
    })
}

fn link(type_: &str, from: Option<&str>, to: Option<&str>) -> Deeplink {
    Deeplink {
        type_: type_.to_string(),
        from: from.map(|s| s.to_string()),
        to: to.map(|s| s.to_string()),
    }
}

fn state(type_: &str, from: &str, to: &str) -> DeeplinkState {
    DeeplinkState { type_: type_.to_string(), from: from.to_string(), to: to.to_string() }
}

fn named(store: &mut DeeplinkStore, name: &str, d: Deeplink) -> u64 {
    execute_create_named_deeplink(store, "admin1", name.to_string(), &d).unwrap()
}

/// Types `User` and `Post`, an instance of each, and `Like` from users to posts.
fn social() -> DeeplinkStore {
    let mut store = setup();
    named(&mut store, "User", link("Type", None, None));
    named(&mut store, "Post", link("Type", None, None));
    named(&mut store, "alice", link("User", None, None));
    named(&mut store, "post1", link("Post", None, None));
    named(&mut store, "Like", link("Type", Some("User"), Some("Post")));
    store
}

#[test]
fn test_instantiate() {
    let store = setup();
    let config = query_config(&store);
    assert_eq!(config.admins, strings(&["admin1", "admin2"]));
    assert_eq!(config.executors, strings(&["exec1", "exec2"]));
    assert_eq!(query_last_id(&store), 0);
}

#[test]
fn test_create_deeplink() {
    let mut store = setup();
    let core = [
        ("Type", link("Type", None, None)),
        ("Any", link("Type", None, None)),
        ("Query", link("Type", None, None)),
        ("String", link("Type", None, None)),
    ];
    let mut errors = vec![];
    for (name, d) in core.iter() {
        let res = execute_create_named_deeplink(&mut store, "admin1", name.to_string(), d);
        if res.is_err() {
            errors.push(res);
        }
    }
    assert_eq!(errors.len(), 0);

    let deeplink = link("Type", Some("Query"), Some("String"));
    execute_create_deeplink(&mut store, &deeplink).unwrap();

    let last_id = query_last_id(&store);
    let deeplink_state1 = query_id(&store, last_id).unwrap();
    assert_eq!(deeplink_state1.type_, "Type");
    assert_eq!(deeplink_state1.from, "Query");
    assert_eq!(deeplink_state1.to, "String");
}

#[test]
fn test_update_deeplink() {
    let mut store = setup();
    named(&mut store, "Query", link("Type", None, None));
    let before = query_state(&store);
    let res = execute_update_deeplink(&store, "Type".to_string(), Some("Query".to_string()), None);
    assert_eq!(res, Ok(()));
    assert_eq!(query_state(&store), before);
}

#[test]
fn test_delete_deeplink() {
    let mut store = setup();
    let id = named(&mut store, "Query", link("Type", None, None));
    assert_eq!(execute_delete_deeplink(&mut store, "admin2", id), Ok(()));
    assert_eq!(query_id(&store, id), Err(ContractError::NotFound { id }));
}

#[test]
fn test_update_admins() {
    let mut store = setup();
    let res = execute_update_admins(&mut store, "admin1", strings(&["admin3", "admin4"]));
    assert_eq!(res, Ok(()));
    let config = query_config(&store);
    assert_eq!(config.admins, strings(&["admin3", "admin4"]));
}

#[test]
fn test_update_executors() {
    let mut store = setup();
    let res = execute_update_executors(&mut store, "admin1", strings(&["exec3", "exec4"]));
    assert_eq!(res, Ok(()));
    let config = query_config(&store);
    assert_eq!(config.executors, strings(&["exec3", "exec4"]));
}

#[test]
fn ids_start_at_one_and_follow_each_other() {
    let mut store = setup();
    assert_eq!(named(&mut store, "Note", link("Type", None, None)), 1);
    assert_eq!(create_deeplink(&mut store, &link("Note", None, None)), Ok(2));
    assert_eq!(execute_delete_deeplink(&mut store, "admin1", 2), Ok(()));
    assert_eq!(create_deeplink(&mut store, &link("Note", None, None)), Ok(3));
    assert_eq!(
        execute_create_deeplinks(&mut store, &vec![link("Note", None, None), link("Note", None, None)]),
        Ok(vec![4, 5])
    );
    assert_eq!(query_last_id(&store), 5);
}

#[test]
fn failed_creation_takes_no_id() {
    let mut store = setup();
    assert!(create_deeplink(&mut store, &link("Ghost", None, None)).is_err());
    assert_eq!(query_last_id(&store), 0);
    assert_eq!(create_deeplink(&mut store, &link("Type", None, None)), Ok(1));
}

#[test]
fn half_null_link_is_invalid() {
    let mut store = setup();
    named(&mut store, "X", link("Type", None, None));
    assert_eq!(
        create_deeplink(&mut store, &link("Type", None, Some("X"))),
        Err(ContractError::InvalidDeeplink {
            id: 0,
            from: "_".to_string(),
            to: "X".to_string(),
            type_: "Type".to_string(),
        })
    );
    assert_eq!(
        create_deeplink(&mut store, &link("Ghost", Some("X"), None)),
        Err(ContractError::InvalidDeeplink {
            id: 0,
            from: "X".to_string(),
            to: "_".to_string(),
            type_: "Ghost".to_string(),
        })
    );
    assert_eq!(query_last_id(&store), 1);
}

#[test]
fn unknown_type_is_refused() {
    let mut store = setup();
    assert_eq!(
        create_deeplink(&mut store, &link("Ghost", None, None)),
        Err(ContractError::TypeNotExists { type_: "Ghost".to_string() })
    );
    assert_eq!(
        execute_create_named_deeplink(&mut store, "admin1", "g".to_string(), &link("Ghost", None, None)),
        Err(ContractError::TypeNotExists { type_: "Ghost".to_string() })
    );
}

#[test]
fn unknown_endpoints_are_refused() {
    let mut store = setup();
    named(&mut store, "A", link("Type", None, None));
    assert_eq!(
        create_deeplink(&mut store, &link("Type", Some("nobody"), Some("A"))),
        Err(ContractError::FromNotExists { from: "nobody".to_string() })
    );
    assert_eq!(
        create_deeplink(&mut store, &link("Type", Some("A"), Some("nobody"))),
        Err(ContractError::ToNotExists { to: "nobody".to_string() })
    );
}

#[test]
fn wildcard_type_accepts_any_endpoints() {
    let mut store = social();
    named(&mut store, "Comment", link("Type", None, None));
    let id = create_deeplink(&mut store, &link("Comment", Some("post1"), Some("alice"))).unwrap();
    assert_eq!(id, 7);
    assert_eq!(query_id(&store, id), Ok(state("Comment", "post1", "alice")));
}

#[test]
fn swapped_endpoints_conflict() {
    let mut store = social();
    let res = create_deeplink(&mut store, &link("Like", Some("post1"), Some("alice")));
    assert_eq!(
        res,
        Err(ContractError::TypeConflict {
            id: "_".to_string(),
            type_: "Like".to_string(),
            from: "post1".to_string(),
            to: "alice".to_string(),
            expected_type: "Like".to_string(),
            expected_from: "User".to_string(),
            expected_to: "Post".to_string(),
            received_type: "Like".to_string(),
            received_from: "Post".to_string(),
            received_to: "User".to_string(),
        })
    );
    assert_eq!(create_deeplink(&mut store, &link("Like", Some("alice"), Some("post1"))), Ok(6));
}

#[test]
fn conflict_on_target_reports_name() {
    let mut store = social();
    let res = execute_create_named_deeplink(
        &mut store,
        "admin1",
        "like1".to_string(),
        &link("Like", Some("alice"), Some("alice")),
    );
    match res {
        Err(ContractError::TypeConflict { id, expected_to, received_to, .. }) => {
            assert_eq!(id, "like1");
            assert_eq!(expected_to, "Post");
            assert_eq!(received_to, "User");
        }
        other => panic!("unexpected {:?}", other),
    }
}

#[test]
fn validation_changes_nothing() {
    let store = social();
    let before = query_state(&store);
    let res = validate_deeplink(&store, &Some("x".to_string()), &link("Like", Some("alice"), Some("post1")));
    assert_eq!(res, Ok(()));
    assert_eq!(query_state(&store), before);
}

#[test]
fn tombstone_hides_but_keeps_the_link() {
    let mut store = setup();
    let id = named(&mut store, "Query", link("Type", None, None));
    assert_eq!(query_id(&store, id), Ok(state("Type", "Any", "Any")));
    execute_delete_deeplink(&mut store, "admin1", id).unwrap();
    assert_eq!(query_id(&store, id), Err(ContractError::NotFound { id }));
    let dump = query_state(&store);
    assert_eq!(dump.deleted_deeplinks, vec![id]);
    assert_eq!(dump.deeplinks, vec![(id, state("Type", "Any", "Any"))]);
    assert_eq!(query_id(&store, 99), Err(ContractError::NotFound { id: 99 }));
    assert_eq!(query_id(&store, 0), Err(ContractError::NotFound { id: 0 }));
}

#[test]
fn deleted_ids_are_listed_in_order_once() {
    let mut store = setup();
    for id in [7u64, 3, 9, 3] {
        execute_delete_deeplink(&mut store, "admin1", id).unwrap();
    }
    assert_eq!(query_state(&store).deleted_deeplinks, vec![3, 7, 9]);
}

#[test]
fn only_admins_modify() {
    let mut store = setup();
    assert_eq!(
        execute_create_named_deeplink(&mut store, "exec1", "A".to_string(), &link("Type", None, None)),
        Err(ContractError::Unauthorized {})
    );
    assert_eq!(execute_delete_deeplink(&mut store, "stranger", 1), Err(ContractError::Unauthorized {}));
    assert_eq!(
        execute_update_admins(&mut store, "exec1", strings(&["exec1"])),
        Err(ContractError::Unauthorized {})
    );
    assert_eq!(
        execute_update_executors(&mut store, "exec1", strings(&["x"])),
        Err(ContractError::Unauthorized {})
    );
    assert_eq!(query_config(&store).admins, strings(&["admin1", "admin2"]));
    assert_eq!(query_last_id(&store), 0);
}

#[test]
fn only_executors_execute() {
    let store = setup();
    assert_eq!(execute_cyberlink(&store, "exec2"), Ok(()));
    assert_eq!(execute_cyberlink(&store, "admin1"), Err(ContractError::Unauthorized {}));
}

#[test]
fn batch_sees_names_bound_before_it() {
    let mut store = setup();
    named(&mut store, "A", link("Type", None, None));
    named(&mut store, "A-name", link("A", None, None));
    let res = execute_create_deeplinks(
        &mut store,
        &vec![link("A", None, None), link("Type", Some("A-name"), Some("A-name"))],
    );
    assert_eq!(res, Ok(vec![3, 4]));
    assert_eq!(query_id(&store, 4), Ok(state("Type", "A-name", "A-name")));
}

#[test]
fn batch_stops_at_first_failure_and_keeps_earlier_links() {
    let mut store = setup();
    named(&mut store, "A", link("Type", None, None));
    let res = execute_create_deeplinks(
        &mut store,
        &vec![
            link("A", None, None),
            link("Type", Some("A-name"), Some("A-name")),
            link("A", None, None),
        ],
    );
    assert_eq!(res, Err(ContractError::FromNotExists { from: "A-name".to_string() }));
    assert_eq!(query_last_id(&store), 2);
    assert_eq!(query_id(&store, 2), Ok(state("A", "Any", "Any")));
}

#[test]
fn last_id_reads_agree() {
    let mut store = setup();
    named(&mut store, "A", link("Type", None, None));
    let first = query_last_id(&store);
    let second = query_last_id(&store);
    assert_eq!(first, second);
    assert_eq!(first, 1);
}

#[test]
fn names_are_listed_in_order_and_rebound() {
    let mut store = setup();
    named(&mut store, "b", link("Type", None, None));
    named(&mut store, "a", link("Type", None, None));
    named(&mut store, "b", link("a", None, None));
    let dump = query_state(&store);
    let names: Vec<String> = dump.named_deeplinks.iter().map(|e| e.0.clone()).collect();
    assert_eq!(names, strings(&["Type", "a", "b"]));
    assert_eq!(dump.named_deeplinks[2].1, state("a", "Any", "Any"));
    assert_eq!(dump.deeplinks.len(), 3);
}

#[test]
fn name_comparison() {
    assert!(compare_names("abc", "abd") < 0);
    assert!(compare_names("ab", "abc") < 0);
    assert!(compare_names("b", "abc") > 0);
    assert_eq!(compare_names("", ""), 0);
    assert!(compare_names("z", "é") < 0);
    assert!(compare_names("Zebra", "apple") < 0);
    assert!(same_name("Any", "Any"));
    assert!(!same_name("Any", "any"));
}

#[test]
fn restore_rebuilds_a_snapshot() {
    let mut store = social();
    execute_delete_deeplink(&mut store, "admin1", 2).unwrap();
    let dump = query_state(&store);
    let links: Vec<DeeplinkState> = dump.deeplinks.iter().map(|e| e.1.clone()).collect();
    let restored = DeeplinkStore::restore(
        strings(&["admin1", "admin2"]),
        strings(&["exec1", "exec2"]),
        &links,
        &dump.named_deeplinks,
        &dump.deleted_deeplinks,
    );
    assert_eq!(query_state(&restored), dump);
    assert_eq!(query_last_id(&restored), 5);
    assert_eq!(query_id(&restored, 2), Err(ContractError::NotFound { id: 2 }));
}

#[test]
fn wildcard_endpoints_are_not_looked_up() {
    let mut store = setup();
    assert_eq!(create_deeplink(&mut store, &link("Type", Some("Any"), Some("Any"))), Ok(1));
    assert_eq!(query_id(&store, 1), Ok(state("Type", "Any", "Any")));
}

#[test]
fn wildcard_endpoint_skips_the_type_constraints() {
    let mut store = social();
    assert_eq!(create_deeplink(&mut store, &link("Like", Some("Any"), Some("alice"))), Ok(6));
    assert_eq!(
        create_deeplink(&mut store, &link("Like", Some("Any"), Some("nobody"))),
        Err(ContractError::ToNotExists { to: "nobody".to_string() })
    );
}
