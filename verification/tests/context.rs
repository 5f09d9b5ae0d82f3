//! Request context assembly, the privileged-path predicate, type lookup,
//! and the data-operation requests that carry caller input through.

use query_bridge::context::is_auth_path;
use query_bridge::context::ChiselRequestContext;
use query_bridge::context::PolicySystem;
use query_bridge::context::RequestContext;
use query_bridge::context::TypeEntry;
use query_bridge::context::TypeSystem;
use query_bridge::error::DataError;
use query_bridge::ops::op_chisel_begin_transaction;
use query_bridge::ops::op_chisel_crud_delete;
use query_bridge::ops::op_chisel_crud_query;
use query_bridge::ops::op_chisel_delete;
use query_bridge::ops::CrudDeleteParams;
use query_bridge::ops::DeleteParams;
use query_bridge::ops::Expr;
use query_bridge::ops::QueryParams;
use query_bridge::state::WorkerState;

#[test]
fn auth_path_needs_platform_version_and_auth_route() {
    assert!(is_auth_path("__chiselstrike", "/auth/users"));
    assert!(is_auth_path("__chiselstrike", "/auth/"));
    assert!(!is_auth_path("__chiselstrike", "/users"));
    assert!(!is_auth_path("__chiselstrike", "/auth"));
    assert!(!is_auth_path("dev", "/auth/users"));
    assert!(!is_auth_path("", ""));
}

#[test]
fn request_context_carries_call_metadata() {
    let ps = PolicySystem {};
    let ts = TypeSystem { types: Vec::new() };
    let ctx = ChiselRequestContext {
        version_id: "dev".to_owned(),
        headers: vec![("accept".to_owned(), "text/plain".to_owned())],
        path: "/books/3".to_owned(),
        routing_path: "/books".to_owned(),
        user_id: Some("u1".to_owned()),
    };
    let rc = RequestContext::new(&ps, &ts, ctx);
    assert_eq!(rc.version_id, "dev");
    assert_eq!(rc.path, "/books/3");
    assert_eq!(rc.user_id, Some("u1".to_owned()));
    assert_eq!(
        rc.headers,
        vec![("accept".to_owned(), "text/plain".to_owned())]
    );
}

#[test]
fn lookup_finds_first_entry_of_a_name() {
    let ts = TypeSystem {
        types: vec![
            TypeEntry { name: "A".to_owned(), is_entity: true, is_auth: false },
            TypeEntry { name: "B".to_owned(), is_entity: false, is_auth: false },
            TypeEntry { name: "A".to_owned(), is_entity: false, is_auth: true },
        ],
    };
    let a = ts.lookup_type("A").expect("found");
    assert!(a.is_entity);
    assert!(!a.is_auth);
    assert!(ts.lookup_type("B").is_some());
    assert!(ts.lookup_type("C").is_none());
}

fn plain_context() -> ChiselRequestContext {
    ChiselRequestContext {
        version_id: "dev".to_owned(),
        headers: Vec::new(),
        path: "/".to_owned(),
        routing_path: "/posts".to_owned(),
        user_id: None,
    }
}

#[test]
fn delete_without_transaction_fails() {
    let mut w = WorkerState::new(PolicySystem {}, TypeSystem { types: Vec::new() });
    let r = op_chisel_delete(
        &mut w,
        DeleteParams { entity_name: "Post".to_owned(), filter_expr: None },
        plain_context(),
    );
    assert!(matches!(r, Err(DataError::NoneInProgress)));
}

#[test]
fn delete_carries_filter_through_unexamined() {
    let mut w = WorkerState::new(PolicySystem {}, TypeSystem { types: Vec::new() });
    assert!(matches!(op_chisel_begin_transaction(&mut w, 2), Ok(())));
    let req = op_chisel_delete(
        &mut w,
        DeleteParams {
            entity_name: "Post".to_owned(),
            filter_expr: Some(Expr { repr: "title == \"x\"".to_owned() }),
        },
        plain_context(),
    )
    .expect("delete request");
    assert_eq!(req.txn_id, 2);
    assert_eq!(req.entity_name, "Post");
    assert_eq!(req.filter_expr.expect("filter").repr, "title == \"x\"");
}

#[test]
fn crud_delete_and_query_carry_url_query_through() {
    let mut w = WorkerState::new(PolicySystem {}, TypeSystem { types: Vec::new() });
    assert!(matches!(op_chisel_begin_transaction(&mut w, 5), Ok(())));
    let dreq = op_chisel_crud_delete(
        &mut w,
        CrudDeleteParams {
            entity_name: "Post".to_owned(),
            url_query: vec![("limit".to_owned(), "10".to_owned())],
        },
        plain_context(),
    )
    .expect("crud delete request");
    assert_eq!(dreq.url_query, vec![("limit".to_owned(), "10".to_owned())]);
    let qreq = op_chisel_crud_query(
        &mut w,
        QueryParams {
            entity_name: "Post".to_owned(),
            url_query: vec![("sort".to_owned(), "name".to_owned())],
        },
        plain_context(),
    )
    .expect("crud query request");
    assert_eq!(qreq.params.entity_name, "Post");
    assert_eq!(qreq.txn_id, 5);
}

#[test]
fn store_error_description_carries_the_message() {
    let e = DataError::StoreError("timeout".to_owned());
    assert_eq!(e.describe(), "timeout");
}
