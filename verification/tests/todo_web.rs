use todo_web::digits::{i64_to_string, parse_i64, parse_u64, u64_to_string};
use todo_web::form::{parse_id, parse_text};
use todo_web::http::{
    add_response, bad_request_response, delete_response, handle_add, handle_delete, handle_index,
    index_response, not_found_response, Fault,
};
use todo_web::render::{escape_html, render_index};
use todo_web::store::{TodoEntry, TodoStore};

fn texts(store: &TodoStore) -> Vec<(i64, String)> {
    store.list().iter().map(|e| (e.id, e.text.clone())).collect()
}

#[test]
fn add_then_list_round_trip() {
    let mut store = TodoStore::new();
    let id = store.add(String::from("buy milk"));
    let listed = texts(&store);
    assert_eq!(listed, vec![(id, String::from("buy milk"))]);
    let id2 = store.add(String::from("walk dog"));
    assert_ne!(id, id2);
    let listed = texts(&store);
    assert_eq!(
        listed,
        vec![(id, String::from("buy milk")), (id2, String::from("walk dog"))]
    );
}

#[test]
fn list_is_exactly_what_is_persisted() {
    let mut store = TodoStore::new();
    assert!(store.list().is_empty());
    let a = store.add(String::from("buy milk"));
    let b = store.add(String::from("walk dog"));
    let listed = texts(&store);
    assert_eq!(listed.len(), 2);
    assert!(listed.contains(&(a, String::from("buy milk"))));
    assert!(listed.contains(&(b, String::from("walk dog"))));
    store.delete(a);
    let listed = texts(&store);
    assert_eq!(listed, vec![(b, String::from("walk dog"))]);
}

#[test]
fn delete_is_idempotent() {
    let mut store = TodoStore::new();
    let a = store.add(String::from("one"));
    let b = store.add(String::from("two"));
    store.delete(a);
    assert_eq!(texts(&store), vec![(b, String::from("two"))]);
    store.delete(a);
    assert_eq!(texts(&store), vec![(b, String::from("two"))]);
}

#[test]
fn delete_of_absent_id_is_a_no_op() {
    let mut store = TodoStore::new();
    let a = store.add(String::from("keep"));
    store.delete(a + 100);
    assert_eq!(texts(&store), vec![(a, String::from("keep"))]);
}

#[test]
fn sequential_adds_assign_distinct_ids() {
    let mut store = TodoStore::new();
    let mut ids = Vec::new();
    for k in 0..20 {
        ids.push(store.add(format!("item {}", k)));
    }
    for i in 0..ids.len() {
        for j in 0..ids.len() {
            if i != j {
                assert_ne!(ids[i], ids[j]);
            }
        }
    }
}

#[test]
fn ids_are_never_reused_after_delete() {
    let mut store = TodoStore::new();
    let a = store.add(String::from("first"));
    store.delete(a);
    let b = store.add(String::from("second"));
    assert_ne!(a, b);
}

#[test]
fn add_and_delete_redirect_to_listing() {
    let r = add_response(Ok(()));
    assert_eq!(r.status, 303);
    assert_eq!(r.location.as_deref(), Some("/"));
    let r = delete_response(Ok(()));
    assert_eq!(r.status, 303);
    assert_eq!(r.location.as_deref(), Some("/"));
}

#[test]
fn faults_surface_as_internal_errors() {
    assert_eq!(index_response(Err(Fault::Connection)).status, 500);
    assert_eq!(index_response(Err(Fault::Query)).status, 500);
    assert_eq!(index_response(Err(Fault::Render)).status, 500);
    assert_eq!(add_response(Err(Fault::Connection)).status, 500);
    assert_eq!(delete_response(Err(Fault::Connection)).status, 500);
    let page = index_response(Err(Fault::Connection));
    assert!(page.body.is_empty());
    assert_eq!(Fault::Query.status_code(), 500);
}

#[test]
fn listing_renders_every_entry() {
    let entries = vec![
        TodoEntry { id: 1, text: String::from("a") },
        TodoEntry { id: 2, text: String::from("b") },
    ];
    let page = render_index(&entries);
    assert!(page.contains("<td>a</td>"));
    assert!(page.contains("<td>b</td>"));
    assert!(page.contains("<td>1</td>"));
    assert!(page.contains("<td>2</td>"));
    assert!(page.contains("name=\"id\" value=\"1\""));
    assert!(page.contains("name=\"id\" value=\"2\""));
}

#[test]
fn empty_listing_renders_only_the_frame() {
    let page = render_index(&Vec::new());
    assert!(page.starts_with("<!DOCTYPE html>"));
    assert!(page.ends_with("</table></body></html>"));
    assert!(!page.contains("<tr>"));
}

#[test]
fn rendered_text_is_escaped() {
    let entries = vec![TodoEntry { id: 1, text: String::from("<b>&\"'x") }];
    let page = render_index(&entries);
    assert!(page.contains("&lt;b&gt;&amp;&quot;&#x27;x"));
    assert!(!page.contains("<b>"));
    assert_eq!(escape_html(&String::from("a<b")), "a&lt;b");
    assert_eq!(escape_html(&String::from("plain")), "plain");
}

#[test]
fn numerals_render_exactly() {
    assert_eq!(u64_to_string(0), "0");
    assert_eq!(u64_to_string(7), "7");
    assert_eq!(u64_to_string(120), "120");
    assert_eq!(u64_to_string(18446744073709551615), "18446744073709551615");
    assert_eq!(i64_to_string(-7), "-7");
    assert_eq!(i64_to_string(9223372036854775807), "9223372036854775807");
    assert_eq!(i64_to_string(-9223372036854775808), "-9223372036854775808");
}

#[test]
fn numerals_parse_exactly() {
    assert_eq!(parse_u64(&b"12".to_vec()), Some(12));
    assert_eq!(parse_u64(&b"0".to_vec()), Some(0));
    assert_eq!(parse_u64(&b"".to_vec()), None);
    assert_eq!(parse_u64(&b"1x".to_vec()), None);
    assert_eq!(parse_u64(&b"18446744073709551615".to_vec()), Some(u64::MAX));
    assert_eq!(parse_u64(&b"18446744073709551616".to_vec()), None);
    assert_eq!(parse_i64(&b"-5".to_vec()), Some(-5));
    assert_eq!(parse_i64(&b"9223372036854775807".to_vec()), Some(i64::MAX));
    assert_eq!(parse_i64(&b"-9223372036854775808".to_vec()), Some(i64::MIN));
    assert_eq!(parse_i64(&b"9223372036854775808".to_vec()), None);
    assert_eq!(parse_i64(&b"-9223372036854775809".to_vec()), None);
    assert_eq!(parse_i64(&b"-".to_vec()), None);
}

#[test]
fn form_text_field_is_decoded() {
    assert_eq!(
        parse_text(&b"text=buy+milk".to_vec()).as_deref(),
        Some("buy milk")
    );
    assert_eq!(
        parse_text(&b"text=a%20b%21".to_vec()).as_deref(),
        Some("a b!")
    );
    assert_eq!(parse_text(&b"text=caf%C3%A9".to_vec()).as_deref(), Some("café"));
    assert_eq!(parse_text(&b"other=1&text=x".to_vec()).as_deref(), Some("x"));
    assert_eq!(parse_text(&b"text=".to_vec()).as_deref(), Some(""));
    assert_eq!(parse_text(&b"text=%ZZ".to_vec()), None);
    assert_eq!(parse_text(&b"text=%C3".to_vec()), None);
    assert_eq!(parse_text(&b"nothing=here".to_vec()), None);
    assert_eq!(parse_text(&b"".to_vec()), None);
}

#[test]
fn form_id_field_is_decoded() {
    assert_eq!(parse_id(&b"id=4".to_vec()), Some(4));
    assert_eq!(parse_id(&b"id=-4".to_vec()), Some(-4));
    assert_eq!(parse_id(&b"id=%34".to_vec()), Some(4));
    assert_eq!(parse_id(&b"x=1&id=10".to_vec()), Some(10));
    assert_eq!(parse_id(&b"id=abc".to_vec()), None);
    assert_eq!(parse_id(&b"id=".to_vec()), None);
    assert_eq!(parse_id(&b"id=99999999999999999999".to_vec()), None);
    assert_eq!(parse_id(&b"text=4".to_vec()), None);
}

#[test]
fn add_handler_appends_and_redirects() {
    let mut store = TodoStore::new();
    let r = handle_add(&mut store, &b"text=buy+milk".to_vec());
    assert_eq!(r.status, 303);
    assert_eq!(r.location.as_deref(), Some("/"));
    assert_eq!(texts(&store), vec![(1, String::from("buy milk"))]);
}

#[test]
fn add_handler_rejects_a_malformed_body() {
    let mut store = TodoStore::new();
    let r = handle_add(&mut store, &b"nothing=here".to_vec());
    assert_eq!(r.status, 400);
    assert!(store.list().is_empty());
    let r = handle_add(&mut store, &b"text=%GG".to_vec());
    assert_eq!(r.status, 400);
    assert!(store.list().is_empty());
}

#[test]
fn delete_handler_removes_and_redirects() {
    let mut store = TodoStore::new();
    let a = store.add(String::from("one"));
    let b = store.add(String::from("two"));
    let body = format!("id={}", a).into_bytes();
    let r = handle_delete(&mut store, &body);
    assert_eq!(r.status, 303);
    assert_eq!(r.location.as_deref(), Some("/"));
    assert_eq!(texts(&store), vec![(b, String::from("two"))]);
    let r = handle_delete(&mut store, &body);
    assert_eq!(r.status, 303);
    assert_eq!(texts(&store), vec![(b, String::from("two"))]);
}

#[test]
fn delete_handler_rejects_a_malformed_body() {
    let mut store = TodoStore::new();
    store.add(String::from("keep"));
    let r = handle_delete(&mut store, &b"id=abc".to_vec());
    assert_eq!(r.status, 400);
    assert_eq!(store.list().len(), 1);
}

#[test]
fn index_handler_serves_the_rendered_listing() {
    let mut store = TodoStore::new();
    handle_add(&mut store, &b"text=buy+milk".to_vec());
    let r = handle_index(&store);
    assert_eq!(r.status, 200);
    assert_eq!(r.content_type.as_deref(), Some("text/html"));
    assert!(r.body.contains("buy milk"));
}

#[test]
fn other_routes_are_not_found() {
    let r = not_found_response();
    assert_eq!(r.status, 404);
    let r = bad_request_response();
    assert_eq!(r.status, 400);
}
