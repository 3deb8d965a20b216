use todo_list::handler::handle_add;
use todo_list::handler::handle_delete;
use todo_list::handler::handle_index;
use todo_list::handler::Response;
use todo_list::store::TodoStore;

fn page_of(r: Response) -> String {
    match r {
        Response::Page(h) => h,
        _ => panic!("expected a page"),
    }
}

#[test]
fn add_redirects_and_stores() {
    let mut store = TodoStore::new();
    let r = handle_add(&mut store, "Buy milk");
    assert!(matches!(r, Response::SeeOther));
    assert_eq!(store.list().len(), 1);
    assert_eq!(store.list()[0].text, "Buy milk");
}

#[test]
fn add_fails_when_id_space_is_exhausted() {
    let mut store = TodoStore { entries: Vec::new(), next_id: u32::MAX };
    let r = handle_add(&mut store, "one too many");
    assert!(matches!(r, Response::ServerError));
    assert_eq!(store.list().len(), 0);
    assert_eq!(store.next_id, u32::MAX);
}

#[test]
fn delete_redirects_even_for_absent_id() {
    let mut store = TodoStore::new();
    let r = handle_delete(&mut store, 42);
    assert!(matches!(r, Response::SeeOther));
    assert_eq!(store.list().len(), 0);
}

#[test]
fn end_to_end_add_view_delete() {
    // Start with an empty table.
    let mut store = TodoStore::new();
    store.insert("an older task");

    // Add "Buy milk".
    let r = handle_add(&mut store, "Buy milk");
    assert!(matches!(r, Response::SeeOther));

    // The list page shows "Buy milk" as the top entry, under some id k.
    let page = page_of(handle_index(&store));
    assert!(page.contains("Buy milk"));
    assert!(page.find("Buy milk").unwrap() < page.find("an older task").unwrap());
    let k = store.list()[0].id;
    assert_eq!(store.list()[0].text, "Buy milk");

    // Delete id k.
    let r = handle_delete(&mut store, k);
    assert!(matches!(r, Response::SeeOther));

    // The list page no longer shows "Buy milk".
    let page = page_of(handle_index(&store));
    assert!(!page.contains("Buy milk"));
    assert!(page.contains("an older task"));
}
