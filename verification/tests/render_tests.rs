use todo_list::render::render_page;
use todo_list::render::u32_to_dec;
use todo_list::store::TodoEntry;
use todo_list::store::TodoStore;

const PAGE_HEAD: &str = "<!DOCTYPE html><html><head><meta charset=\"utf-8\"><title>Todo</title></head><body><h1>Todo</h1><ul>";
const PAGE_FOOT: &str = "</ul><form action=\"/add\" method=\"post\"><input type=\"text\" name=\"text\"><button>add</button></form></body></html>";

#[test]
fn dec_of_small_numbers() {
    assert_eq!(u32_to_dec(0), "0");
    assert_eq!(u32_to_dec(7), "7");
    assert_eq!(u32_to_dec(10), "10");
}

#[test]
fn dec_of_larger_numbers() {
    assert_eq!(u32_to_dec(105), "105");
    assert_eq!(u32_to_dec(4294967295), "4294967295");
}

#[test]
fn render_empty_page() {
    let entries: Vec<TodoEntry> = Vec::new();
    assert_eq!(render_page(&entries), format!("{}{}", PAGE_HEAD, PAGE_FOOT));
}

#[test]
fn render_one_entry() {
    let entries = vec![TodoEntry { id: 1, text: String::from("Buy milk") }];
    let expected = format!(
        "{}<li>Buy milk<form action=\"/delete\" method=\"post\"><input type=\"hidden\" name=\"id\" value=\"1\"><button>delete</button></form></li>{}",
        PAGE_HEAD, PAGE_FOOT
    );
    assert_eq!(render_page(&entries), expected);
}

#[test]
fn render_keeps_entry_order() {
    let entries = vec![
        TodoEntry { id: 2, text: String::from("newer") },
        TodoEntry { id: 1, text: String::from("older") },
    ];
    let page = render_page(&entries);
    let newer = page.find("newer").unwrap();
    let older = page.find("older").unwrap();
    assert!(newer < older);
}

#[test]
fn rendered_page_shows_no_raw_tag_from_user_text() {
    let mut store = TodoStore::new();
    store.insert("<script>alert('x')</script>");
    let page = render_page(store.list());
    assert!(!page.contains("<script>"));
    assert!(page.contains("&lt;script&gt;alert(&#39;x&#39;)&lt;/script&gt;"));
}
