use search_worker::store::StringStore;
use search_worker::text::{holds_query, matches_query};

fn owned(items: &[&str]) -> Vec<String> {
    items.iter().map(|s| s.to_string()).collect()
}

#[test]
fn it_works() {
    let result = search_worker::add(2, 2);
    assert_eq!(result, 4);
}

#[test]
fn add_reaches_the_largest_sum() {
    assert_eq!(search_worker::add(u64::MAX - 1, 1), u64::MAX);
    assert_eq!(search_worker::add(0, 0), 0);
}

#[test]
fn store_starts_empty() {
    let store = StringStore::new();
    assert_eq!(store.len(), 0);
    assert_eq!(store.snapshot(), Vec::<String>::new());
}

#[test]
fn store_add_appends_in_order_and_keeps_duplicates() {
    let mut store = StringStore::new();
    assert_eq!(store.add(owned(&["b", "a"])), 2);
    assert_eq!(store.add(owned(&["a", "c", "a"])), 5);
    assert_eq!(store.snapshot(), owned(&["b", "a", "a", "c", "a"]));
    assert_eq!(store.add(Vec::new()), 5);
}

#[test]
fn store_remove_drops_every_equal_string_and_keeps_order() {
    let mut store = StringStore::holding(owned(&["x", "a", "y", "a", "b", "z", "A"]));
    assert_eq!(store.remove(&owned(&["a", "b", "missing"])), 4);
    assert_eq!(store.snapshot(), owned(&["x", "y", "z", "A"]));
    assert_eq!(store.remove(&Vec::new()), 4);
    assert_eq!(store.remove(&owned(&["x", "x"])), 3);
    assert_eq!(store.snapshot(), owned(&["y", "z", "A"]));
}

#[test]
fn store_remove_is_exact_about_case() {
    let mut store = StringStore::holding(owned(&["Apple", "apple"]));
    assert_eq!(store.remove(&owned(&["APPLE"])), 2);
    assert_eq!(store.remove(&owned(&["apple"])), 1);
    assert_eq!(store.snapshot(), owned(&["Apple"]));
}

#[test]
fn store_clear_reports_zero() {
    let mut store = StringStore::holding(owned(&["a", "b"]));
    assert_eq!(store.clear(), 0);
    assert_eq!(store.len(), 0);
    assert_eq!(store.clear(), 0);
}

#[test]
fn store_snapshot_is_a_copy() {
    let mut store = StringStore::holding(owned(&["a"]));
    let snapshot = store.snapshot();
    store.add(owned(&["b"]));
    store.clear();
    assert_eq!(snapshot, owned(&["a"]));
}

#[test]
fn store_is_listed_compares_whole_strings() {
    let list = owned(&["ab", "", "c"]);
    assert!(search_worker::store::is_listed(&list, &"ab".to_string()));
    assert!(search_worker::store::is_listed(&list, &"".to_string()));
    assert!(!search_worker::store::is_listed(&list, &"a".to_string()));
    assert!(!search_worker::store::is_listed(&Vec::new(), &"a".to_string()));
}

#[test]
fn search_picks_matches_in_store_order() {
    let strings = owned(&["Apple", "banana", "Cherry", "BANDANA", "an"]);
    assert_eq!(search_worker::search::search(&strings, "an"), owned(&["banana", "BANDANA", "an"]));
    assert_eq!(search_worker::search::search(&strings, "zz"), Vec::<String>::new());
}

#[test]
fn search_takes_the_query_as_it_is() {
    let strings = owned(&["banana"]);
    assert_eq!(search_worker::search::search(&strings, "AN"), Vec::<String>::new());
}

#[test]
fn search_with_an_empty_query_finds_everything() {
    let strings = owned(&["Apple", "", "b"]);
    assert_eq!(search_worker::search::search(&strings, ""), strings);
}

#[test]
fn search_keeps_duplicates() {
    let strings = owned(&["aa", "b", "aa"]);
    assert_eq!(search_worker::search::search(&strings, "a"), owned(&["aa", "aa"]));
}

#[test]
fn matches_query_lowers_the_text_only() {
    assert!(matches_query("BaNaNa", "nan"));
    assert!(!matches_query("banana", "NAN"));
    assert!(matches_query("ÄPFEL", "äpf"));
    assert!(matches_query("Straße", "straße"));
    assert!(!matches_query("abc", "abcd"));
    assert!(matches_query("", ""));
}

#[test]
fn holds_query_is_plain_containment() {
    assert!(holds_query("banana", "nan"));
    assert!(holds_query("banana", ""));
    assert!(holds_query("banana", "banana"));
    assert!(!holds_query("banana", "bananas"));
    assert!(!holds_query("Banana", "ban"));
    assert!(holds_query("naïve café", "ve ca"));
    assert!(!holds_query("cafe", "é"));
}
