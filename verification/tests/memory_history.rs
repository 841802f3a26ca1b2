use gloo::history::hash::{holds_hash_route, route_with_query, strip_hash};
use gloo::history::location::Location;
use gloo::history::memory::MemoryHistory;
use gloo::history::query::{Raw, UrlEncoded};
use gloo::history::utils::{check_memory_route, notify_callbacks};

#[test]
fn memory_history_history_works() {
    let mut history = MemoryHistory::<()>::new();
    assert_eq!(history.location().path(), "/");

    history.push("/path-a");
    assert_eq!(history.location().path(), "/path-a");

    history.replace("/path-b");
    assert_eq!(history.location().path(), "/path-b");

    history.back();
    assert_eq!(history.location().path(), "/");

    history.forward();
    assert_eq!(history.location().path(), "/path-b");
}

#[test]
fn go_out_of_range_does_nothing() {
    let mut history = MemoryHistory::<()>::with_entries(&vec!["/a", "/b", "/c"]);
    assert_eq!(history.len(), 3);
    assert_eq!(history.location().path(), "/c");
    history.go(-10);
    assert_eq!(history.location().path(), "/c");
    history.go(-1);
    assert_eq!(history.location().path(), "/b");
    history.go(10);
    assert_eq!(history.location().path(), "/b");
    history.go(1);
    assert_eq!(history.location().path(), "/c");
    history.forward();
    assert_eq!(history.location().path(), "/c");
    history.go(-2);
    assert_eq!(history.location().path(), "/a");
    history.back();
    assert_eq!(history.location().path(), "/a");
    history.go(isize::MIN);
    assert_eq!(history.location().path(), "/a");
    history.go(isize::MAX);
    assert_eq!(history.location().path(), "/a");
    history.go(0);
    assert_eq!(history.location().path(), "/a");
    assert_eq!(history.len(), 3);
}

#[test]
fn push_drops_forward_entries() {
    let mut history = MemoryHistory::<()>::with_entries(&vec!["/a", "/b", "/c"]);
    history.go(-2);
    history.push("/d");
    assert_eq!(history.len(), 2);
    assert_eq!(history.location().path(), "/d");
    history.back();
    assert_eq!(history.location().path(), "/a");
}

#[test]
fn with_no_entries_holds_root() {
    let history = MemoryHistory::<()>::with_entries(&Vec::new());
    assert_eq!(history.len(), 1);
    assert_eq!(history.location().path(), "/");
    assert!(!history.is_empty());
}

#[test]
fn state_and_query_are_stored() {
    let mut history = MemoryHistory::<u32>::new();
    history.push_with_state("/s", 7);
    assert_eq!(history.location().state(), Some(&7));
    history
        .push_with_query("/q", UrlEncoded(vec![("a".to_string(), "1".to_string())]))
        .unwrap();
    assert_eq!(history.location().query_str(), "?a=1");
    assert_eq!(history.location().hash(), "");
    assert_eq!(history.location().state(), None);
    let pairs = history.location().query::<UrlEncoded>().unwrap();
    assert_eq!(pairs, vec![("a".to_string(), "1".to_string())]);
    history
        .replace_with_query_and_state("/r", Raw("x=y"), 9)
        .unwrap();
    assert_eq!(history.location().path(), "/r");
    assert_eq!(history.location().query_str(), "?x=y");
    assert_eq!(history.location().state(), Some(&9));
    assert_eq!(history.len(), 3);
}

#[test]
fn locations_compare_by_id() {
    let mut history = MemoryHistory::<()>::new();
    history.push("/a");
    let first = history.location().id();
    history.push("/b");
    let second = history.location().id();
    assert!(first.is_some() && second.is_some());
    assert_ne!(first, second);
    history.back();
    assert_eq!(history.location().id(), first);
    let no_id: Location<()> = Location::new("/".into(), "".into(), "".into(), None, None);
    assert!(no_id != no_id);
    let a: Location<()> = Location::new("/a".into(), "".into(), "".into(), None, Some(3));
    let b: Location<()> = Location::new("/b".into(), "".into(), "".into(), None, Some(3));
    assert!(a == b);
}

#[test]
fn memory_routes_are_checked() {
    assert!(check_memory_route("/a/b"));
    assert!(!check_memory_route("a"));
    assert!(!check_memory_route(""));
    assert!(!check_memory_route("/a?b=1"));
    assert!(!check_memory_route("/a#top"));
}

#[test]
fn notify_keeps_live_callbacks_in_order() {
    let entries = vec![(1u8, Some('a')), (2, None), (3, Some('c'))];
    let (kept, called) = notify_callbacks(entries);
    assert_eq!(kept, vec![1, 3]);
    assert_eq!(called, vec!['a', 'c']);
}

#[test]
fn hash_helpers() {
    assert_eq!(route_with_query("/path", "a=1"), "/path?a=1");
    assert_eq!(strip_hash("#/path-a"), "/path-a");
    assert_eq!(strip_hash(""), "");
    assert!(holds_hash_route("#/"));
    assert!(!holds_hash_route("#a"));
    assert!(!holds_hash_route(""));
}

#[test]
fn go_moves_only_within_the_history() {
    let history = MemoryHistory::<()>::with_entries(&vec!["/a", "/b", "/c"]);
    assert!(history.go_moves(-1));
    assert!(history.go_moves(-2));
    assert!(!history.go_moves(-3));
    assert!(!history.go_moves(0));
    assert!(!history.go_moves(1));
    assert!(!history.go_moves(isize::MIN));
    assert!(!history.go_moves(isize::MAX));
}

#[test]
fn a_push_gives_the_new_location_a_new_id() {
    let mut history = MemoryHistory::<()>::new();
    let first = history.location().id();
    history.push("/next");
    let second = history.location().id();
    assert!(first.is_some() && second.is_some());
    assert_ne!(first, second);
    history.replace("/other");
    let third = history.location().id();
    assert_ne!(second, third);
    history.back();
    assert_eq!(history.location().id(), first);
}
