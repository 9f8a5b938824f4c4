use pepe::DedupStore;
use pepe::Message;
use pepe::Timestamp;

fn smsg(id: i32) -> Message {
    Message {
        id,
        createddate: Timestamp {
            millis: 0,
            rendered: String::from("1970-01-01 01:00:00 CET"),
        },
        exactlocation: String::from("Road E4"),
        description: String::from("Accident"),
        title: String::from("Traffic"),
        latitude: String::from("59.1"),
        longitude: String::from("17.9"),
        category: 0,
        subcategory: String::from("Vagtrafik"),
    }
}

#[test]
fn merge_keeps_feed_order() {
    let mut store = DedupStore::new();
    let _ = store.merge(&vec![smsg(2)]);
    let novel = store.merge(&vec![smsg(1), smsg(2), smsg(3)]);
    let ids: Vec<i32> = novel.iter().map(|m| m.id).collect();
    assert_eq!(ids, vec![1, 3]);
}

#[test]
fn merge_never_returns_an_accepted_id_again() {
    let mut store = DedupStore::new();
    let first = store.merge(&vec![smsg(10), smsg(11)]);
    assert_eq!(first.len(), 2);
    let again = store.merge(&vec![smsg(10), smsg(11)]);
    assert!(again.is_empty());
    let third = store.merge(&vec![smsg(11), smsg(12)]);
    let ids: Vec<i32> = third.iter().map(|m| m.id).collect();
    assert_eq!(ids, vec![12]);
}

#[test]
fn merge_appends_and_indexes() {
    let mut store = DedupStore::new();
    assert_eq!(store.len(), 0);
    assert!(!store.is_known(5));
    let _ = store.merge(&vec![smsg(5), smsg(6)]);
    assert!(store.is_known(5));
    assert!(store.is_known(6));
    assert!(!store.is_known(7));
    assert_eq!(store.len(), 2);
    let recorded: Vec<i32> = store.records().iter().map(|m| m.id).collect();
    assert_eq!(recorded, vec![5, 6]);
}

#[test]
fn merge_judges_candidates_against_the_state_before_the_call() {
    let mut store = DedupStore::new();
    let novel = store.merge(&vec![smsg(9), smsg(9)]);
    assert_eq!(novel.len(), 2);
    assert_eq!(store.len(), 2);
    let again = store.merge(&vec![smsg(9)]);
    assert!(again.is_empty());
}
