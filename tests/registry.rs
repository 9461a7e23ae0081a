use serenity_additions::events::{
    handle_message_delete, handle_message_delete_bulk, handle_reaction_add,
    handle_reaction_remove, retire_finished,
};
use serenity_additions::{Error, EventDrivenMessageContainer, MessageHandle};

fn h(c: u64, m: u64) -> MessageHandle {
    MessageHandle::from_raw_ids(c, m)
}

#[test]
fn handle_keeps_its_ids() {
    let a = MessageHandle::from_raw_ids(7, 9);
    assert_eq!(a.channel_id, 7);
    assert_eq!(a.message_id, 9);
    assert_eq!(MessageHandle::new(7, 9), a);
    assert!(h(1, 9) < h(2, 0));
    assert!(h(1, 1) < h(1, 2));
}

#[test]
fn insert_hands_out_fresh_keys() {
    let mut r = EventDrivenMessageContainer::new();
    let k1 = r.insert(h(1, 1)).unwrap();
    let k2 = r.insert(h(1, 2)).unwrap();
    assert_eq!(k1, 0);
    assert_eq!(k2, 1);
    assert_eq!(r.get(&h(1, 1)), Some(0));
    assert_eq!(r.get(&h(1, 2)), Some(1));
    assert_eq!(r.get(&h(1, 3)), None);
}

#[test]
fn insert_at_occupied_identity_fails() {
    let mut r = EventDrivenMessageContainer::new();
    r.insert(h(1, 1)).unwrap();
    assert_eq!(r.insert(h(1, 1)), Err(Error::AlreadyRegistered(h(1, 1))));
    assert_eq!(r.get(&h(1, 1)), Some(0));
}

#[test]
fn remove_takes_the_entry_out() {
    let mut r = EventDrivenMessageContainer::new();
    r.insert(h(1, 1)).unwrap();
    assert_eq!(r.remove(&h(1, 1)), Some(0));
    assert_eq!(r.get(&h(1, 1)), None);
    assert_eq!(r.remove(&h(1, 1)), None);
}

#[test]
fn rekey_then_get_finds_the_moved_entry() {
    let mut r = EventDrivenMessageContainer::new();
    r.insert(h(1, 1)).unwrap();
    let k = r.insert(h(1, 5)).unwrap();
    assert_eq!(r.rekey(h(1, 5), h(1, 6)), Ok(k));
    assert_eq!(r.get(&h(1, 6)), Some(k));
    assert_eq!(r.get(&h(1, 5)), None);
    assert_eq!(r.get(&h(1, 1)), Some(0));
}

#[test]
fn rekey_from_missing_entry_fails() {
    let mut r = EventDrivenMessageContainer::new();
    assert_eq!(r.rekey(h(1, 5), h(1, 6)), Err(Error::EntryMissing(h(1, 5))));
    assert_eq!(r.get(&h(1, 6)), None);
}

#[test]
fn rekey_onto_occupied_identity_fails() {
    let mut r = EventDrivenMessageContainer::new();
    r.insert(h(1, 5)).unwrap();
    r.insert(h(1, 6)).unwrap();
    assert_eq!(r.rekey(h(1, 5), h(1, 6)), Err(Error::AlreadyRegistered(h(1, 6))));
    assert_eq!(r.get(&h(1, 5)), Some(0));
    assert_eq!(r.get(&h(1, 6)), Some(1));
}

#[test]
fn operations_on_other_identities_keep_an_entry() {
    let mut r = EventDrivenMessageContainer::new();
    let kept = r.insert(h(1, 1)).unwrap();
    r.insert(h(2, 1)).unwrap();
    r.insert(h(2, 2)).unwrap();
    r.remove(&h(2, 1));
    r.rekey(h(2, 2), h(2, 3)).unwrap();
    r.insert(h(2, 1)).unwrap();
    assert_eq!(r.get(&h(1, 1)), Some(kept));
    r.remove(&h(2, 1));
    assert_eq!(r.get(&h(2, 1)), None);
}

#[test]
fn snapshot_lists_every_entry_once() {
    let mut r = EventDrivenMessageContainer::new();
    r.insert(h(1, 1)).unwrap();
    r.insert(h(1, 2)).unwrap();
    r.insert(h(3, 1)).unwrap();
    let mut s = r.snapshot();
    s.sort();
    assert_eq!(s, vec![(h(1, 1), 0), (h(1, 2), 1), (h(3, 1), 2)]);
}

#[test]
fn remove_all_returns_keys_in_order() {
    let mut r = EventDrivenMessageContainer::new();
    r.insert(h(1, 1)).unwrap();
    r.insert(h(1, 2)).unwrap();
    r.insert(h(1, 3)).unwrap();
    let taken = r.remove_all(&vec![h(1, 3), h(9, 9), h(1, 1), h(1, 3)]);
    assert_eq!(taken, vec![2, 0]);
    assert_eq!(r.get(&h(1, 2)), Some(1));
    assert_eq!(r.get(&h(1, 1)), None);
}

#[test]
fn reactions_go_to_the_listener_of_their_message() {
    let mut r = EventDrivenMessageContainer::new();
    r.insert(h(4, 4)).unwrap();
    assert_eq!(handle_reaction_add(&r, h(4, 4)), Some(0));
    assert_eq!(handle_reaction_remove(&r, h(4, 4)), Some(0));
    assert_eq!(handle_reaction_add(&r, h(4, 5)), None);
}

#[test]
fn message_delete_retires_its_listener() {
    let mut r = EventDrivenMessageContainer::new();
    r.insert(h(4, 4)).unwrap();
    assert_eq!(handle_message_delete(&mut r, 4, 4), vec![0]);
    assert_eq!(r.get(&h(4, 4)), None);
    assert_eq!(handle_message_delete(&mut r, 4, 4), Vec::<u64>::new());
}

#[test]
fn bulk_delete_retires_each_listener() {
    let mut r = EventDrivenMessageContainer::new();
    r.insert(h(4, 1)).unwrap();
    r.insert(h(4, 2)).unwrap();
    r.insert(h(5, 1)).unwrap();
    assert_eq!(handle_message_delete_bulk(&mut r, 4, &vec![2, 3, 1]), vec![1, 0]);
    assert_eq!(r.get(&h(5, 1)), Some(2));
    assert_eq!(r.get(&h(4, 1)), None);
    assert_eq!(r.get(&h(4, 2)), None);
}

#[test]
fn sweep_retires_finished_listeners_only() {
    let mut r = EventDrivenMessageContainer::new();
    r.insert(h(1, 1)).unwrap();
    r.insert(h(1, 2)).unwrap();
    let snapshot = vec![(h(1, 1), 0), (h(1, 2), 1)];
    assert_eq!(retire_finished(&mut r, &snapshot, &vec![true, false]), vec![0]);
    assert_eq!(r.get(&h(1, 1)), None);
    assert_eq!(r.get(&h(1, 2)), Some(1));
}
