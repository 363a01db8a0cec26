use voice_session::identity::IdentityResolver;
use voice_session::samples::SampleStore;

#[test]
fn append_keeps_only_nonzero_samples_in_order() {
    let mut store = SampleStore::new();
    store.append(7, &vec![10, 0, 20, 0, 30]);
    assert_eq!(store.drain_remove(7), Some(vec![10, 20, 30]));
}

#[test]
fn append_concatenates_packets_in_arrival_order() {
    let mut store = SampleStore::new();
    store.append(1, &vec![1, 0, 2]);
    store.append(1, &vec![]);
    store.append(1, &vec![0, 0]);
    store.append(1, &vec![-3, 4, 0]);
    assert_eq!(store.drain_remove(1), Some(vec![1, 2, -3, 4]));
}

#[test]
fn append_keeps_extreme_samples() {
    let mut store = SampleStore::new();
    store.append(u32::MAX, &vec![i16::MIN, 0, i16::MAX, -1, 1]);
    assert_eq!(store.drain_remove(u32::MAX), Some(vec![i16::MIN, i16::MAX, -1, 1]));
}

#[test]
fn drain_remove_without_packets_is_absent() {
    let mut store = SampleStore::new();
    assert_eq!(store.drain_remove(5), None);
    assert!(!store.contains(5));
}

#[test]
fn drain_remove_after_only_zeros_is_present_and_empty() {
    let mut store = SampleStore::new();
    store.append(3, &vec![0, 0, 0]);
    assert!(store.contains(3));
    assert_eq!(store.drain_remove(3), Some(vec![]));
}

#[test]
fn empty_packet_creates_the_buffer() {
    let mut store = SampleStore::new();
    store.append(9, &vec![]);
    assert!(store.contains(9));
    assert_eq!(store.drain_remove(9), Some(vec![]));
}

#[test]
fn drain_remove_happens_once() {
    let mut store = SampleStore::new();
    store.append(4, &vec![8, 9]);
    assert_eq!(store.drain_remove(4), Some(vec![8, 9]));
    assert!(!store.contains(4));
    assert_eq!(store.drain_remove(4), None);
}

#[test]
fn buffer_after_drain_starts_empty() {
    let mut store = SampleStore::new();
    store.append(4, &vec![8, 9]);
    store.drain_remove(4);
    store.append(4, &vec![0, 5]);
    assert_eq!(store.drain_remove(4), Some(vec![5]));
}

#[test]
fn buffers_of_distinct_streams_do_not_mix() {
    let mut store = SampleStore::new();
    store.append(1, &vec![1, 1]);
    store.append(2, &vec![2]);
    store.append(1, &vec![0, 3]);
    store.append(2, &vec![4, 0]);
    assert_eq!(store.drain_remove(2), Some(vec![2, 4]));
    assert!(store.contains(1));
    assert_eq!(store.drain_remove(1), Some(vec![1, 1, 3]));
}

#[test]
fn lookup_of_unbound_stream_is_absent() {
    let resolver = IdentityResolver::new();
    assert_eq!(resolver.lookup(7), None);
}

#[test]
fn bind_then_lookup_gives_the_speaker() {
    let mut resolver = IdentityResolver::new();
    resolver.bind(7, String::from("alice"));
    assert_eq!(resolver.lookup(7), Some(String::from("alice")));
    assert_eq!(resolver.lookup(8), None);
}

#[test]
fn rebinding_overwrites() {
    let mut resolver = IdentityResolver::new();
    resolver.bind(7, String::from("alice"));
    resolver.bind(7, String::from("bob"));
    assert_eq!(resolver.lookup(7), Some(String::from("bob")));
}

#[test]
fn binding_twice_the_same_is_idempotent() {
    let mut resolver = IdentityResolver::new();
    resolver.bind(7, String::from("alice"));
    resolver.bind(7, String::from("alice"));
    assert_eq!(resolver.lookup(7), Some(String::from("alice")));
}

#[test]
fn label_falls_back_to_the_identifier() {
    let mut resolver = IdentityResolver::new();
    resolver.bind(1, String::from("carol"));
    assert_eq!(resolver.label(1), "carol");
    assert_eq!(resolver.label(7), "7");
    assert_eq!(resolver.label(0), "0");
    assert_eq!(resolver.label(u32::MAX), "4294967295");
}
