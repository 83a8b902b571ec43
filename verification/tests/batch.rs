use mirage::{sync, Config, Link};

fn bytes(s: &str) -> Vec<u8> {
    s.as_bytes().to_vec()
}

fn two_pair_config() -> Config {
    Config {
        links_to_do: vec![
            Link { source: bytes("/data/a"), destination: bytes("/mirror/a") },
            Link { source: bytes("/data/b"), destination: bytes("/mirror/b") },
        ],
    }
}

#[test]
fn sync_hands_out_pairs_in_order_with_backups_on() {
    let mut s = sync(two_pair_config());

    let first = s.next_request().unwrap();
    assert_eq!(first.source, bytes("/data/a"));
    assert_eq!(first.destination, bytes("/mirror/a"));
    assert!(first.backup);
    s.record(true);

    let second = s.next_request().unwrap();
    assert_eq!(second.source, bytes("/data/b"));
    assert_eq!(second.destination, bytes("/mirror/b"));
    assert!(second.backup);
    s.record(true);

    assert!(s.next_request().is_none());
    assert!(s.is_done());
    assert!(!s.has_failed());
}

#[test]
fn sync_stops_at_the_first_failure() {
    // The first pair replicates; the second fails (say its destination does
    // not exist). The batch stops where it stands: nothing more is handed
    // out, the first pair's work stays done, and the run reports failure.
    let mut s = sync(two_pair_config());

    let first = s.next_request().unwrap();
    assert_eq!(first.source, bytes("/data/a"));
    s.record(true);

    let second = s.next_request().unwrap();
    assert_eq!(second.source, bytes("/data/b"));
    s.record(false);

    assert!(s.next_request().is_none());
    assert!(s.has_failed());
    assert!(!s.is_done());
}

#[test]
fn sync_with_an_empty_config_is_done_at_once() {
    let s = sync(Config { links_to_do: Vec::new() });
    assert!(s.next_request().is_none());
    assert!(s.is_done());
    assert!(!s.has_failed());
}
