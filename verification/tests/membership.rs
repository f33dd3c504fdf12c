use std::cell::Cell;
use std::rc::Rc;

use peer_session::model::{NodeRef, OmniAddress};
use peer_session::volatile::{is_expired, Clock, MemberKey, VolatileMembershipSet};

/// A clock that shows what the test sets.
struct ManualClock {
    time: Rc<Cell<u64>>,
}

impl Clock for ManualClock {
    fn now(&self) -> u64 {
        self.time.get()
    }
}

fn clock_at(start: u64) -> (Rc<Cell<u64>>, ManualClock) {
    let time = Rc::new(Cell::new(start));
    (time.clone(), ManualClock { time })
}

#[test]
fn expiry_is_strictly_longer_than_the_time_to_live() {
    assert!(!is_expired(100, 100, 10));
    assert!(!is_expired(100, 109, 10));
    assert!(!is_expired(100, 110, 10));
    assert!(is_expired(100, 111, 10));
    assert!(is_expired(0, u64::MAX, u64::MAX - 1));
    assert!(!is_expired(0, u64::MAX, u64::MAX));
    // A clock that went back makes nothing expire.
    assert!(!is_expired(100, 50, 10));
    assert!(!is_expired(100, 50, 0));
    assert!(is_expired(100, 101, 0));
}

#[test]
fn member_expires_only_at_refresh() {
    let (time, clock) = clock_at(1000);
    let mut set: VolatileMembershipSet<u64, ManualClock> = VolatileMembershipSet::new(30, clock);
    assert_eq!(set.ttl(), 30);
    assert!(!set.contains(&7));
    assert!(set.insert(7));
    assert!(set.contains(&7));
    time.set(1031);
    // Past the time to live, and still a member: nothing was refreshed.
    assert!(set.contains(&7));
    set.refresh();
    assert!(!set.contains(&7));
}

#[test]
fn member_within_the_time_to_live_stays() {
    let (time, clock) = clock_at(1000);
    let mut set: VolatileMembershipSet<u64, ManualClock> = VolatileMembershipSet::new(30, clock);
    set.insert(7);
    time.set(1030);
    set.refresh();
    assert!(set.contains(&7));
    time.set(1031);
    set.refresh();
    assert!(!set.contains(&7));
}

#[test]
fn refresh_drops_the_expired_and_keeps_the_rest() {
    let (time, clock) = clock_at(0);
    let mut set: VolatileMembershipSet<u64, ManualClock> = VolatileMembershipSet::new(10, clock);
    set.insert(1);
    time.set(5);
    set.insert(2);
    time.set(8);
    set.insert(3);
    time.set(11);
    set.refresh();
    assert!(!set.contains(&1));
    assert!(set.contains(&2));
    assert!(set.contains(&3));
    time.set(16);
    set.refresh();
    assert!(!set.contains(&2));
    assert!(set.contains(&3));
    time.set(19);
    set.refresh();
    assert!(!set.contains(&3));
}

#[test]
fn inserting_again_renews_the_member() {
    let (time, clock) = clock_at(0);
    let mut set: VolatileMembershipSet<u64, ManualClock> = VolatileMembershipSet::new(10, clock);
    assert!(set.insert(1));
    time.set(9);
    assert!(!set.insert(1));
    time.set(15);
    set.refresh();
    assert!(set.contains(&1));
    time.set(20);
    set.refresh();
    assert!(!set.contains(&1));
}

#[test]
fn explicit_times_need_no_clock() {
    let (_, clock) = clock_at(0);
    let mut set: VolatileMembershipSet<String, ManualClock> = VolatileMembershipSet::new(5, clock);
    assert!(set.insert_at("a".to_string(), 100));
    assert!(set.insert_at("b".to_string(), 103));
    assert!(!set.insert_at("a".to_string(), 101));
    set.refresh_at(106);
    assert!(set.contains(&"a".to_string()));
    assert!(set.contains(&"b".to_string()));
    set.refresh_at(107);
    assert!(!set.contains(&"a".to_string()));
    assert!(set.contains(&"b".to_string()));
    set.refresh_at(109);
    assert!(!set.contains(&"b".to_string()));
}

#[test]
fn set_reads_the_clock_it_was_made_with() {
    let (time, clock) = clock_at(42);
    let set: VolatileMembershipSet<u64, ManualClock> = VolatileMembershipSet::new(1, clock);
    assert_eq!(set.now(), 42);
    time.set(43);
    assert_eq!(set.now(), 43);
}

#[test]
fn node_refs_are_told_apart_by_their_addresses() {
    let a = NodeRef::new(vec![OmniAddress::new("tcp(1.1.1.1:1)"), OmniAddress::new("tcp(1.1.1.2:1)")]).unwrap();
    let same = NodeRef::new(vec![OmniAddress::new("tcp(1.1.1.1:1)"), OmniAddress::new("tcp(1.1.1.2:1)")]).unwrap();
    let swapped = NodeRef::new(vec![OmniAddress::new("tcp(1.1.1.2:1)"), OmniAddress::new("tcp(1.1.1.1:1)")]).unwrap();
    let shorter = NodeRef::new(vec![OmniAddress::new("tcp(1.1.1.1:1)")]).unwrap();
    assert!(a.same(&same));
    assert!(MemberKey::same(&a, &same));
    assert!(!a.same(&swapped));
    assert!(!a.same(&shorter));
    assert!(!shorter.same(&a));
    let (_, clock) = clock_at(0);
    let mut set: VolatileMembershipSet<NodeRef, ManualClock> = VolatileMembershipSet::new(5, clock);
    assert!(set.insert(a.clone()));
    assert!(set.contains(&same));
    assert!(!set.contains(&swapped));
    assert!(!set.contains(&shorter));
}

#[test]
fn node_ref_needs_an_address() {
    assert!(NodeRef::new(Vec::new()).is_none());
    let node = NodeRef::new(vec![OmniAddress::new("tcp(a:1)"), OmniAddress::new("tcp(b:2)")]).unwrap();
    assert_eq!(node.addr_count(), 2);
    assert_eq!(node.addr(0).as_str(), "tcp(a:1)");
    assert_eq!(node.addr(1).as_str(), "tcp(b:2)");
}

#[test]
fn tcp_address_wraps_the_socket_address() {
    assert_eq!(OmniAddress::tcp("127.0.0.1:8080").as_str(), "tcp(127.0.0.1:8080)");
    assert_eq!(OmniAddress::tcp("").as_str(), "tcp()");
    assert_eq!(OmniAddress::new("tcp(x)").as_str(), "tcp(x)");
    assert!(OmniAddress::tcp("a:1") == OmniAddress::new("tcp(a:1)"));
    assert!(OmniAddress::tcp("a:1") != OmniAddress::new("tcp(a:2)"));
}

#[test]
fn socket_address_is_read_back_from_a_tcp_address() {
    assert_eq!(OmniAddress::tcp("127.0.0.1:8080").tcp_socket(), Some("127.0.0.1:8080".to_string()));
    assert_eq!(OmniAddress::new("tcp()").tcp_socket(), Some(String::new()));
    assert_eq!(OmniAddress::new("tcp(\u{e9}:1)").tcp_socket(), Some("\u{e9}:1".to_string()));
    assert_eq!(OmniAddress::new("tcp(a:1").tcp_socket(), None);
    assert_eq!(OmniAddress::new("udp(a:1)").tcp_socket(), None);
    assert_eq!(OmniAddress::new("tcp").tcp_socket(), None);
    assert_eq!(OmniAddress::new("").tcp_socket(), None);
    assert_eq!(OmniAddress::new("tcp(a:1) ").tcp_socket(), None);
}
