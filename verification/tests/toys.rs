use std::collections::hash_map::RandomState;
use std::rc::Rc;

use liblog::bench_indirect::{hash_e, hash_i, Mode};
use liblog::fun::{Node as FunNode, Order, TotalOrdered, Tree};
use liblog::model::{Command, State};
use liblog::pool::{DumbSet, FromHashableSource, PooledStr};
use liblog::server_model::{Change, ClientResponse, State as ServerState};
use liblog::stat::{Counter, NullStat, SimpleStat, Stat, StatInfo};
use liblog::swap_tree::{rotate_in_place_deq, rotate_in_place_vec, Node};

#[test]
fn crc64_mode_sums_the_checksums() {
    // The checksum of "123456789" is the check value of the CRC.
    assert_eq!(hash_e(Mode::Crc64, &["123456789"], &[]), 16845390139448941002);
    assert_eq!(hash_i(Mode::Crc64, &["123456789"], &[]), 16845390139448941002);
    assert_eq!(
        hash_e(Mode::Crc64, &["12345", "123456789"], &[]),
        17326901458626182669u64.wrapping_add(16845390139448941002)
    );
    assert_eq!(hash_i(Mode::Crc64, &["12345", "123456789"], &[]), hash_e(Mode::Crc64, &["12345", "123456789"], &[]));
    assert_eq!(hash_e(Mode::Crc64, &[], &[]), 0);
}

#[test]
fn other_mode_counts_and_city_mode_sums_what_it_is_given() {
    assert_eq!(hash_e(Mode::Other, &["a", "b", "c"], &[]), 3);
    assert_eq!(hash_i(Mode::Other, &["a", "b", "c"], &[]), 3);
    assert_eq!(hash_e(Mode::CityHash64, &["a", "b"], &[10, u64::MAX]), 9);
    assert_eq!(hash_i(Mode::CityHash64, &["a", "b"], &[10, u64::MAX]), 9);
}

fn names(state: &State) -> Vec<String> {
    state.nodes.clone()
}

#[test]
fn state_applies_commands() {
    let mut state = State::new(vec!["a".to_string(), "b".to_string(), "a".to_string()]);
    assert_eq!(state.value, 0);
    assert_eq!(names(&state), vec!["a".to_string(), "b".to_string()]);
    assert_eq!(state.node_count(), 2);
    state.apply(&Command::Sub(1));
    assert_eq!(state.value, u32::MAX);
    state.apply(&Command::Add(3));
    assert_eq!(state.value, 2);
    state.apply(&Command::SetValue(40));
    assert_eq!(state.value, 40);
    state.apply(&Command::AddNode("c".to_string()));
    state.apply(&Command::AddNode("a".to_string()));
    assert_eq!(state.node_count(), 3);
    assert!(state.contains(&"c".to_string()));
    state.apply(&Command::RemoveNode("a".to_string()));
    state.apply(&Command::RemoveNode("never there".to_string()));
    assert_eq!(names(&state), vec!["b".to_string(), "c".to_string()]);
    assert!(!state.contains(&"a".to_string()));
    assert_eq!(state.value, 40);
}

#[test]
fn server_state_applies_changes() {
    let mut state = ServerState::new(vec!["n1".to_string()]);
    state.apply(&Change::Add(u32::MAX));
    state.apply(&Change::Add(2));
    assert_eq!(state.value, 1);
    state.apply(&Change::Sub(2));
    assert_eq!(state.value, u32::MAX);
    state.apply(&Change::SetValue(5));
    state.apply(&Change::AddNode("n2".to_string()));
    state.apply(&Change::RemoveNode("n1".to_string()));
    assert_eq!(state.value, 5);
    assert_eq!(state.nodes, vec!["n2".to_string()]);
    let response = ClientResponse(Ok(Some("done".to_string())));
    assert_eq!(response.0, Ok(Some("done".to_string())));
}

fn leaf(val: u32) -> Option<Box<Node<u32>>> {
    Some(Box::new(Node::from(val)))
}

fn shape(node: &Option<Box<Node<u32>>>) -> String {
    match node {
        None => "-".to_string(),
        Some(n) => format!("({} {} {})", n.val, shape(&n.left), shape(&n.right)),
    }
}

fn sample() -> Node<u32> {
    Node {
        val: 1,
        left: Some(Box::new(Node { val: 2, left: leaf(4), right: None })),
        right: leaf(3),
    }
}

#[test]
fn rotation_mirrors_the_tree() {
    let mut a = sample();
    rotate_in_place_deq(&mut a);
    assert_eq!(shape(&Some(Box::new(a))), "(1 (3 - -) (2 - (4 - -)))");
    let mut b = sample();
    rotate_in_place_vec(&mut b);
    assert_eq!(shape(&Some(Box::new(b))), "(1 (3 - -) (2 - (4 - -)))");
    let mut c = sample();
    rotate_in_place_vec(&mut c);
    rotate_in_place_deq(&mut c);
    assert_eq!(shape(&Some(Box::new(c))), shape(&Some(Box::new(sample()))));
    let mut single = Node::from(9u32);
    rotate_in_place_deq(&mut single);
    assert_eq!(shape(&Some(Box::new(single))), "(9 - -)");
}

#[test]
fn tree_insert_leaves_the_old_tree() {
    let empty: Tree<u64, &str> = Tree::new();
    assert_eq!(empty.get(&1), None);
    let one = empty.insert(5, "five");
    let two = one.insert(3, "three").insert(8, "eight");
    let three = two.insert(5, "FIVE");
    assert_eq!(empty.get(&5), None);
    assert_eq!(one.get(&5), Some(&"five"));
    assert_eq!(one.get(&3), None);
    assert_eq!(two.get(&3), Some(&"three"));
    assert_eq!(two.get(&8), Some(&"eight"));
    assert_eq!(two.get(&5), Some(&"five"));
    assert_eq!(three.get(&5), Some(&"FIVE"));
    assert_eq!(three.get(&8), Some(&"eight"));
    assert_eq!(three.get(&4), None);
    let node = FunNode::new(1u64, 2u8);
    assert_eq!((*node.key, *node.val), (1, 2));
    assert!(node.less.is_none() && node.greater.is_none());
    assert_eq!(3u64.compare(&4), Order::Less);
    assert_eq!(4u64.compare(&4), Order::Equal);
    assert_eq!(5u64.compare(&4), Order::Greater);
    let default: Tree<u64, u8> = Tree::default();
    assert!(default.root.is_none());
}

#[test]
fn pool_interns_each_text_once() {
    let mut pool: DumbSet<PooledStr, RandomState> = DumbSet::from_builder(RandomState::new());
    let mut interns = Vec::new();
    for w in "Mary had a little lamb, a little lamb, a little lamb.".split_whitespace() {
        interns.push(pool.intern(w));
    }
    let held: Vec<String> = pool.iter().iter().map(|s| s.as_str().to_string()).collect();
    assert_eq!(held, vec!["Mary", "had", "a", "little", "lamb,", "lamb."]);
    assert!(Rc::ptr_eq(&interns[2], &interns[5]));
    assert!(Rc::ptr_eq(&interns[3], &interns[9]));
    assert!(!Rc::ptr_eq(&interns[4], &interns[10]));
}

#[test]
fn pool_finds_by_hash_and_text() {
    let mut pool: DumbSet<PooledStr, RandomState> = DumbSet::from_builder(RandomState::new());
    let a = pool.intern_hashed(7, "a");
    assert_eq!(a.get_hash(), 7);
    assert_eq!(a.as_str(), "a");
    assert!(a.spells("a") && !a.spells("b"));
    let again = pool.intern_hashed(7, "a");
    assert!(Rc::ptr_eq(&a, &again));
    // The same text under another hash is another value.
    let other = pool.intern_hashed(8, "a");
    assert!(!Rc::ptr_eq(&a, &other));
    assert!(a.like(&other));
    assert_eq!(pool.iter().len(), 2);

    let mut second: DumbSet<PooledStr, RandomState> = DumbSet::from_builder(RandomState::new());
    second.implant(&a);
    second.implant(&a);
    second.implant(&again);
    assert_eq!(second.iter().len(), 1);
    second.implant(&other);
    assert_eq!(second.iter().len(), 2);
    assert!(Rc::ptr_eq(&second.intern_hashed(7, "a"), &a));
    let made = PooledStr::from_hashed(3, "xyz");
    assert_eq!((made.get_hash(), made.as_str()), (3, "xyz"));
}

#[test]
fn simple_stat_counts_and_starts_again() {
    let mut stat = SimpleStat::default();
    stat.gc();
    stat.alloc_obj(10);
    stat.alloc_obj(5);
    stat.move_obj(7);
    assert_eq!(
        stat.fetch_stat(),
        StatInfo { gc_count: 1, alloc_size: 15, alloc_count: 2, move_size: 7, move_count: 1 }
    );
    assert_eq!(stat.fetch_stat(), StatInfo::default());
    let mut null = NullStat {};
    null.gc();
    null.alloc_obj(10);
    null.move_obj(7);
    assert_eq!(
        null.fetch_stat(),
        StatInfo { gc_count: 0, alloc_size: 0, alloc_count: 0, move_size: 0, move_count: 0 }
    );
    let mut counter = Counter::new();
    counter.inc();
    counter.add(41);
    assert_eq!(counter.take(), 42);
    assert_eq!(counter.take(), 0);
}
