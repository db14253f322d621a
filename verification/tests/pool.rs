use philostone::history::CAPACITY_LIMIT;
use philostone::pool::{DanmakuPool, PoolKey, DEFAULT_CAPACITY};
use philostone::slots::NULL_KEY_BITS;
use philostone::Danmaku;

fn event(n: u32) -> Danmaku {
    Danmaku {
        sender: format!("sender-{}", n),
        text: format!("text-{}", n),
        color: String::from("#fff"),
        size: n,
    }
}

fn fill<const N: usize>(pool: &mut DanmakuPool<N>, count: u32) -> Vec<PoolKey> {
    let mut keys = Vec::new();
    for n in 0..count {
        keys.push(pool.insert(event(n)));
    }
    keys
}

fn sizes<const N: usize>(pool: &DanmakuPool<N>) -> Vec<u32> {
    let mut sizes = Vec::new();
    for danmaku in pool.iter() {
        sizes.push(danmaku.size);
    }
    sizes
}

fn d(size: u32) -> Danmaku {
    Danmaku {
        sender: String::from("s"),
        text: String::from("t"),
        color: String::from("c"),
        size,
    }
}

#[test]
fn the_default_capacity_is_one_hundred() {
    assert_eq!(DEFAULT_CAPACITY, 100);
    assert_eq!(DanmakuPool::default().capacity(), 100);
    assert!(DEFAULT_CAPACITY <= CAPACITY_LIMIT);
}

#[test]
fn new_pool_is_empty() {
    let pool = DanmakuPool::<100>::new();
    assert_eq!(pool.stored_len(), 0);
    assert!(pool.iter().is_empty());
    assert_eq!(pool.capacity(), 100);
}

#[test]
fn capacity_two_keeps_the_last_two() {
    let mut pool = DanmakuPool::<2>::new();
    pool.insert(d(1));
    pool.insert(d(2));
    pool.insert(d(3));
    assert_eq!(sizes(&pool), vec![2, 3]);
}

#[test]
fn capacity_three_after_the_window_wrapped_twice() {
    let mut pool = DanmakuPool::<3>::new();
    for i in 1..=8u32 {
        pool.insert(d(i));
    }
    assert_eq!(pool.iter().len(), 3);
    assert_eq!(sizes(&pool), vec![6, 7, 8]);
}

#[test]
fn capacity_two_collection_leaves_two_stored() {
    let mut pool = DanmakuPool::<2>::new();
    let k1 = pool.insert(d(1));
    let k2 = pool.insert(d(2));
    let k3 = pool.insert(d(3));
    assert_eq!(pool.stored_len(), 3);
    pool.garbage_collect();
    assert_eq!(pool.stored_len(), 2);
    assert_eq!(sizes(&pool), vec![2, 3]);
    assert!(pool.get(k1).is_none());
    assert_eq!(pool.get(k2).unwrap().size, 2);
    assert_eq!(pool.get(k3).unwrap().size, 3);
}

#[test]
fn capacity_one_never_reissues_a_collected_key() {
    let mut pool = DanmakuPool::<1>::new();
    let k1 = pool.insert(d(1));
    let k2 = pool.insert(d(2));
    pool.garbage_collect();
    let k3 = pool.insert(d(3));
    assert!(k3 != k1);
    assert!(k3 != k2);
    assert!(pool.get(k1).is_none());
    assert_eq!(pool.get(k3).unwrap().size, 3);
    assert_eq!(sizes(&pool), vec![3]);
}

#[test]
fn a_reused_slot_gives_new_keys_every_time() {
    let mut pool = DanmakuPool::<1>::new();
    let mut seen: Vec<PoolKey> = Vec::new();
    for n in 0..50 {
        let key = pool.insert(d(n));
        pool.garbage_collect();
        assert!(!seen.contains(&key));
        for old in seen.iter() {
            assert!(pool.get(*old).is_none());
        }
        assert_eq!(pool.get(key).unwrap().size, n);
        seen.push(key);
    }
}

#[test]
fn a_key_outlasts_fewer_insertions_than_the_capacity() {
    let mut pool = DanmakuPool::<4>::new();
    fill(&mut pool, 9);
    let key = pool.insert(d(77));
    for n in 0..3 {
        pool.insert(d(n));
        pool.garbage_collect();
        assert_eq!(pool.get(key).unwrap().size, 77);
    }
    assert_eq!(sizes(&pool)[0], 77);
    pool.insert(d(3));
    pool.garbage_collect();
    assert!(pool.get(key).is_none());
}

#[test]
fn the_null_key_resolves_to_nothing() {
    let mut pool = DanmakuPool::<2>::new();
    let null = PoolKey::default();
    assert!(null.is_null());
    assert_eq!(null.bits(), NULL_KEY_BITS);
    assert_eq!(null.bits(), 0x1_FFFF_FFFF);
    assert!(pool.get(null).is_none());
    let keys = fill(&mut pool, 5);
    for key in keys {
        assert!(!key.is_null());
        assert!(key != null);
    }
    assert!(pool.get(null).is_none());
    assert!(PoolKey::default() == null);
}

#[test]
fn keys_are_ordered_consistently_with_equality() {
    let mut pool = DanmakuPool::<2>::new();
    let keys = fill(&mut pool, 6);
    for a in keys.iter() {
        for b in keys.iter() {
            assert_eq!(a.cmp(b) == std::cmp::Ordering::Equal, a == b);
            assert_eq!(a.partial_cmp(b), Some(a.cmp(b)));
            assert_eq!(a.cmp(b), b.cmp(a).reverse());
        }
    }
    let mut sorted = keys.clone();
    sorted.sort();
    sorted.dedup();
    assert_eq!(sorted.len(), 6);
}

#[test]
fn default_pool_is_empty() {
    let pool = DanmakuPool::default();
    assert_eq!(pool.stored_len(), 0);
    assert!(pool.iter().is_empty());
}

#[test]
fn insert_then_get_returns_the_event() {
    let mut pool = DanmakuPool::<100>::new();
    let key = pool.insert(Danmaku {
        sender: String::from("a"),
        text: String::from("hi"),
        color: String::from("#fff"),
        size: 24,
    });
    let found = pool.get(key).unwrap();
    assert_eq!(found.sender, "a");
    assert_eq!(found.text, "hi");
    assert_eq!(found.color, "#fff");
    assert_eq!(found.size, 24);
    assert_eq!(pool.stored_len(), 1);
}

#[test]
fn every_key_resolves_while_in_the_window() {
    let mut pool = DanmakuPool::<100>::new();
    let keys = fill(&mut pool, 100);
    for (n, key) in keys.iter().enumerate() {
        let found = pool.get(*key).unwrap();
        assert_eq!(found.size, n as u32);
        assert_eq!(found.text, format!("text-{}", n));
    }
}

#[test]
fn keys_are_all_different() {
    let mut pool = DanmakuPool::<100>::new();
    let keys = fill(&mut pool, 120);
    for i in 0..keys.len() {
        for j in 0..keys.len() {
            assert_eq!(keys[i] == keys[j], i == j);
            assert_eq!(keys[i].bits() == keys[j].bits(), i == j);
        }
    }
}

#[test]
fn a_copied_key_is_the_same_key() {
    let mut pool = DanmakuPool::<100>::new();
    let key = pool.insert(event(7));
    let copy = key;
    assert!(copy == key);
    assert_eq!(copy.bits(), key.bits());
    assert_eq!(pool.get(copy).unwrap().size, 7);
}

#[test]
fn below_capacity_nothing_is_evicted() {
    let mut pool = DanmakuPool::<100>::new();
    fill(&mut pool, 3);
    assert_eq!(sizes(&pool), vec![0, 1, 2]);
    pool.garbage_collect();
    assert_eq!(pool.stored_len(), 3);
    assert_eq!(sizes(&pool), vec![0, 1, 2]);
}

#[test]
fn exactly_capacity_keeps_everything() {
    let mut pool = DanmakuPool::<100>::new();
    let keys = fill(&mut pool, 100);
    let expected: Vec<u32> = (0..100).collect();
    assert_eq!(sizes(&pool), expected);
    pool.garbage_collect();
    assert_eq!(pool.stored_len(), 100);
    assert_eq!(pool.get(keys[0]).unwrap().size, 0);
}

#[test]
fn bounded_retention_keeps_the_most_recent() {
    let mut pool = DanmakuPool::<100>::new();
    fill(&mut pool, 137);
    let seen = sizes(&pool);
    let expected: Vec<u32> = (37..137).collect();
    assert_eq!(seen.len(), 100);
    assert_eq!(seen, expected);
}

#[test]
fn iteration_can_be_restarted() {
    let mut pool = DanmakuPool::<100>::new();
    fill(&mut pool, 105);
    let first = sizes(&pool);
    let second = sizes(&pool);
    assert_eq!(first, second);
    assert_eq!(first[0], 5);
    assert_eq!(first[99], 104);
}

#[test]
fn storage_grows_until_collected() {
    let mut pool = DanmakuPool::<100>::new();
    let keys = fill(&mut pool, 150);
    assert_eq!(pool.stored_len(), 150);
    assert_eq!(pool.get(keys[0]).unwrap().size, 0);
    assert_eq!(sizes(&pool).len(), 100);
}

#[test]
fn eviction_and_collection() {
    let mut pool = DanmakuPool::<100>::new();
    let keys = fill(&mut pool, 101);
    assert_eq!(pool.stored_len(), 101);
    pool.garbage_collect();
    assert_eq!(pool.stored_len(), 100);
    assert!(pool.get(keys[0]).is_none());
    for n in 1..101 {
        assert_eq!(pool.get(keys[n]).unwrap().size, n as u32);
    }
    let expected: Vec<u32> = (1..101).collect();
    assert_eq!(sizes(&pool), expected);
}

#[test]
fn collection_is_idempotent() {
    let mut pool = DanmakuPool::<100>::new();
    let keys = fill(&mut pool, 130);
    pool.garbage_collect();
    let once = sizes(&pool);
    assert_eq!(pool.stored_len(), 100);
    pool.garbage_collect();
    assert_eq!(pool.stored_len(), 100);
    assert_eq!(sizes(&pool), once);
    for n in 0..30 {
        assert!(pool.get(keys[n]).is_none());
    }
    for n in 30..130 {
        assert!(pool.get(keys[n]).is_some());
    }
}

#[test]
fn collection_of_an_empty_pool() {
    let mut pool = DanmakuPool::<100>::new();
    pool.garbage_collect();
    assert_eq!(pool.stored_len(), 0);
    assert!(pool.iter().is_empty());
}

#[test]
fn a_collected_key_stays_unknown_after_later_insertions() {
    let mut pool = DanmakuPool::<100>::new();
    let keys = fill(&mut pool, 101);
    pool.garbage_collect();
    let later = pool.insert(event(500));
    assert!(later != keys[0]);
    assert!(pool.get(keys[0]).is_none());
    assert_eq!(pool.get(later).unwrap().size, 500);
    assert_eq!(pool.stored_len(), 101);
}

#[test]
fn insertion_goes_on_after_collection() {
    let mut pool = DanmakuPool::<100>::new();
    fill(&mut pool, 110);
    pool.garbage_collect();
    for n in 110..115 {
        pool.insert(event(n));
    }
    let expected: Vec<u32> = (15..115).collect();
    assert_eq!(sizes(&pool), expected);
    assert_eq!(pool.stored_len(), 105);
    pool.garbage_collect();
    assert_eq!(pool.stored_len(), 100);
}

#[test]
fn try_insert_stores_the_event() {
    let mut pool = DanmakuPool::<100>::new();
    let key = pool.try_insert(event(9)).unwrap();
    assert_eq!(pool.get(key).unwrap().size, 9);
    assert_eq!(sizes(&pool), vec![9]);
}

#[test]
fn a_danmaku_clone_has_the_same_fields() {
    let first = event(3);
    let copy = first.clone();
    assert_eq!(copy.sender, first.sender);
    assert_eq!(copy.text, first.text);
    assert_eq!(copy.color, first.color);
    assert_eq!(copy.size, first.size);
}
