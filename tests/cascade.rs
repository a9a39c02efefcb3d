use doxle_annotations::cascade::{
    cascade_keys, delete_batches, next_page, purge_prefix, retry_delay,
    with_prefix, BlockWalk, ImageRows, PageStep, TaskRows, BATCH_LIMIT,
};
use doxle_annotations::keys::{
    annotations_query, block_images_query, labels_query, task_images_query, tasks_query,
    KeyQuery, StoreKey,
};
use doxle_annotations::counters::CounterField;
use doxle_annotations::workflow::plan_image_removal;
use std::collections::BTreeSet;

type Store = BTreeSet<(String, String)>;

fn run_query(store: &Store, q: &KeyQuery) -> Vec<String> {
    store
        .iter()
        .filter(|(pk, sk)| *pk == q.pk && sk.starts_with(q.sk_prefix.as_str()))
        .map(|(_, sk)| sk.clone())
        .collect()
}

fn walk(store: &Store, block_id: &str) -> BlockWalk {
    let task_sks = with_prefix(&run_query(store, &tasks_query(block_id)), "TASK#");
    let tasks = task_sks
        .iter()
        .map(|sk| TaskRows {
            task_sk: sk.clone(),
            image_sks: run_query(store, &task_images_query(sk)),
        })
        .collect();
    let label_sks = run_query(store, &labels_query(block_id));
    let image_sks = with_prefix(&run_query(store, &block_images_query(block_id)), "IMAGE#");
    let images = image_sks
        .iter()
        .map(|sk| ImageRows {
            image_sk: sk.clone(),
            annotation_sks: run_query(store, &annotations_query(sk)),
        })
        .collect();
    BlockWalk { tasks, label_sks, images }
}

fn remove_all(store: &mut Store, keys: &[StoreKey]) {
    for k in keys {
        store.remove(&(k.pk.clone(), k.sk.clone()));
    }
}

fn put(store: &mut Store, pk: &str, sk: &str) {
    store.insert((pk.to_string(), sk.to_string()));
}

/// Block B with tasks T1 (three images) and T2 (none), one label, each image
/// with two annotations, plus an unrelated block C.
fn sample_store() -> Store {
    let mut s = Store::new();
    put(&mut s, "BLOCK", "BLOCK#B");
    put(&mut s, "BLOCK#B", "TASK#T1");
    put(&mut s, "BLOCK#B", "TASK#T2");
    put(&mut s, "BLOCK#B", "LABEL#L1");
    for i in ["I1", "I2", "I3"] {
        put(&mut s, "BLOCK#B", &format!("IMAGE#{}", i));
        put(&mut s, &format!("IMAGE#{}", i), "ANNOTATION#a");
        put(&mut s, &format!("IMAGE#{}", i), "ANNOTATION#b");
    }
    put(&mut s, "BLOCK", "BLOCK#C");
    put(&mut s, "BLOCK#C", "TASK#T9");
    s
}

fn descendants_left(store: &Store, block_id: &str) -> usize {
    let w = walk(store, block_id);
    let mut n = w.tasks.len() + w.label_sks.len() + w.images.len();
    for t in &w.tasks {
        n += t.image_sks.len();
    }
    for i in ["I1", "I2", "I3"] {
        n += run_query(store, &annotations_query(&format!("IMAGE#{}", i))).len();
    }
    n
}

#[test]
fn cascade_completeness() {
    let mut store = sample_store();
    let w = walk(&store, "B");
    assert_eq!(w.tasks.len(), 2);
    assert_eq!(w.label_sks.len(), 1);
    assert_eq!(w.images.len(), 3);
    let keys = cascade_keys("B", &w);
    let last = keys.last().unwrap();
    assert_eq!(last.pk, "BLOCK");
    assert_eq!(last.sk, "BLOCK#B");
    assert_eq!(keys.len(), 2 * 2 + 1 + 3 * 4 + 1);
    for batch in delete_batches(&keys) {
        remove_all(&mut store, &batch);
    }
    assert_eq!(descendants_left(&store, "B"), 0);
    assert!(!store.contains(&("BLOCK".to_string(), "BLOCK#B".to_string())));
    assert!(store.contains(&("BLOCK".to_string(), "BLOCK#C".to_string())));
    assert!(store.contains(&("BLOCK#C".to_string(), "TASK#T9".to_string())));
    assert_eq!(purge_prefix("B"), "annotations/blocks/B/");
}

#[test]
fn idempotent_redelete() {
    let mut store = sample_store();
    let first = cascade_keys("B", &walk(&store, "B"));
    remove_all(&mut store, &first);
    let after_first = store.clone();
    let second_walk = walk(&store, "B");
    assert!(second_walk.tasks.is_empty());
    assert!(second_walk.label_sks.is_empty());
    assert!(second_walk.images.is_empty());
    let second = cascade_keys("B", &second_walk);
    assert_eq!(second.len(), 1);
    assert_eq!(second[0].sk, "BLOCK#B");
    remove_all(&mut store, &second);
    assert_eq!(store, after_first);
}

#[test]
fn orphan_prevention() {
    let mut store = sample_store();
    let found = run_query(&store, &annotations_query("IMAGE#I2"));
    let ids: Vec<String> = found
        .iter()
        .map(|sk| sk.strip_prefix("ANNOTATION#").unwrap().to_string())
        .collect();
    let plan = plan_image_removal("B", "I2", &ids);
    assert_eq!(plan.annotations.len(), 2);
    assert_eq!(plan.image_row.pk, "BLOCK#B");
    assert_eq!(plan.image_row.sk, "IMAGE#I2");
    for a in &plan.annotations {
        assert_eq!(a.key.pk, "IMAGE#I2");
        assert_eq!(a.counters.len(), 2);
        assert_eq!(a.counters[0].field, CounterField::AnnotationCount);
        assert_eq!(a.counters[0].delta, -1);
        assert_eq!(a.counters[1].key.sk, "IMAGE#I2");
    }
    let mut keys: Vec<StoreKey> = plan.annotations.iter().map(|a| a.key.clone()).collect();
    keys.push(plan.image_row.clone());
    remove_all(&mut store, &keys);
    assert!(run_query(&store, &annotations_query("IMAGE#I2")).is_empty());
    assert_eq!(run_query(&store, &annotations_query("IMAGE#I1")).len(), 2);
}

#[test]
fn batches_of_twenty_five() {
    let keys: Vec<StoreKey> = (0..60)
        .map(|i| StoreKey::new("BLOCK#B", &format!("LABEL#{}", i)))
        .collect();
    let batches = delete_batches(&keys);
    assert_eq!(BATCH_LIMIT, 25);
    assert_eq!(batches.len(), 3);
    assert_eq!(batches[0].len(), 25);
    assert_eq!(batches[1].len(), 25);
    assert_eq!(batches[2].len(), 10);
    assert_eq!(batches[2][9].sk, "LABEL#59");
    assert!(delete_batches(&vec![]).is_empty());
    let exact: Vec<StoreKey> = (0..25).map(|i| StoreKey::new("P", &i.to_string())).collect();
    assert_eq!(delete_batches(&exact).len(), 1);
}

#[test]
fn retry_policy() {
    assert_eq!(retry_delay(1, true), Some(100));
    assert_eq!(retry_delay(4, true), Some(400));
    assert_eq!(retry_delay(5, true), None);
    assert_eq!(retry_delay(2, false), None);
}

#[test]
fn listing_pages() {
    match next_page(Some(true), Some("tok".to_string())) {
        PageStep::Continue(Some(t)) => assert_eq!(t, "tok"),
        _ => panic!("expected a next page"),
    }
    assert!(matches!(next_page(Some(false), Some("tok".to_string())), PageStep::Stop));
    assert!(matches!(next_page(None, None), PageStep::Stop));
}
