use doxle_annotations::counters::{
    annotation_created_updates, annotation_deleted_updates, approved_after_image_created,
    approved_after_image_deleted, approved_delta_for_transition, image_created_updates,
    image_deleted_updates, task_update_counter, CounterField, CounterLedger, CounterUpdate,
};
use doxle_annotations::keys::{block_key, image_key, task_key};
use doxle_annotations::model::{Task, UpdateTaskPayload};

fn task(block_id: &str, task_id: &str, state: &str, image_count: u32) -> Task {
    Task {
        task_id: task_id.to_string(),
        block_id: block_id.to_string(),
        task_name: "walls".to_string(),
        task_state: state.to_string(),
        assignee: String::new(),
        checked_by: String::new(),
        locked: false,
        image_count,
        created_at: "2024-01-01T00:00:00+00:00".to_string(),
        images: vec![],
    }
}

fn apply(ledger: &mut CounterLedger, us: &Vec<CounterUpdate>) {
    ledger.apply_all(us);
}

fn state_payload(state: &str) -> UpdateTaskPayload {
    UpdateTaskPayload {
        task_name: None,
        task_state: Some(state.to_string()),
        assignee: None,
        checked_by: None,
    }
}

#[test]
fn transition_deltas() {
    assert_eq!(approved_delta_for_transition("todo", "done", 3), 3);
    assert_eq!(approved_delta_for_transition("in_progress", "done", 4), 4);
    assert_eq!(approved_delta_for_transition("done", "done", 3), 0);
    assert_eq!(approved_delta_for_transition("done", "todo", 3), -3);
    assert_eq!(approved_delta_for_transition("todo", "in_progress", 3), 0);
    assert_eq!(approved_delta_for_transition("todo", "done", 0), 0);
}

#[test]
fn image_creation_targets_block_then_task() {
    let us = image_created_updates("b1", &Some("t1".to_string()));
    assert_eq!(us.len(), 2);
    assert_eq!(us[0].key.pk, "BLOCK");
    assert_eq!(us[0].key.sk, "BLOCK#b1");
    assert_eq!(us[0].field, CounterField::ImageCount);
    assert_eq!(us[0].delta, 1);
    assert_eq!(us[1].key.pk, "BLOCK#b1");
    assert_eq!(us[1].key.sk, "TASK#t1");
    assert_eq!(us[1].field, CounterField::ImageCount);
    assert_eq!(us[1].delta, 1);
    let lone = image_created_updates("b1", &None);
    assert_eq!(lone.len(), 1);
    let gone = image_deleted_updates("b1", &Some("t1".to_string()));
    assert_eq!(gone.len(), 2);
    assert_eq!(gone[0].delta, -1);
    assert_eq!(gone[1].delta, -1);
}

#[test]
fn approved_bump_follows_task_state() {
    let done = approved_after_image_created("b1", &task("b1", "t1", "done", 1));
    assert_eq!(done.len(), 1);
    assert_eq!(done[0].field, CounterField::ApprovedImageCount);
    assert_eq!(done[0].delta, 1);
    assert_eq!(approved_after_image_created("b1", &task("b1", "t1", "todo", 1)).len(), 0);
    assert_eq!(approved_after_image_created("b1", &task("b1", "t1", "done", 0)).len(), 0);
    let removed = approved_after_image_deleted("b1", &task("b1", "t1", "done", 1));
    assert_eq!(removed.len(), 1);
    assert_eq!(removed[0].delta, -1);
    assert_eq!(approved_after_image_deleted("b1", &task("b1", "t1", "todo", 1)).len(), 0);
}

#[test]
fn task_update_counter_only_on_state_change() {
    let old = task("b1", "t1", "todo", 5);
    let us = task_update_counter("b1", &old, &state_payload("done"));
    assert_eq!(us.len(), 1);
    assert_eq!(us[0].delta, 5);
    let renamed = UpdateTaskPayload {
        task_name: Some("floors".to_string()),
        task_state: None,
        assignee: None,
        checked_by: None,
    };
    assert_eq!(task_update_counter("b1", &old, &renamed).len(), 0);
    let done = task("b1", "t1", "done", 5);
    assert_eq!(task_update_counter("b1", &done, &state_payload("done")).len(), 0);
    let back = task_update_counter("b1", &done, &state_payload("in_progress"));
    assert_eq!(back[0].delta, -5);
}

#[test]
fn annotation_counters() {
    let mut ledger = CounterLedger::new();
    apply(&mut ledger, &annotation_created_updates("b1", "i1"));
    apply(&mut ledger, &annotation_created_updates("b1", "i1"));
    apply(&mut ledger, &annotation_deleted_updates("b1", "i1"));
    assert_eq!(ledger.value(&block_key("b1"), CounterField::AnnotationCount), 1);
    assert_eq!(ledger.value(&image_key("b1", "i1"), CounterField::AnnotationCount), 1);
    assert_eq!(ledger.value(&block_key("b1"), CounterField::ImageCount), 0);
}

#[test]
fn counter_conservation() {
    let mut ledger = CounterLedger::new();
    let t = Some("t1".to_string());
    for _ in 0..3 {
        apply(&mut ledger, &image_created_updates("b1", &t));
    }
    apply(&mut ledger, &image_deleted_updates("b1", &t));
    apply(&mut ledger, &image_created_updates("b1", &None));
    apply(&mut ledger, &image_created_updates("b1", &Some("t2".to_string())));
    assert_eq!(ledger.value(&task_key("b1", "t1"), CounterField::ImageCount), 2);
    assert_eq!(ledger.value(&task_key("b1", "t2"), CounterField::ImageCount), 1);
    assert_eq!(ledger.value(&block_key("b1"), CounterField::ImageCount), 4);
}

#[test]
fn approved_count_correctness() {
    let mut ledger = CounterLedger::new();
    let t = Some("t1".to_string());
    apply(&mut ledger, &image_created_updates("b1", &t));
    apply(&mut ledger, &approved_after_image_created("b1", &task("b1", "t1", "done", 1)));
    assert_eq!(ledger.value(&block_key("b1"), CounterField::ApprovedImageCount), 1);
    apply(&mut ledger, &image_created_updates("b1", &Some("t2".to_string())));
    apply(&mut ledger, &approved_after_image_created("b1", &task("b1", "t2", "todo", 1)));
    assert_eq!(ledger.value(&block_key("b1"), CounterField::ApprovedImageCount), 1);
    let t3 = task("b1", "t3", "todo", 4);
    apply(&mut ledger, &task_update_counter("b1", &t3, &state_payload("done")));
    assert_eq!(ledger.value(&block_key("b1"), CounterField::ApprovedImageCount), 5);
    let t3_done = task("b1", "t3", "done", 4);
    apply(&mut ledger, &task_update_counter("b1", &t3_done, &state_payload("done")));
    assert_eq!(ledger.value(&block_key("b1"), CounterField::ApprovedImageCount), 5);
}

#[test]
fn concrete_scenario() {
    let mut ledger = CounterLedger::new();
    let b = block_key("B");
    let t = task_key("B", "T");
    assert_eq!(ledger.value(&b, CounterField::ImageCount), 0);
    assert_eq!(ledger.value(&b, CounterField::ApprovedImageCount), 0);
    assert_eq!(ledger.value(&b, CounterField::AnnotationCount), 0);
    let owner = Some("T".to_string());
    apply(&mut ledger, &image_created_updates("B", &owner));
    let read = task("B", "T", "todo", ledger.value(&t, CounterField::ImageCount) as u32);
    apply(&mut ledger, &approved_after_image_created("B", &read));
    assert_eq!(ledger.value(&b, CounterField::ImageCount), 1);
    assert_eq!(ledger.value(&t, CounterField::ImageCount), 1);
    assert_eq!(ledger.value(&b, CounterField::ApprovedImageCount), 0);
    let before = task("B", "T", "todo", ledger.value(&t, CounterField::ImageCount) as u32);
    apply(&mut ledger, &task_update_counter("B", &before, &state_payload("done")));
    assert_eq!(ledger.value(&b, CounterField::ApprovedImageCount), 1);
    apply(&mut ledger, &image_deleted_updates("B", &owner));
    let after = task("B", "T", "done", ledger.value(&t, CounterField::ImageCount) as u32);
    apply(&mut ledger, &approved_after_image_deleted("B", &after));
    assert_eq!(ledger.value(&b, CounterField::ImageCount), 0);
    assert_eq!(ledger.value(&t, CounterField::ImageCount), 0);
    assert_eq!(ledger.value(&b, CounterField::ApprovedImageCount), 0);
}
