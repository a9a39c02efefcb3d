use doxle_annotations::items::{AttrValue, Item};
use doxle_annotations::workflow::{plan_image_creation, plan_image_deletion, plan_task_update};
use doxle_annotations::model::{
    CreateImagePayload, CreateTaskPayload, UpdateImagePayload, UpdateTaskPayload,
};
use doxle_annotations::rows::{
    annotation_update_fields, create_image_row, create_task_row, image_payload_for_task,
    image_update_fields, stamped_image_update,
    task_row, task_update_fields, update_expression,
};

fn text(item: &Item, name: &str) -> Option<String> {
    item.text(name)
}

#[test]
fn task_row_is_a_todo_with_no_images() {
    let payload = CreateTaskPayload {
        task_name: "walls".to_string(),
        assignee: Some("ann".to_string()),
        checked_by: None,
    };
    let row = task_row("B", "T", "2024-01-01T00:00:00Z", &payload);
    assert_eq!(text(&row.item, "PK").as_deref(), Some("BLOCK#B"));
    assert_eq!(text(&row.item, "SK").as_deref(), Some("TASK#T"));
    assert_eq!(text(&row.item, "task_state").as_deref(), Some("todo"));
    assert!(matches!(row.item.get("image_count"), Some(AttrValue::Int(0))));
    assert_eq!(text(&row.item, "assignee").as_deref(), Some("ann"));
    assert!(row.item.get("checked_by").is_none());
    assert_eq!(row.record.assignee, "ann");
    assert_eq!(row.record.checked_by, "");
    assert_eq!(row.record.image_count, 0);
}

#[test]
fn fresh_rows_get_new_identifiers() {
    let payload = CreateTaskPayload { task_name: "x".to_string(), assignee: None, checked_by: None };
    let a = create_task_row("B", &payload);
    let b = create_task_row("B", &payload);
    assert_eq!(a.record.task_id.chars().count(), 36);
    assert_ne!(a.record.task_id, b.record.task_id);
    assert_eq!(text(&a.item, "SK"), Some(format!("TASK#{}", a.record.task_id)));
    assert!(!a.record.created_at.is_empty());
}

#[test]
fn image_row_for_task() {
    let payload = image_payload_for_task("T", "https://x/y.png".to_string(), None);
    let row = create_image_row("B", &payload);
    assert_eq!(row.record.task_id.as_deref(), Some("T"));
    assert_eq!(text(&row.item, "task_id").as_deref(), Some("T"));
    assert!(row.item.get("order").is_none());
    let ordered = CreateImagePayload { url: "u".to_string(), task_id: None, order: Some(4) };
    let row = create_image_row("B", &ordered);
    assert!(matches!(row.item.get("order"), Some(AttrValue::Int(4))));
    assert!(row.item.get("task_id").is_none());
}

#[test]
fn sparse_task_update() {
    let p = UpdateTaskPayload {
        task_name: None,
        task_state: Some("done".to_string()),
        assignee: None,
        checked_by: Some("rev".to_string()),
    };
    let fields = task_update_fields(&p);
    assert_eq!(fields.len(), 2);
    assert_eq!(fields[0].name, "task_state");
    assert_eq!(fields[1].name, "checked_by");
    assert_eq!(
        update_expression(&fields).unwrap(),
        "SET #task_state = :task_state, #checked_by = :checked_by"
    );
    let none = UpdateTaskPayload { task_name: None, task_state: None, assignee: None, checked_by: None };
    assert!(update_expression(&task_update_fields(&none)).is_none());
}

#[test]
fn annotation_update_always_stamps_time() {
    let fields = annotation_update_fields("now", &None, &None);
    assert_eq!(fields.len(), 1);
    assert_eq!(update_expression(&fields).unwrap(), "SET #updated_at = :updated_at");
    let more = annotation_update_fields("now", &Some("L".to_string()), &Some("{}".to_string()));
    assert_eq!(more.len(), 3);
    assert_eq!(more[2].name, "geometry");
}

#[test]
fn image_creation_plan_reads_the_task_back() {
    let payload = image_payload_for_task("T", "u".to_string(), Some(2));
    let plan = plan_image_creation("B", &payload);
    assert_eq!(plan.counters.len(), 2);
    let key = plan.task_to_read.unwrap();
    assert_eq!(key.pk, "BLOCK#B");
    assert_eq!(key.sk, "TASK#T");
    let loose = CreateImagePayload { url: "u".to_string(), task_id: None, order: None };
    let plan = plan_image_creation("B", &loose);
    assert_eq!(plan.counters.len(), 1);
    assert!(plan.task_to_read.is_none());
    let deletion = plan_image_deletion("B", &plan.row.record);
    assert!(deletion.task_to_read.is_none());
    assert_eq!(deletion.counters[0].delta, -1);
    assert_eq!(deletion.annotations.pk, format!("IMAGE#{}", plan.row.record.image_id));
    assert_eq!(deletion.annotations.sk_prefix, "ANNOTATION#");
    let old = create_task_row("B", &CreateTaskPayload { task_name: "t".to_string(), assignee: None, checked_by: None }).record;
    let none = UpdateTaskPayload { task_name: None, task_state: None, assignee: None, checked_by: None };
    let quiet = plan_task_update("B", &old, &none);
    assert!(quiet.fields.is_empty());
    assert!(quiet.counters.is_empty());
}

#[test]
fn image_update_always_stamps_time() {
    let p = UpdateImagePayload { locked: Some(true), order: None };
    let fields = image_update_fields("now", &p);
    assert_eq!(fields.len(), 2);
    assert_eq!(fields[0].name, "updated_at");
    assert!(matches!(&fields[0].value, AttrValue::S(t) if t == "now"));
    assert_eq!(fields[1].name, "locked");
    assert_eq!(update_expression(&fields).unwrap(), "SET #updated_at = :updated_at, #locked = :locked");
    let empty = UpdateImagePayload { locked: None, order: None };
    let stamped = stamped_image_update(&empty);
    assert_eq!(stamped.len(), 1);
    assert_eq!(stamped[0].name, "updated_at");
    assert!(matches!(&stamped[0].value, AttrValue::S(t) if !t.is_empty()));
}
