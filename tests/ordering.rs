use doxle_annotations::join::join_tasks_with_images;
use doxle_annotations::model::{Image, Label, Task};
use doxle_annotations::ordering::{
    order_index_for, sort_images_by_order, sort_labels, sort_tasks_newest_first, text_less,
};

fn image(id: &str, task_id: Option<&str>, order: Option<i32>) -> Image {
    Image {
        image_id: id.to_string(),
        block_id: "B".to_string(),
        task_id: task_id.map(|t| t.to_string()),
        url: format!("https://bucket.s3.amazonaws.com/{}", id),
        locked: false,
        order,
        annotation_count: 0,
        uploaded_at: String::new(),
    }
}

fn label(name: &str) -> Label {
    Label {
        label_id: format!("id-{}", name),
        block_id: "B".to_string(),
        label_name: name.to_string(),
        label_color: "#fff".to_string(),
        label_properties: None,
        label_count: 0,
    }
}

fn task(id: &str, created_at: &str) -> Task {
    Task {
        task_id: id.to_string(),
        block_id: "B".to_string(),
        task_name: id.to_string(),
        task_state: "todo".to_string(),
        assignee: String::new(),
        checked_by: String::new(),
        locked: false,
        image_count: 0,
        created_at: created_at.to_string(),
        images: vec![],
    }
}

fn ids(images: &[Image]) -> Vec<String> {
    images.iter().map(|i| i.image_id.clone()).collect()
}

#[test]
fn ordering_law() {
    let sorted = sort_images_by_order(vec![
        image("a", None, Some(3)),
        image("b", None, None),
        image("c", None, Some(1)),
        image("d", None, None),
    ]);
    assert_eq!(ids(&sorted), vec!["c", "a", "b", "d"]);
    assert_eq!(sorted[0].order, Some(1));
    assert_eq!(sorted[1].order, Some(3));
}

#[test]
fn ordering_negative_and_equal_orders() {
    let sorted = sort_images_by_order(vec![
        image("a", None, Some(2)),
        image("b", None, Some(-7)),
        image("c", None, Some(2)),
        image("d", None, Some(i32::MIN)),
        image("e", None, Some(i32::MAX)),
    ]);
    assert_eq!(ids(&sorted), vec!["d", "b", "a", "c", "e"]);
    assert!(sort_images_by_order(vec![]).is_empty());
}

#[test]
fn label_ordering_law() {
    let sorted = sort_labels(
        vec![label("legend"), label("fp-outside"), label("custom-x")],
        Some("floor"),
    );
    let names: Vec<String> = sorted.iter().map(|l| l.label_name.clone()).collect();
    assert_eq!(names, vec!["fp-outside", "legend", "custom-x"]);
}

#[test]
fn label_ordering_unknown_names_alphabetical() {
    let sorted = sort_labels(
        vec![label("zeta"), label("downlight"), label("alpha"), label("gpo-double")],
        Some("electrical"),
    );
    let names: Vec<String> = sorted.iter().map(|l| l.label_name.clone()).collect();
    assert_eq!(names, vec!["downlight", "gpo-double", "alpha", "zeta"]);
    let untyped = sort_labels(vec![label("b"), label("a")], Some("annotation"));
    let names: Vec<String> = untyped.iter().map(|l| l.label_name.clone()).collect();
    assert_eq!(names, vec!["a", "b"]);
    let untyped_block = sort_labels(vec![label("b"), label("legend"), label("a")], None);
    let names: Vec<String> = untyped_block.iter().map(|l| l.label_name.clone()).collect();
    assert_eq!(names, vec!["a", "b", "legend"]);
}

#[test]
fn order_index_table() {
    assert_eq!(order_index_for("floor", "fp-outside"), Some(0));
    assert_eq!(order_index_for("floor", "legend"), Some(19));
    assert_eq!(order_index_for("elevation", "dims"), Some(11));
    assert_eq!(order_index_for("electrical", "gpo-double"), Some(2));
    assert_eq!(order_index_for("roof", "box-gutter"), Some(0));
    assert_eq!(order_index_for("roof", "legend"), None);
    assert_eq!(order_index_for("floor", "custom-x"), None);
    assert_eq!(order_index_for("annotation", "legend"), None);
}

#[test]
fn text_order_by_character() {
    assert!(text_less("a", "b"));
    assert!(text_less("ab", "abc"));
    assert!(!text_less("abc", "ab"));
    assert!(!text_less("same", "same"));
    assert!(text_less("Z", "a"));
    assert!(text_less("", "a"));
}

#[test]
fn tasks_newest_first() {
    let sorted = sort_tasks_newest_first(vec![
        task("old", "2024-01-01T00:00:00+00:00"),
        task("new", "2024-03-01T00:00:00+00:00"),
        task("mid1", "2024-02-01T00:00:00+00:00"),
        task("mid2", "2024-02-01T00:00:00+00:00"),
    ]);
    let names: Vec<String> = sorted.iter().map(|t| t.task_id.clone()).collect();
    assert_eq!(names, vec!["new", "mid1", "mid2", "old"]);
}

#[test]
fn tasks_joined_with_their_images() {
    let tasks = vec![task("t1", "1"), task("t2", "2"), task("t1", "3")];
    let images = vec![
        image("i1", Some("t1"), None),
        image("i2", Some("t1"), Some(5)),
        image("i3", Some("gone"), Some(1)),
        image("i4", None, Some(0)),
        image("i5", Some("t1"), Some(2)),
    ];
    let joined = join_tasks_with_images(tasks, images);
    assert_eq!(joined.len(), 3);
    assert_eq!(ids(&joined[0].images), vec!["i5", "i2", "i1"]);
    assert!(joined[1].images.is_empty());
    assert!(joined[2].images.is_empty());
    assert_eq!(joined[2].created_at, "3");
}
