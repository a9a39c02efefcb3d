use doxle_annotations::items::{
    annotations_from_items, blocks_from_items, decode_block, decode_image, decode_label,
    decode_task, decode_user, labels_from_items, tasks_from_items, Attr, AttrValue, Item,
};

fn s(name: &str, v: &str) -> Attr {
    Attr { name: name.to_string(), value: AttrValue::S(v.to_string()) }
}

fn n(name: &str, v: &str) -> Attr {
    Attr { name: name.to_string(), value: AttrValue::N(v.to_string()) }
}

fn b(name: &str, v: bool) -> Attr {
    Attr { name: name.to_string(), value: AttrValue::Bool(v) }
}

#[test]
fn task_read_with_defaults() {
    let item = Item {
        attrs: vec![
            s("task_name", "walls"),
            s("task_state", "done"),
            n("image_count", "12"),
            b("locked", true),
            s("assignee", "ann"),
        ],
    };
    let t = decode_task("B", "T", &item);
    assert_eq!(t.task_id, "T");
    assert_eq!(t.block_id, "B");
    assert_eq!(t.task_name, "walls");
    assert_eq!(t.task_state, "done");
    assert_eq!(t.image_count, 12);
    assert!(t.locked);
    assert_eq!(t.assignee, "ann");
    assert_eq!(t.checked_by, "");
    assert_eq!(t.created_at, "");
    let empty = decode_task("B", "T", &Item { attrs: vec![] });
    assert_eq!(empty.image_count, 0);
    assert!(!empty.locked);
    let negative = decode_task("B", "T", &Item { attrs: vec![n("image_count", "-1")] });
    assert_eq!(negative.image_count, 0);
    let mistyped = decode_task("B", "T", &Item { attrs: vec![s("image_count", "7")] });
    assert_eq!(mistyped.image_count, 0);
}

#[test]
fn image_read_with_order() {
    let item = Item {
        attrs: vec![s("url", "u"), n("order", "-5"), s("task_id", "T"), n("annotation_count", "3")],
    };
    let im = decode_image("B", "I", &item);
    assert_eq!(im.order, Some(-5));
    assert_eq!(im.task_id.as_deref(), Some("T"));
    assert_eq!(im.annotation_count, 3);
    let unordered = decode_image("B", "I", &Item { attrs: vec![n("order", "x")] });
    assert_eq!(unordered.order, None);
    assert_eq!(unordered.task_id, None);
}

#[test]
fn block_type_defaults_to_annotation() {
    let blk = decode_block("B", &Item { attrs: vec![s("block_name", "Level 1")] });
    assert_eq!(blk.block_type, "annotation");
    assert_eq!(blk.block_name, "Level 1");
    assert_eq!(blk.block_company, None);
    let typed = decode_block("B", &Item { attrs: vec![s("block_type", "floor"), n("approved_image_count", "4")] });
    assert_eq!(typed.block_type, "floor");
    assert_eq!(typed.approved_image_count, 4);
}

#[test]
fn label_without_color_is_refused() {
    assert!(decode_label("B", "L", &Item { attrs: vec![s("label_name", "x")] }).is_none());
    let l = decode_label("B", "L", &Item { attrs: vec![s("label_color", "#f00"), s("label_name", "x")] })
        .unwrap();
    assert_eq!(l.label_color, "#f00");
    assert_eq!(l.label_name, "x");
    let items = vec![
        Item { attrs: vec![s("SK", "LABEL#1"), s("label_color", "#f00")] },
        Item { attrs: vec![s("SK", "LABEL#2")] },
    ];
    assert!(labels_from_items("B", &items).is_none());
}

#[test]
fn annotation_without_geometry_is_refused() {
    let good = vec![Item {
        attrs: vec![s("SK", "ANNOTATION#a1"), s("geometry", "{\"type\":\"bbox\"}")],
    }];
    let read = annotations_from_items("I", &good).unwrap();
    assert_eq!(read.len(), 1);
    assert_eq!(read[0].annotation_id, "a1");
    assert_eq!(read[0].label_id, "default");
    assert_eq!(read[0].image_id, "I");
    let bad = vec![Item { attrs: vec![s("SK", "ANNOTATION#a2")] }];
    assert_eq!(annotations_from_items("I", &bad).unwrap_err(), "Missing geometry");
}

#[test]
fn blank_user_name_falls_back_to_email() {
    let item = Item { attrs: vec![s("user_name", "   "), s("user_email", "sam@example.com")] };
    let u = decode_user("U", &item, "now");
    assert_eq!(u.user_name, "sam");
    assert_eq!(u.user_last_login.as_deref(), Some("now"));
    let named = Item { attrs: vec![s("user_name", " Kim "), s("user_email", "k@example.com")] };
    assert_eq!(decode_user("U", &named, "now").user_name, " Kim ");
    let no_at = Item { attrs: vec![s("user_email", "plain")] };
    assert_eq!(decode_user("U", &no_at, "now").user_name, "plain");
}

#[test]
fn listings_keep_rows_of_their_kind() {
    let items = vec![
        Item { attrs: vec![s("SK", "TASK#t1"), s("task_name", "one")] },
        Item { attrs: vec![s("SK", "IMAGE#i1")] },
        Item { attrs: vec![s("task_name", "no key")] },
        Item { attrs: vec![s("SK", "TASK#t2"), s("task_name", "two")] },
    ];
    let tasks = tasks_from_items("B", &items);
    assert_eq!(tasks.len(), 2);
    assert_eq!(tasks[0].task_id, "t1");
    assert_eq!(tasks[1].task_name, "two");
    let blocks = blocks_from_items(&vec![Item { attrs: vec![s("SK", "BLOCK#b7")] }]);
    assert_eq!(blocks[0].block_id, "b7");
}
