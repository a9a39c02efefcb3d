//! The write side: rows put on create, and sparse field updates.
use vstd::prelude::*;
use crate::items::{Attr, AttrV, AttrValue, Item, attrs_view};
use crate::keys::{
    annotation_sk, annotation_tag, block_sk, block_tag, image_sk, image_tag, label_sk, label_tag,
    tagged, task_sk, task_tag, user_tag,
};
use crate::model::{
    AnnotationRecord, Block, CreateBlockPayload, CreateImagePayload, CreateLabelPayload,
    CreateTaskPayload, CreateUserPayload, Image, Label, Task, UpdateBlockPayload,
    UpdateImagePayload, UpdateLabelPayload, UpdateTaskPayload, UpdateUserPayload, User,
    copy_text, opt_text,
};
use crate::outside::{new_id, now_timestamp};

verus! {

pub type AttrSeq = Seq<(Seq<char>, AttrV)>;

pub open spec fn text_attr(name: Seq<char>, v: Seq<char>) -> (Seq<char>, AttrV) {
    (name, AttrV::S(v))
}

/// One text attribute where `o` holds a value, none otherwise.
pub open spec fn opt_text_attr(name: Seq<char>, o: Option<Seq<char>>) -> AttrSeq {
    match o {
        Some(v) => seq![text_attr(name, v)],
        None => Seq::empty(),
    }
}

pub open spec fn opt_int_attr(name: Seq<char>, o: Option<i32>) -> AttrSeq {
    match o {
        Some(v) => seq![(name, AttrV::Int(v as int))],
        None => Seq::empty(),
    }
}

pub open spec fn opt_flag_attr(name: Seq<char>, o: Option<bool>) -> AttrSeq {
    match o {
        Some(v) => seq![(name, AttrV::Bool(v))],
        None => Seq::empty(),
    }
}

/// A row to put, and the entity it stands for.
pub struct Created<T> {
    pub item: Item,
    pub record: T,
}

fn push_text(attrs: &mut Vec<Attr>, name: &str, v: &str)
    ensures
        attrs_view(final(attrs)@) == attrs_view(old(attrs)@).push(text_attr(name@, v@)),
{
    let ghost before = attrs_view(attrs@);
    attrs.push(Attr { name: name.to_string(), value: AttrValue::S(v.to_string()) });
    assert(attrs_view(attrs@) =~= before.push(text_attr(name@, v@)));
}

fn push_value(attrs: &mut Vec<Attr>, name: &str, value: AttrValue)
    ensures
        attrs_view(final(attrs)@) == attrs_view(old(attrs)@).push((name@, value@)),
{
    let ghost before = attrs_view(attrs@);
    attrs.push(Attr { name: name.to_string(), value });
    assert(attrs_view(attrs@) =~= before.push((name@, value@)));
}

fn push_opt_text(attrs: &mut Vec<Attr>, name: &str, o: &Option<String>)
    ensures
        attrs_view(final(attrs)@) == attrs_view(old(attrs)@) + opt_text_attr(name@, opt_text(*o)),
{
    let ghost before = attrs_view(attrs@);
    match o {
        Some(v) => push_text(attrs, name, v.as_str()),
        None => {},
    }
    assert(attrs_view(attrs@) =~= before + opt_text_attr(name@, opt_text(*o)));
}

fn push_opt_int(attrs: &mut Vec<Attr>, name: &str, o: Option<i32>)
    ensures
        attrs_view(final(attrs)@) == attrs_view(old(attrs)@) + opt_int_attr(name@, o),
{
    let ghost before = attrs_view(attrs@);
    match o {
        Some(v) => push_value(attrs, name, AttrValue::Int(v as i64)),
        None => {},
    }
    assert(attrs_view(attrs@) =~= before + opt_int_attr(name@, o));
}

fn push_opt_flag(attrs: &mut Vec<Attr>, name: &str, o: Option<bool>)
    ensures
        attrs_view(final(attrs)@) == attrs_view(old(attrs)@) + opt_flag_attr(name@, o),
{
    let ghost before = attrs_view(attrs@);
    match o {
        Some(v) => push_value(attrs, name, AttrValue::Bool(v)),
        None => {},
    }
    assert(attrs_view(attrs@) =~= before + opt_flag_attr(name@, o));
}

pub open spec fn block_row_spec(block_id: Seq<char>, now: Seq<char>, p: CreateBlockPayload) -> AttrSeq {
    seq![
        text_attr("PK"@, "BLOCK"@),
        text_attr("SK"@, block_tag() + block_id),
        text_attr("block_name"@, p.block_name@),
        text_attr("block_type"@, p.block_type@),
        text_attr("block_state"@, "draft"@),
        ("block_locked"@, AttrV::Bool(false)),
        ("image_count"@, AttrV::Int(0)),
        ("approved_image_count"@, AttrV::Int(0)),
        ("annotation_count"@, AttrV::Int(0)),
        text_attr("block_created_at"@, now),
    ] + opt_text_attr("block_company"@, opt_text(p.block_company))
}

/// The row of a new block, in state "draft", unlocked, every counter 0.
pub fn block_row(block_id: &str, now: &str, payload: &CreateBlockPayload) -> (r: Created<Block>)
    ensures
        attrs_view(r.item.attrs@) == block_row_spec(block_id@, now@, *payload),
        r.record.block_id@ == block_id@,
        r.record.block_name@ == payload.block_name@,
        r.record.block_type@ == payload.block_type@,
        r.record.block_company == payload.block_company,
        r.record.block_state@ == "draft"@,
        !r.record.block_locked,
        r.record.image_count == 0,
        r.record.approved_image_count == 0,
        r.record.annotation_count == 0,
        r.record.block_created_at@ == now@,
{
    let mut attrs: Vec<Attr> = Vec::new();
    let sk = block_sk(block_id);
    push_text(&mut attrs, "PK", "BLOCK");
    push_text(&mut attrs, "SK", sk.as_str());
    push_text(&mut attrs, "block_name", payload.block_name.as_str());
    push_text(&mut attrs, "block_type", payload.block_type.as_str());
    push_text(&mut attrs, "block_state", "draft");
    push_value(&mut attrs, "block_locked", AttrValue::Bool(false));
    push_value(&mut attrs, "image_count", AttrValue::Int(0));
    push_value(&mut attrs, "approved_image_count", AttrValue::Int(0));
    push_value(&mut attrs, "annotation_count", AttrValue::Int(0));
    push_text(&mut attrs, "block_created_at", now);
    let ghost fixed = attrs_view(attrs@);
    push_opt_text(&mut attrs, "block_company", &payload.block_company);
    assert(fixed =~= seq![
        text_attr("PK"@, "BLOCK"@),
        text_attr("SK"@, block_tag() + block_id@),
        text_attr("block_name"@, payload.block_name@),
        text_attr("block_type"@, payload.block_type@),
        text_attr("block_state"@, "draft"@),
        ("block_locked"@, AttrV::Bool(false)),
        ("image_count"@, AttrV::Int(0)),
        ("approved_image_count"@, AttrV::Int(0)),
        ("annotation_count"@, AttrV::Int(0)),
        text_attr("block_created_at"@, now@),
    ]);
    Created {
        item: Item { attrs },
        record: Block {
            block_id: block_id.to_string(),
            block_name: payload.block_name.clone(),
            block_type: payload.block_type.clone(),
            block_company: copy_text(&payload.block_company),
            block_state: String::from_str("draft"),
            block_locked: false,
            image_count: 0,
            approved_image_count: 0,
            annotation_count: 0,
            block_created_at: now.to_string(),
        },
    }
}

pub open spec fn task_row_spec(
    block_id: Seq<char>,
    task_id: Seq<char>,
    now: Seq<char>,
    p: CreateTaskPayload,
) -> AttrSeq {
    seq![
        text_attr("PK"@, block_tag() + block_id),
        text_attr("SK"@, task_tag() + task_id),
        text_attr("task_name"@, p.task_name@),
        text_attr("task_state"@, "todo"@),
        ("image_count"@, AttrV::Int(0)),
        text_attr("created_at"@, now),
        ("locked"@, AttrV::Bool(false)),
    ] + opt_text_attr("assignee"@, opt_text(p.assignee)) + opt_text_attr(
        "checked_by"@,
        opt_text(p.checked_by),
    )
}

pub open spec fn text_or_empty(o: Option<String>) -> Seq<char> {
    match o {
        Some(s) => s@,
        None => Seq::empty(),
    }
}

/// The row of a new task, in state "todo", unlocked, with no images.
pub fn task_row(block_id: &str, task_id: &str, now: &str, payload: &CreateTaskPayload) -> (r: Created<
    Task,
>)
    ensures
        attrs_view(r.item.attrs@) == task_row_spec(block_id@, task_id@, now@, *payload),
        r.record.task_id@ == task_id@,
        r.record.block_id@ == block_id@,
        r.record.task_name@ == payload.task_name@,
        r.record.task_state@ == "todo"@,
        r.record.assignee@ == text_or_empty(payload.assignee),
        r.record.checked_by@ == text_or_empty(payload.checked_by),
        !r.record.locked,
        r.record.image_count == 0,
        r.record.created_at@ == now@,
        r.record.images@.len() == 0,
{
    let mut attrs: Vec<Attr> = Vec::new();
    let pk = block_sk(block_id);
    let sk = task_sk(task_id);
    push_text(&mut attrs, "PK", pk.as_str());
    push_text(&mut attrs, "SK", sk.as_str());
    push_text(&mut attrs, "task_name", payload.task_name.as_str());
    push_text(&mut attrs, "task_state", "todo");
    push_value(&mut attrs, "image_count", AttrValue::Int(0));
    push_text(&mut attrs, "created_at", now);
    push_value(&mut attrs, "locked", AttrValue::Bool(false));
    let ghost fixed = attrs_view(attrs@);
    push_opt_text(&mut attrs, "assignee", &payload.assignee);
    push_opt_text(&mut attrs, "checked_by", &payload.checked_by);
    assert(fixed =~= seq![
        text_attr("PK"@, block_tag() + block_id@),
        text_attr("SK"@, task_tag() + task_id@),
        text_attr("task_name"@, payload.task_name@),
        text_attr("task_state"@, "todo"@),
        ("image_count"@, AttrV::Int(0)),
        text_attr("created_at"@, now@),
        ("locked"@, AttrV::Bool(false)),
    ]);
    let assignee = match &payload.assignee {
        Some(a) => a.clone(),
        None => String::new(),
    };
    let checked_by = match &payload.checked_by {
        Some(c) => c.clone(),
        None => String::new(),
    };
    Created {
        item: Item { attrs },
        record: Task {
            task_id: task_id.to_string(),
            block_id: block_id.to_string(),
            task_name: payload.task_name.clone(),
            task_state: String::from_str("todo"),
            assignee,
            checked_by,
            locked: false,
            image_count: 0,
            created_at: now.to_string(),
            images: Vec::new(),
        },
    }
}

pub open spec fn image_row_spec(
    block_id: Seq<char>,
    image_id: Seq<char>,
    now: Seq<char>,
    p: CreateImagePayload,
) -> AttrSeq {
    seq![
        text_attr("PK"@, block_tag() + block_id),
        text_attr("SK"@, image_tag() + image_id),
        text_attr("url"@, p.url@),
        ("locked"@, AttrV::Bool(false)),
        ("annotation_count"@, AttrV::Int(0)),
        text_attr("uploaded_at"@, now),
    ] + opt_text_attr("task_id"@, opt_text(p.task_id)) + opt_int_attr("order"@, p.order)
}

/// The row of a new image of a block, unlocked, with no annotations.
pub fn image_row(block_id: &str, image_id: &str, now: &str, payload: &CreateImagePayload) -> (r:
    Created<Image>)
    ensures
        attrs_view(r.item.attrs@) == image_row_spec(block_id@, image_id@, now@, *payload),
        r.record.image_id@ == image_id@,
        r.record.block_id@ == block_id@,
        r.record.task_id == payload.task_id,
        r.record.url@ == payload.url@,
        !r.record.locked,
        r.record.order == payload.order,
        r.record.annotation_count == 0,
        r.record.uploaded_at@ == now@,
{
    let mut attrs: Vec<Attr> = Vec::new();
    let pk = block_sk(block_id);
    let sk = image_sk(image_id);
    push_text(&mut attrs, "PK", pk.as_str());
    push_text(&mut attrs, "SK", sk.as_str());
    push_text(&mut attrs, "url", payload.url.as_str());
    push_value(&mut attrs, "locked", AttrValue::Bool(false));
    push_value(&mut attrs, "annotation_count", AttrValue::Int(0));
    push_text(&mut attrs, "uploaded_at", now);
    let ghost fixed = attrs_view(attrs@);
    push_opt_text(&mut attrs, "task_id", &payload.task_id);
    push_opt_int(&mut attrs, "order", payload.order);
    assert(fixed =~= seq![
        text_attr("PK"@, block_tag() + block_id@),
        text_attr("SK"@, image_tag() + image_id@),
        text_attr("url"@, payload.url@),
        ("locked"@, AttrV::Bool(false)),
        ("annotation_count"@, AttrV::Int(0)),
        text_attr("uploaded_at"@, now@),
    ]);
    Created {
        item: Item { attrs },
        record: Image {
            image_id: image_id.to_string(),
            block_id: block_id.to_string(),
            task_id: copy_text(&payload.task_id),
            url: payload.url.clone(),
            locked: false,
            order: payload.order,
            annotation_count: 0,
            uploaded_at: now.to_string(),
        },
    }
}

pub open spec fn label_row_spec(block_id: Seq<char>, label_id: Seq<char>, p: CreateLabelPayload) -> AttrSeq {
    seq![
        text_attr("PK"@, block_tag() + block_id),
        text_attr("SK"@, label_tag() + label_id),
        text_attr("label_name"@, p.label_name@),
        ("label_count"@, AttrV::Int(0)),
        text_attr("label_color"@, p.label_color@),
    ] + opt_text_attr("label_properties"@, opt_text(p.label_properties))
}

/// The row of a new label of a block, used by no annotation yet.
pub fn label_row(block_id: &str, label_id: &str, payload: &CreateLabelPayload) -> (r: Created<Label>)
    ensures
        attrs_view(r.item.attrs@) == label_row_spec(block_id@, label_id@, *payload),
        r.record.label_id@ == label_id@,
        r.record.block_id@ == block_id@,
        r.record.label_name@ == payload.label_name@,
        r.record.label_color@ == payload.label_color@,
        r.record.label_properties == payload.label_properties,
        r.record.label_count == 0,
{
    let mut attrs: Vec<Attr> = Vec::new();
    let pk = block_sk(block_id);
    let sk = label_sk(label_id);
    push_text(&mut attrs, "PK", pk.as_str());
    push_text(&mut attrs, "SK", sk.as_str());
    push_text(&mut attrs, "label_name", payload.label_name.as_str());
    push_value(&mut attrs, "label_count", AttrValue::Int(0));
    push_text(&mut attrs, "label_color", payload.label_color.as_str());
    let ghost fixed = attrs_view(attrs@);
    push_opt_text(&mut attrs, "label_properties", &payload.label_properties);
    assert(fixed =~= seq![
        text_attr("PK"@, block_tag() + block_id@),
        text_attr("SK"@, label_tag() + label_id@),
        text_attr("label_name"@, payload.label_name@),
        ("label_count"@, AttrV::Int(0)),
        text_attr("label_color"@, payload.label_color@),
    ]);
    Created {
        item: Item { attrs },
        record: Label {
            label_id: label_id.to_string(),
            block_id: block_id.to_string(),
            label_name: payload.label_name.clone(),
            label_color: payload.label_color.clone(),
            label_properties: copy_text(&payload.label_properties),
            label_count: 0,
        },
    }
}

pub open spec fn annotation_row_spec(
    image_id: Seq<char>,
    annotation_id: Seq<char>,
    label_id: Seq<char>,
    geometry: Seq<char>,
    user_id: Seq<char>,
    now: Seq<char>,
) -> AttrSeq {
    seq![
        text_attr("PK"@, image_tag() + image_id),
        text_attr("SK"@, annotation_tag() + annotation_id),
        text_attr("label_id"@, label_id),
        text_attr("geometry"@, geometry),
        text_attr("created_by"@, user_id),
        text_attr("created_at"@, now),
    ]
}

/// The row of a new annotation on an image; `geometry` is the serialized
/// shape.
pub fn annotation_row(
    image_id: &str,
    annotation_id: &str,
    label_id: &str,
    geometry: &str,
    user_id: &str,
    now: &str,
) -> (r: Created<AnnotationRecord>)
    ensures
        attrs_view(r.item.attrs@) == annotation_row_spec(
            image_id@,
            annotation_id@,
            label_id@,
            geometry@,
            user_id@,
            now@,
        ),
        r.record.annotation_id@ == annotation_id@,
        r.record.image_id@ == image_id@,
        r.record.label_id@ == label_id@,
        r.record.geometry@ == geometry@,
        r.record.created_by@ == user_id@,
        r.record.created_at@ == now@,
        r.record.updated_at is None,
{
    let mut attrs: Vec<Attr> = Vec::new();
    let pk = image_sk(image_id);
    let sk = annotation_sk(annotation_id);
    push_text(&mut attrs, "PK", pk.as_str());
    push_text(&mut attrs, "SK", sk.as_str());
    push_text(&mut attrs, "label_id", label_id);
    push_text(&mut attrs, "geometry", geometry);
    push_text(&mut attrs, "created_by", user_id);
    push_text(&mut attrs, "created_at", now);
    assert(attrs_view(attrs@) =~= annotation_row_spec(
        image_id@,
        annotation_id@,
        label_id@,
        geometry@,
        user_id@,
        now@,
    ));
    Created {
        item: Item { attrs },
        record: AnnotationRecord {
            annotation_id: annotation_id.to_string(),
            image_id: image_id.to_string(),
            label_id: label_id.to_string(),
            geometry: geometry.to_string(),
            created_by: user_id.to_string(),
            created_at: now.to_string(),
            updated_at: None,
        },
    }
}

pub open spec fn user_row_spec(user_id: Seq<char>, now: Seq<char>, p: CreateUserPayload) -> AttrSeq {
    seq![
        text_attr("PK"@, user_tag() + user_id),
        text_attr("SK"@, user_tag() + user_id),
        text_attr("user_name"@, p.user_name@),
        text_attr("user_email"@, p.user_email@),
        text_attr("user_role"@, p.user_role@),
        text_attr("user_created_at"@, now),
    ] + opt_text_attr("user_company"@, opt_text(p.user_company))
}

/// The row of a new user, keyed by the id the identity provider gave it.
pub fn user_row(user_id: &str, now: &str, payload: &CreateUserPayload) -> (r: Created<User>)
    ensures
        attrs_view(r.item.attrs@) == user_row_spec(user_id@, now@, *payload),
        r.record.user_id@ == user_id@,
        r.record.user_name@ == payload.user_name@,
        r.record.user_email@ == payload.user_email@,
        r.record.user_company == payload.user_company,
        r.record.user_role@ == payload.user_role@,
        r.record.user_created_at@ == now@,
        r.record.user_last_login is None,
{
    let mut attrs: Vec<Attr> = Vec::new();
    let pk = tagged("USER#", user_id);
    push_text(&mut attrs, "PK", pk.as_str());
    push_text(&mut attrs, "SK", pk.as_str());
    push_text(&mut attrs, "user_name", payload.user_name.as_str());
    push_text(&mut attrs, "user_email", payload.user_email.as_str());
    push_text(&mut attrs, "user_role", payload.user_role.as_str());
    push_text(&mut attrs, "user_created_at", now);
    let ghost fixed = attrs_view(attrs@);
    push_opt_text(&mut attrs, "user_company", &payload.user_company);
    assert(fixed =~= seq![
        text_attr("PK"@, user_tag() + user_id@),
        text_attr("SK"@, user_tag() + user_id@),
        text_attr("user_name"@, payload.user_name@),
        text_attr("user_email"@, payload.user_email@),
        text_attr("user_role"@, payload.user_role@),
        text_attr("user_created_at"@, now@),
    ]);
    Created {
        item: Item { attrs },
        record: User {
            user_id: user_id.to_string(),
            user_name: payload.user_name.clone(),
            user_email: payload.user_email.clone(),
            user_company: copy_text(&payload.user_company),
            user_role: payload.user_role.clone(),
            user_created_at: now.to_string(),
            user_last_login: None,
        },
    }
}

/// A new block under a fresh identifier, created now.
pub fn create_block_row(payload: &CreateBlockPayload) -> (r: Created<Block>)
    ensures
        r.record.block_id@.len() == 36,
        attrs_view(r.item.attrs@) == block_row_spec(
            r.record.block_id@,
            r.record.block_created_at@,
            *payload,
        ),
        r.record.block_name@ == payload.block_name@,
        r.record.block_type@ == payload.block_type@,
        r.record.block_company == payload.block_company,
        r.record.block_state@ == "draft"@,
        !r.record.block_locked,
        r.record.image_count == 0,
        r.record.approved_image_count == 0,
        r.record.annotation_count == 0,
{
    let id = new_id();
    let now = now_timestamp();
    block_row(id.as_str(), now.as_str(), payload)
}

/// A new task of block `block_id` under a fresh identifier, created now.
pub fn create_task_row(block_id: &str, payload: &CreateTaskPayload) -> (r: Created<Task>)
    ensures
        r.record.task_id@.len() == 36,
        attrs_view(r.item.attrs@) == task_row_spec(
            block_id@,
            r.record.task_id@,
            r.record.created_at@,
            *payload,
        ),
        r.record.block_id@ == block_id@,
        r.record.task_name@ == payload.task_name@,
        r.record.task_state@ == "todo"@,
        r.record.assignee@ == text_or_empty(payload.assignee),
        r.record.checked_by@ == text_or_empty(payload.checked_by),
        !r.record.locked,
        r.record.image_count == 0,
        r.record.images@.len() == 0,
{
    let id = new_id();
    let now = now_timestamp();
    task_row(block_id, id.as_str(), now.as_str(), payload)
}

/// A new image of block `block_id` under a fresh identifier, uploaded now.
pub fn create_image_row(block_id: &str, payload: &CreateImagePayload) -> (r: Created<Image>)
    ensures
        r.record.image_id@.len() == 36,
        attrs_view(r.item.attrs@) == image_row_spec(
            block_id@,
            r.record.image_id@,
            r.record.uploaded_at@,
            *payload,
        ),
        r.record.block_id@ == block_id@,
        r.record.task_id == payload.task_id,
        r.record.url@ == payload.url@,
        !r.record.locked,
        r.record.order == payload.order,
        r.record.annotation_count == 0,
{
    let id = new_id();
    let now = now_timestamp();
    image_row(block_id, id.as_str(), now.as_str(), payload)
}

/// The payload of an image created directly under task `task_id`.
pub fn image_payload_for_task(task_id: &str, url: String, order: Option<i32>) -> (r: CreateImagePayload)
    ensures
        opt_text(r.task_id) == Some(task_id@),
        r.url == url,
        r.order == order,
{
    CreateImagePayload { url, task_id: Some(task_id.to_string()), order }
}

/// A new label of block `block_id` under a fresh identifier.
pub fn create_label_row(block_id: &str, payload: &CreateLabelPayload) -> (r: Created<Label>)
    ensures
        r.record.label_id@.len() == 36,
        attrs_view(r.item.attrs@) == label_row_spec(block_id@, r.record.label_id@, *payload),
        r.record.block_id@ == block_id@,
        r.record.label_name@ == payload.label_name@,
        r.record.label_color@ == payload.label_color@,
        r.record.label_properties == payload.label_properties,
        r.record.label_count == 0,
{
    let id = new_id();
    label_row(block_id, id.as_str(), payload)
}

/// A new annotation on image `image_id` under a fresh identifier, created
/// now by `user_id`.
pub fn create_annotation_row(image_id: &str, label_id: &str, geometry: &str, user_id: &str) -> (r:
    Created<AnnotationRecord>)
    ensures
        r.record.annotation_id@.len() == 36,
        attrs_view(r.item.attrs@) == annotation_row_spec(
            image_id@,
            r.record.annotation_id@,
            label_id@,
            geometry@,
            user_id@,
            r.record.created_at@,
        ),
        r.record.image_id@ == image_id@,
        r.record.label_id@ == label_id@,
        r.record.geometry@ == geometry@,
        r.record.created_by@ == user_id@,
        r.record.updated_at is None,
{
    let id = new_id();
    let now = now_timestamp();
    annotation_row(image_id, id.as_str(), label_id, geometry, user_id, now.as_str())
}

/// Field a user read stamps with the login time.
pub fn login_fields(now: &str) -> (r: Vec<Attr>)
    ensures
        attrs_view(r@) == seq![text_attr("last_login"@, now@)],
{
    let mut r: Vec<Attr> = Vec::new();
    push_text(&mut r, "last_login", now);
    assert(attrs_view(r@) =~= seq![text_attr("last_login"@, now@)]);
    r
}

/// A user read from its item now, stamped as logged in now.
pub fn read_user_now(user_id: &str, item: &Item) -> (r: (User, Vec<Attr>))
    ensures
        r.0.user_id@ == user_id@,
        r.0.user_name@ == crate::items::user_name_spec(
            crate::items::text_or_empty(*item, "user_name"@),
            crate::items::text_or_empty(*item, "user_email"@),
        ),
        r.0.user_email@ == crate::items::text_or_empty(*item, "user_email"@),
        opt_text(r.0.user_company) == crate::items::text_of(*item, "user_company"@),
        r.0.user_role@ == crate::items::text_or_empty(*item, "user_role"@),
        r.0.user_created_at@ == crate::items::text_or_empty(*item, "user_created_at"@),
        r.0.user_last_login is Some,
        attrs_view(r.1@) == seq![text_attr("last_login"@, r.0.user_last_login.unwrap()@)],
{
    let now = now_timestamp();
    let user = crate::items::decode_user(user_id, item, now.as_str());
    let fields = login_fields(now.as_str());
    (user, fields)
}

/// A new user `user_id`, created now.
pub fn create_user_row(user_id: &str, payload: &CreateUserPayload) -> (r: Created<User>)
    ensures
        attrs_view(r.item.attrs@) == user_row_spec(user_id@, r.record.user_created_at@, *payload),
        r.record.user_id@ == user_id@,
        r.record.user_name@ == payload.user_name@,
        r.record.user_email@ == payload.user_email@,
        r.record.user_company == payload.user_company,
        r.record.user_role@ == payload.user_role@,
        r.record.user_last_login is None,
{
    let now = now_timestamp();
    user_row(user_id, now.as_str(), payload)
}

/// Fields a block update sets: only those the payload holds.
pub fn block_update_fields(p: &UpdateBlockPayload) -> (r: Vec<Attr>)
    ensures
        attrs_view(r@) == opt_text_attr("block_name"@, opt_text(p.block_name)) + opt_text_attr(
            "block_state"@,
            opt_text(p.block_state),
        ) + opt_flag_attr("block_locked"@, p.block_locked),
{
    let mut r: Vec<Attr> = Vec::new();
    assert(attrs_view(r@) =~= Seq::<(Seq<char>, AttrV)>::empty());
    push_opt_text(&mut r, "block_name", &p.block_name);
    push_opt_text(&mut r, "block_state", &p.block_state);
    push_opt_flag(&mut r, "block_locked", p.block_locked);
    r
}

/// Fields a task update sets: only those the payload holds.
pub fn task_update_fields(p: &UpdateTaskPayload) -> (r: Vec<Attr>)
    ensures
        attrs_view(r@) == opt_text_attr("task_name"@, opt_text(p.task_name)) + opt_text_attr(
            "task_state"@,
            opt_text(p.task_state),
        ) + opt_text_attr("assignee"@, opt_text(p.assignee)) + opt_text_attr(
            "checked_by"@,
            opt_text(p.checked_by),
        ),
{
    let mut r: Vec<Attr> = Vec::new();
    assert(attrs_view(r@) =~= Seq::<(Seq<char>, AttrV)>::empty());
    push_opt_text(&mut r, "task_name", &p.task_name);
    push_opt_text(&mut r, "task_state", &p.task_state);
    push_opt_text(&mut r, "assignee", &p.assignee);
    push_opt_text(&mut r, "checked_by", &p.checked_by);
    r
}

/// Fields an image update sets: always the update time, then those the
/// payload holds.
pub fn image_update_fields(now: &str, p: &UpdateImagePayload) -> (r: Vec<Attr>)
    ensures
        attrs_view(r@) == seq![text_attr("updated_at"@, now@)] + opt_flag_attr("locked"@, p.locked)
            + opt_int_attr("order"@, p.order),
{
    let mut r: Vec<Attr> = Vec::new();
    push_text(&mut r, "updated_at", now);
    assert(attrs_view(r@) =~= seq![text_attr("updated_at"@, now@)]);
    push_opt_flag(&mut r, "locked", p.locked);
    push_opt_int(&mut r, "order", p.order);
    r
}

/// Fields a label update sets: only those the payload holds. A new name is
/// stored under the attribute `name`.
pub fn label_update_fields(p: &UpdateLabelPayload) -> (r: Vec<Attr>)
    ensures
        attrs_view(r@) == opt_text_attr("name"@, opt_text(p.label_name)) + opt_text_attr(
            "label_color"@,
            opt_text(p.label_color),
        ) + opt_text_attr("label_properties"@, opt_text(p.label_properties)),
{
    let mut r: Vec<Attr> = Vec::new();
    assert(attrs_view(r@) =~= Seq::<(Seq<char>, AttrV)>::empty());
    push_opt_text(&mut r, "name", &p.label_name);
    push_opt_text(&mut r, "label_color", &p.label_color);
    push_opt_text(&mut r, "label_properties", &p.label_properties);
    r
}

/// Fields an annotation update sets: always the update time, then the label
/// and the serialized geometry where given.
pub fn annotation_update_fields(now: &str, label_id: &Option<String>, geometry: &Option<String>) -> (r:
    Vec<Attr>)
    ensures
        attrs_view(r@) == seq![text_attr("updated_at"@, now@)] + opt_text_attr(
            "label_id"@,
            opt_text(*label_id),
        ) + opt_text_attr("geometry"@, opt_text(*geometry)),
{
    let mut r: Vec<Attr> = Vec::new();
    push_text(&mut r, "updated_at", now);
    assert(attrs_view(r@) =~= seq![text_attr("updated_at"@, now@)]);
    push_opt_text(&mut r, "label_id", label_id);
    push_opt_text(&mut r, "geometry", geometry);
    r
}

/// Fields an annotation update sets, stamped with the current time.
pub fn stamped_annotation_update(label_id: &Option<String>, geometry: &Option<String>) -> (r: Vec<
    Attr,
>)
    ensures
        attrs_view(r@).len() >= 1,
        attrs_view(r@).subrange(1, attrs_view(r@).len() as int) == opt_text_attr(
            "label_id"@,
            opt_text(*label_id),
        ) + opt_text_attr("geometry"@, opt_text(*geometry)),
        attrs_view(r@)[0].0 == "updated_at"@,
{
    let now = now_timestamp();
    let r = annotation_update_fields(now.as_str(), label_id, geometry);
    assert(attrs_view(r@).subrange(1, attrs_view(r@).len() as int) =~= opt_text_attr(
        "label_id"@,
        opt_text(*label_id),
    ) + opt_text_attr("geometry"@, opt_text(*geometry)));
    r
}

/// Fields an image update sets, stamped with the current time.
pub fn stamped_image_update(p: &UpdateImagePayload) -> (r: Vec<Attr>)
    ensures
        attrs_view(r@).len() >= 1,
        attrs_view(r@).subrange(1, attrs_view(r@).len() as int) == opt_flag_attr(
            "locked"@,
            p.locked,
        ) + opt_int_attr("order"@, p.order),
        attrs_view(r@)[0].0 == "updated_at"@,
{
    let now = now_timestamp();
    let r = image_update_fields(now.as_str(), p);
    assert(attrs_view(r@).subrange(1, attrs_view(r@).len() as int) =~= opt_flag_attr(
        "locked"@,
        p.locked,
    ) + opt_int_attr("order"@, p.order));
    r
}

/// Fields a user update sets: only those the payload holds.
pub fn user_update_fields(p: &UpdateUserPayload) -> (r: Vec<Attr>)
    ensures
        attrs_view(r@) == opt_text_attr("user_name"@, opt_text(p.user_name)) + opt_text_attr(
            "user_company"@,
            opt_text(p.user_company),
        ) + opt_text_attr("user_role"@, opt_text(p.user_role)),
{
    let mut r: Vec<Attr> = Vec::new();
    assert(attrs_view(r@) =~= Seq::<(Seq<char>, AttrV)>::empty());
    push_opt_text(&mut r, "user_name", &p.user_name);
    push_opt_text(&mut r, "user_company", &p.user_company);
    push_opt_text(&mut r, "user_role", &p.user_role);
    r
}

/// `#f = :f` for each field `f`, joined by ", ".
pub open spec fn assignments(names: Seq<Seq<char>>) -> Seq<char>
    decreases names.len(),
{
    if names.len() == 0 {
        Seq::empty()
    } else if names.len() == 1 {
        "#"@ + names[0] + " = :"@ + names[0]
    } else {
        assignments(names.drop_last()) + ", #"@ + names.last() + " = :"@ + names.last()
    }
}

pub open spec fn field_names(fields: Seq<Attr>) -> Seq<Seq<char>> {
    fields.map_values(|a: Attr| a.name@)
}

/// The update expression that sets `fields`, each through the placeholders
/// `#name` and `:name`; `None` where there is nothing to set.
pub fn update_expression(fields: &Vec<Attr>) -> (r: Option<String>)
    ensures
        fields.len() == 0 <==> r is None,
        r is Some ==> r.unwrap()@ == "SET "@ + assignments(field_names(fields@)),
{
    if fields.len() == 0 {
        return None;
    }
    let mut s = String::from_str("SET ");
    let mut i: usize = 0;
    while i < fields.len()
        invariant
            i <= fields.len(),
            s@ == "SET "@ + assignments(field_names(fields@).subrange(0, i as int)),
        decreases fields.len() - i,
    {
        let ghost names = field_names(fields@).subrange(0, i + 1);
        assert(names.drop_last() =~= field_names(fields@).subrange(0, i as int));
        assert(names.last() == fields@[i as int].name@);
        let ghost before = s@;
        if i > 0 {
            s.append(", ");
        }
        s.append("#");
        s.append(fields[i].name.as_str());
        s.append(" = :");
        s.append(fields[i].name.as_str());
        proof {
            let n = fields@[i as int].name@;
            if i == 0 {
                assert(names.len() == 1);
                assert(s@ =~= "SET "@ + ("#"@ + n + " = :"@ + n));
            } else {
                assert(s@ =~= "SET "@ + (assignments(names.drop_last()) + ", #"@ + n + " = :"@
                    + n)) by {
                    reveal_strlit(", ");
                    reveal_strlit("#");
                    reveal_strlit(", #");
                }
            }
        }
        i = i + 1;
    }
    assert(field_names(fields@).subrange(0, i as int) =~= field_names(fields@));
    Some(s)
}

} // verus!
