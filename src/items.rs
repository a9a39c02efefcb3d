//! Store items as attribute lists, and the entities read back from them.
//! A missing or mistyped attribute falls back to the entity's default.
use vstd::prelude::*;
use crate::keys::{has_prefix, same_text, strip_prefix};
use crate::model::{AnnotationRecord, Block, Image, Label, Task, User, opt_text};
use crate::decimal::{decimal_i32, decimal_u32, parse_i32, parse_u32};
use crate::outside::{trim_text, trimmed};

verus! {

/// One attribute value of a stored item. A number read back is kept as the
/// decimal text the store transmits (`N`); a number to be written is held as
/// an integer (`Int`).
#[derive(Clone, Debug)]
pub enum AttrValue {
    S(String),
    N(String),
    Int(i64),
    Bool(bool),
    Other,
}

pub enum AttrV {
    S(Seq<char>),
    N(Seq<char>),
    Int(int),
    Bool(bool),
    Other,
}

impl View for AttrValue {
    type V = AttrV;

    open spec fn view(&self) -> AttrV {
        match self {
            AttrValue::S(s) => AttrV::S(s@),
            AttrValue::N(s) => AttrV::N(s@),
            AttrValue::Int(v) => AttrV::Int(*v as int),
            AttrValue::Bool(b) => AttrV::Bool(*b),
            AttrValue::Other => AttrV::Other,
        }
    }
}

#[derive(Clone, Debug)]
pub struct Attr {
    pub name: String,
    pub value: AttrValue,
}

impl View for Attr {
    type V = (Seq<char>, AttrV);

    open spec fn view(&self) -> (Seq<char>, AttrV) {
        (self.name@, self.value@)
    }
}

pub open spec fn attrs_view(v: Seq<Attr>) -> Seq<(Seq<char>, AttrV)> {
    v.map_values(|a: Attr| a@)
}

/// A stored item: its attributes by name.
#[derive(Clone, Debug)]
pub struct Item {
    pub attrs: Vec<Attr>,
}

/// The first attribute of `attrs` at or after `i` named `name`.
pub open spec fn lookup_from(attrs: Seq<Attr>, name: Seq<char>, i: int) -> Option<AttrValue>
    decreases attrs.len() - i,
{
    if i < 0 || i >= attrs.len() {
        None
    } else if attrs[i].name@ == name {
        Some(attrs[i].value)
    } else {
        lookup_from(attrs, name, i + 1)
    }
}

pub open spec fn lookup(item: Item, name: Seq<char>) -> Option<AttrValue> {
    lookup_from(item.attrs@, name, 0)
}

pub open spec fn text_of(item: Item, name: Seq<char>) -> Option<Seq<char>> {
    match lookup(item, name) {
        Some(AttrValue::S(s)) => Some(s@),
        _ => None,
    }
}

pub open spec fn text_or_empty(item: Item, name: Seq<char>) -> Seq<char> {
    match text_of(item, name) {
        Some(s) => s,
        None => Seq::empty(),
    }
}

pub open spec fn flag_of(item: Item, name: Seq<char>) -> Option<bool> {
    match lookup(item, name) {
        Some(AttrValue::Bool(b)) => Some(b),
        _ => None,
    }
}

pub open spec fn flag_or_false(item: Item, name: Seq<char>) -> bool {
    match flag_of(item, name) {
        Some(b) => b,
        None => false,
    }
}

pub open spec fn count_of(item: Item, name: Seq<char>) -> Option<u32> {
    match lookup(item, name) {
        Some(AttrValue::N(s)) => decimal_u32(s@),
        _ => None,
    }
}

pub open spec fn count_or_zero(item: Item, name: Seq<char>) -> u32 {
    match count_of(item, name) {
        Some(v) => v,
        None => 0,
    }
}

pub open spec fn int_of(item: Item, name: Seq<char>) -> Option<i32> {
    match lookup(item, name) {
        Some(AttrValue::N(s)) => decimal_i32(s@),
        _ => None,
    }
}

impl Item {
    /// The attribute named `name`.
    pub fn get(&self, name: &str) -> (r: Option<&AttrValue>)
        ensures
            match r {
                Some(v) => lookup(*self, name@) == Some(*v),
                None => lookup(*self, name@) is None,
            },
    {
        let mut i: usize = 0;
        while i < self.attrs.len()
            invariant
                i <= self.attrs.len(),
                lookup_from(self.attrs@, name@, 0) == lookup_from(self.attrs@, name@, i as int),
            decreases self.attrs.len() - i,
        {
            if same_text(self.attrs[i].name.as_str(), name) {
                return Some(&self.attrs[i].value);
            }
            i = i + 1;
        }
        None
    }

    /// The text attribute named `name`.
    pub fn text(&self, name: &str) -> (r: Option<String>)
        ensures
            opt_text(r) == text_of(*self, name@),
    {
        match self.get(name) {
            Some(AttrValue::S(s)) => Some(s.clone()),
            _ => None,
        }
    }

    pub fn text_or_default(&self, name: &str) -> (r: String)
        ensures
            r@ == text_or_empty(*self, name@),
    {
        match self.text(name) {
            Some(s) => s,
            None => String::new(),
        }
    }

    pub fn flag_or_default(&self, name: &str) -> (r: bool)
        ensures
            r == flag_or_false(*self, name@),
    {
        match self.get(name) {
            Some(AttrValue::Bool(b)) => *b,
            _ => false,
        }
    }

    /// The unsigned number attribute named `name`, where it parses as one.
    pub fn count(&self, name: &str) -> (r: Option<u32>)
        ensures
            r == count_of(*self, name@),
    {
        match self.get(name) {
            Some(AttrValue::N(s)) => parse_u32(s.as_str()),
            _ => None,
        }
    }

    pub fn count_or_default(&self, name: &str) -> (r: u32)
        ensures
            r == count_or_zero(*self, name@),
    {
        match self.count(name) {
            Some(v) => v,
            None => 0,
        }
    }

    /// The signed number attribute named `name`, where it parses as one.
    pub fn signed(&self, name: &str) -> (r: Option<i32>)
        ensures
            r == int_of(*self, name@),
    {
        match self.get(name) {
            Some(AttrValue::N(s)) => parse_i32(s.as_str()),
            _ => None,
        }
    }
}

/// `t` is the task `task_id` of block `block_id` as `item` stores it.
pub open spec fn decodes_task(t: Task, block_id: Seq<char>, task_id: Seq<char>, item: Item) -> bool {
    &&& t.task_id@ == task_id
    &&& t.block_id@ == block_id
    &&& t.task_name@ == text_or_empty(item, "task_name"@)
    &&& t.task_state@ == text_or_empty(item, "task_state"@)
    &&& t.assignee@ == text_or_empty(item, "assignee"@)
    &&& t.checked_by@ == text_or_empty(item, "checked_by"@)
    &&& t.locked == flag_or_false(item, "locked"@)
    &&& t.image_count == count_or_zero(item, "image_count"@)
    &&& t.created_at@ == text_or_empty(item, "created_at"@)
    &&& t.images@.len() == 0
}

/// The task `task_id` of block `block_id` read from its item.
pub fn decode_task(block_id: &str, task_id: &str, item: &Item) -> (r: Task)
    ensures
        decodes_task(r, block_id@, task_id@, *item),
{
    Task {
        task_id: task_id.to_string(),
        block_id: block_id.to_string(),
        task_name: item.text_or_default("task_name"),
        task_state: item.text_or_default("task_state"),
        assignee: item.text_or_default("assignee"),
        checked_by: item.text_or_default("checked_by"),
        locked: item.flag_or_default("locked"),
        image_count: item.count_or_default("image_count"),
        created_at: item.text_or_default("created_at"),
        images: Vec::new(),
    }
}

pub open spec fn decodes_image(im: Image, block_id: Seq<char>, image_id: Seq<char>, item: Item) -> bool {
    &&& im.image_id@ == image_id
    &&& im.block_id@ == block_id
    &&& opt_text(im.task_id) == text_of(item, "task_id"@)
    &&& im.url@ == text_or_empty(item, "url"@)
    &&& im.locked == flag_or_false(item, "locked"@)
    &&& im.order == int_of(item, "order"@)
    &&& im.annotation_count == count_or_zero(item, "annotation_count"@)
    &&& im.uploaded_at@ == text_or_empty(item, "uploaded_at"@)
}

/// The image `image_id` of block `block_id` read from its item.
pub fn decode_image(block_id: &str, image_id: &str, item: &Item) -> (r: Image)
    ensures
        decodes_image(r, block_id@, image_id@, *item),
{
    Image {
        image_id: image_id.to_string(),
        block_id: block_id.to_string(),
        task_id: item.text("task_id"),
        url: item.text_or_default("url"),
        locked: item.flag_or_default("locked"),
        order: item.signed("order"),
        annotation_count: item.count_or_default("annotation_count"),
        uploaded_at: item.text_or_default("uploaded_at"),
    }
}

pub open spec fn decodes_block(b: Block, block_id: Seq<char>, item: Item) -> bool {
    &&& b.block_id@ == block_id
    &&& b.block_name@ == text_or_empty(item, "block_name"@)
    &&& b.block_type@ == match text_of(item, "block_type"@) {
        Some(s) => s,
        None => "annotation"@,
    }
    &&& opt_text(b.block_company) == text_of(item, "block_company"@)
    &&& b.block_state@ == text_or_empty(item, "block_state"@)
    &&& b.block_locked == flag_or_false(item, "block_locked"@)
    &&& b.image_count == count_or_zero(item, "image_count"@)
    &&& b.approved_image_count == count_or_zero(item, "approved_image_count"@)
    &&& b.annotation_count == count_or_zero(item, "annotation_count"@)
    &&& b.block_created_at@ == text_or_empty(item, "block_created_at"@)
}

/// The block `block_id` read from its item; a block without a type is an
/// "annotation" block.
pub fn decode_block(block_id: &str, item: &Item) -> (r: Block)
    ensures
        decodes_block(r, block_id@, *item),
{
    let block_type = match item.text("block_type") {
        Some(t) => t,
        None => String::from_str("annotation"),
    };
    Block {
        block_id: block_id.to_string(),
        block_name: item.text_or_default("block_name"),
        block_type,
        block_company: item.text("block_company"),
        block_state: item.text_or_default("block_state"),
        block_locked: item.flag_or_default("block_locked"),
        image_count: item.count_or_default("image_count"),
        approved_image_count: item.count_or_default("approved_image_count"),
        annotation_count: item.count_or_default("annotation_count"),
        block_created_at: item.text_or_default("block_created_at"),
    }
}

pub open spec fn decodes_label(l: Label, block_id: Seq<char>, label_id: Seq<char>, item: Item) -> bool {
    &&& l.label_id@ == label_id
    &&& l.block_id@ == block_id
    &&& l.label_name@ == text_or_empty(item, "label_name"@)
    &&& Some(l.label_color@) == text_of(item, "label_color"@)
    &&& opt_text(l.label_properties) == text_of(item, "label_properties"@)
    &&& l.label_count == count_or_zero(item, "label_count"@)
}

/// The label `label_id` of block `block_id` read from its item; `None` where
/// the item has no color, which every label row is written with.
pub fn decode_label(block_id: &str, label_id: &str, item: &Item) -> (r: Option<Label>)
    ensures
        r is None <==> text_of(*item, "label_color"@) is None,
        r is Some ==> decodes_label(r.unwrap(), block_id@, label_id@, *item),
{
    match item.text("label_color") {
        None => None,
        Some(label_color) => Some(
            Label {
                label_id: label_id.to_string(),
                block_id: block_id.to_string(),
                label_name: item.text_or_default("label_name"),
                label_color,
                label_properties: item.text("label_properties"),
                label_count: item.count_or_default("label_count"),
            },
        ),
    }
}

pub open spec fn decodes_annotation(
    a: AnnotationRecord,
    image_id: Seq<char>,
    annotation_id: Seq<char>,
    item: Item,
) -> bool {
    &&& a.annotation_id@ == annotation_id
    &&& a.image_id@ == image_id
    &&& a.label_id@ == match text_of(item, "label_id"@) {
        Some(s) => s,
        None => "default"@,
    }
    &&& Some(a.geometry@) == text_of(item, "geometry"@)
    &&& a.created_by@ == text_or_empty(item, "created_by"@)
    &&& a.created_at@ == text_or_empty(item, "created_at"@)
    &&& opt_text(a.updated_at) == text_of(item, "updated_at"@)
}

/// The annotation `annotation_id` of image `image_id` read from its item; an
/// item without a geometry is refused.
pub fn decode_annotation(image_id: &str, annotation_id: &str, item: &Item) -> (r: Result<
    AnnotationRecord,
    String,
>)
    ensures
        r is Err <==> text_of(*item, "geometry"@) is None,
        r is Ok ==> decodes_annotation(r->Ok_0, image_id@, annotation_id@, *item),
{
    match item.text("geometry") {
        None => Err(String::from_str("Missing geometry")),
        Some(geometry) => {
            let label_id = match item.text("label_id") {
                Some(l) => l,
                None => String::from_str("default"),
            };
            Ok(
                AnnotationRecord {
                    annotation_id: annotation_id.to_string(),
                    image_id: image_id.to_string(),
                    label_id,
                    geometry,
                    created_by: item.text_or_default("created_by"),
                    created_at: item.text_or_default("created_at"),
                    updated_at: item.text("updated_at"),
                },
            )
        },
    }
}

/// Part of `email` before its first '@' (all of it where there is none).
pub open spec fn local_part(email: Seq<char>) -> Seq<char>
    decreases email.len(),
{
    if email.len() == 0 {
        Seq::empty()
    } else if email[0] == '@' {
        Seq::empty()
    } else {
        seq![email[0]] + local_part(email.drop_first())
    }
}

pub proof fn lemma_local_part_step(email: Seq<char>, i: int)
    requires
        0 <= i < email.len(),
        forall|j: int| 0 <= j < i ==> email[j] != '@',
    ensures
        local_part(email) == email.subrange(0, i) + local_part(email.subrange(i, email.len() as int)),
    decreases i,
{
    if i > 0 {
        let rest = email.drop_first();
        lemma_local_part_step(rest, i - 1);
        assert(rest.subrange(0, i - 1) =~= email.subrange(1, i));
        assert(rest.subrange(i - 1, rest.len() as int) =~= email.subrange(i, email.len() as int));
        assert(seq![email[0]] + email.subrange(1, i) =~= email.subrange(0, i));
    } else {
        assert(email.subrange(0, 0) + local_part(email) =~= local_part(email));
        assert(email.subrange(0, email.len() as int) =~= email);
    }
}

/// The part of `email` before its first '@'.
pub fn email_local_part(email: &str) -> (r: String)
    ensures
        r@ == local_part(email@),
{
    let n = email.unicode_len();
    let mut i: usize = 0;
    let mut at_sign = false;
    while i < n && !at_sign
        invariant
            n == email@.len(),
            i <= n,
            at_sign ==> i < n && email@[i as int] == '@',
            forall|j: int| 0 <= j < i ==> email@[j] != '@',
        decreases n - i + if at_sign {
            0int
        } else {
            1int
        },
    {
        if email.get_char(i) == '@' {
            at_sign = true;
        } else {
            i = i + 1;
        }
    }
    proof {
        if at_sign {
            lemma_local_part_step(email@, i as int);
            assert(local_part(email@.subrange(i as int, n as int)) == Seq::<char>::empty()) by {
                assert(email@.subrange(i as int, n as int)[0] == '@');
            }
            assert(email@.subrange(0, i as int) + Seq::<char>::empty() =~= email@.subrange(
                0,
                i as int,
            ));
        } else {
            assert forall|k: int| 0 <= k <= n implies local_part(email@.subrange(k, n as int))
                == email@.subrange(k, n as int) by {
                lemma_local_part_tail(email@, k);
            }
            assert(email@.subrange(0, n as int) =~= email@);
        }
    }
    email.substring_char(0, i).to_string()
}

proof fn lemma_local_part_tail(email: Seq<char>, k: int)
    requires
        0 <= k <= email.len(),
        forall|j: int| 0 <= j < email.len() ==> email[j] != '@',
    ensures
        local_part(email.subrange(k, email.len() as int)) == email.subrange(k, email.len() as int),
    decreases email.len() - k,
{
    let s = email.subrange(k, email.len() as int);
    if k < email.len() {
        lemma_local_part_tail(email, k + 1);
        assert(s.drop_first() =~= email.subrange(k + 1, email.len() as int));
        assert(seq![s[0]] + s.drop_first() =~= s);
    } else {
        assert(s =~= Seq::<char>::empty());
    }
}

pub open spec fn user_name_spec(stored: Seq<char>, email: Seq<char>) -> Seq<char> {
    if trimmed(stored).len() == 0 {
        local_part(email)
    } else {
        stored
    }
}

/// The user `user_id` read from its item at login time `now`. A blank name
/// falls back to the part of the email before its '@'.
pub fn decode_user(user_id: &str, item: &Item, now: &str) -> (r: User)
    ensures
        r.user_id@ == user_id@,
        r.user_name@ == user_name_spec(
            text_or_empty(*item, "user_name"@),
            text_or_empty(*item, "user_email"@),
        ),
        r.user_email@ == text_or_empty(*item, "user_email"@),
        opt_text(r.user_company) == text_of(*item, "user_company"@),
        r.user_role@ == text_or_empty(*item, "user_role"@),
        r.user_created_at@ == text_or_empty(*item, "user_created_at"@),
        opt_text(r.user_last_login) == Some(now@),
{
    let stored = item.text_or_default("user_name");
    let user_email = item.text_or_default("user_email");
    let user_name = if trim_text(stored.as_str()).unicode_len() == 0 {
        email_local_part(user_email.as_str())
    } else {
        stored
    };
    User {
        user_id: user_id.to_string(),
        user_name,
        user_email,
        user_company: item.text("user_company"),
        user_role: item.text_or_default("user_role"),
        user_created_at: item.text_or_default("user_created_at"),
        user_last_login: Some(now.to_string()),
    }
}

/// Positions of the items whose sort key starts with `prefix`, in order.
pub open spec fn keyed_positions(items: Seq<Item>, prefix: Seq<char>) -> Seq<int>
    decreases items.len(),
{
    if items.len() == 0 {
        Seq::empty()
    } else {
        let rest = keyed_positions(items.drop_last(), prefix);
        match text_of(items.last(), "SK"@) {
            Some(sk) => if has_prefix(sk, prefix) {
                rest.push(items.len() - 1)
            } else {
                rest
            },
            None => rest,
        }
    }
}

/// The id that item `item` stores after `prefix` in its sort key.
pub open spec fn keyed_id(item: Item, prefix: Seq<char>) -> Seq<char> {
    let sk = text_or_empty(item, "SK"@);
    sk.subrange(prefix.len() as int, sk.len() as int)
}

/// For each item whose sort key starts with `prefix`, its position and the
/// id after the prefix.
pub fn keyed_rows(items: &Vec<Item>, prefix: &str) -> (r: Vec<(usize, String)>)
    ensures
        r@.len() == keyed_positions(items@, prefix@).len(),
        forall|j: int|
            0 <= j < r@.len() ==> {
                &&& (#[trigger] r@[j]).0 as int == keyed_positions(items@, prefix@)[j]
                &&& r@[j].0 < items.len()
                &&& r@[j].1@ == keyed_id(items@[r@[j].0 as int], prefix@)
            },
{
    let mut r: Vec<(usize, String)> = Vec::new();
    let mut i: usize = 0;
    while i < items.len()
        invariant
            i <= items.len(),
            r@.len() == keyed_positions(items@.subrange(0, i as int), prefix@).len(),
            forall|j: int|
                0 <= j < r@.len() ==> {
                    &&& (#[trigger] r@[j]).0 as int == keyed_positions(
                        items@.subrange(0, i as int),
                        prefix@,
                    )[j]
                    &&& r@[j].0 < i
                    &&& r@[j].1@ == keyed_id(items@[r@[j].0 as int], prefix@)
                },
        decreases items.len() - i,
    {
        let ghost next = items@.subrange(0, i + 1);
        assert(next.drop_last() =~= items@.subrange(0, i as int));
        assert(next.last() == items@[i as int]);
        match items[i].text("SK") {
            Some(sk) => {
                match strip_prefix(sk.as_str(), prefix) {
                    Some(id) => {
                        r.push((i, id));
                    },
                    None => {},
                }
            },
            None => {},
        }
        i = i + 1;
    }
    assert(items@.subrange(0, i as int) =~= items@);
    r
}

/// The tasks of block `block_id` among the items of a query of its
/// partition, in query order.
pub fn tasks_from_items(block_id: &str, items: &Vec<Item>) -> (r: Vec<Task>)
    ensures
        r.len() == keyed_positions(items@, "TASK#"@).len(),
        forall|j: int|
            0 <= j < r.len() ==> decodes_task(
                #[trigger] r@[j],
                block_id@,
                keyed_id(items@[keyed_positions(items@, "TASK#"@)[j]], "TASK#"@),
                items@[keyed_positions(items@, "TASK#"@)[j]],
            ),
{
    let rows = keyed_rows(items, "TASK#");
    let mut r: Vec<Task> = Vec::new();
    let mut j: usize = 0;
    while j < rows.len()
        invariant
            j <= rows.len(),
            r.len() == j,
            rows@.len() == keyed_positions(items@, "TASK#"@).len(),
            forall|q: int|
                0 <= q < rows@.len() ==> {
                    &&& (#[trigger] rows@[q]).0 as int == keyed_positions(items@, "TASK#"@)[q]
                    &&& rows@[q].0 < items.len()
                    &&& rows@[q].1@ == keyed_id(items@[rows@[q].0 as int], "TASK#"@)
                },
            forall|q: int|
                0 <= q < j ==> decodes_task(
                    #[trigger] r@[q],
                    block_id@,
                    keyed_id(items@[keyed_positions(items@, "TASK#"@)[q]], "TASK#"@),
                    items@[keyed_positions(items@, "TASK#"@)[q]],
                ),
        decreases rows.len() - j,
    {
        let (pos, id) = (rows[j].0, &rows[j].1);
        let ghost _p = rows@[j as int];
        r.push(decode_task(block_id, id.as_str(), &items[pos]));
        j = j + 1;
    }
    r
}

/// The images of block `block_id` among the items of a query of its
/// partition, in query order.
pub fn images_from_items(block_id: &str, items: &Vec<Item>) -> (r: Vec<Image>)
    ensures
        r.len() == keyed_positions(items@, "IMAGE#"@).len(),
        forall|j: int|
            0 <= j < r.len() ==> decodes_image(
                #[trigger] r@[j],
                block_id@,
                keyed_id(items@[keyed_positions(items@, "IMAGE#"@)[j]], "IMAGE#"@),
                items@[keyed_positions(items@, "IMAGE#"@)[j]],
            ),
{
    let rows = keyed_rows(items, "IMAGE#");
    let mut r: Vec<Image> = Vec::new();
    let mut j: usize = 0;
    while j < rows.len()
        invariant
            j <= rows.len(),
            r.len() == j,
            rows@.len() == keyed_positions(items@, "IMAGE#"@).len(),
            forall|q: int|
                0 <= q < rows@.len() ==> {
                    &&& (#[trigger] rows@[q]).0 as int == keyed_positions(items@, "IMAGE#"@)[q]
                    &&& rows@[q].0 < items.len()
                    &&& rows@[q].1@ == keyed_id(items@[rows@[q].0 as int], "IMAGE#"@)
                },
            forall|q: int|
                0 <= q < j ==> decodes_image(
                    #[trigger] r@[q],
                    block_id@,
                    keyed_id(items@[keyed_positions(items@, "IMAGE#"@)[q]], "IMAGE#"@),
                    items@[keyed_positions(items@, "IMAGE#"@)[q]],
                ),
        decreases rows.len() - j,
    {
        let (pos, id) = (rows[j].0, &rows[j].1);
        let ghost _p = rows@[j as int];
        r.push(decode_image(block_id, id.as_str(), &items[pos]));
        j = j + 1;
    }
    r
}

/// The labels of block `block_id` among the items of a query of its
/// partition, in query order; `None` where one of them has no color.
pub fn labels_from_items(block_id: &str, items: &Vec<Item>) -> (r: Option<Vec<Label>>)
    ensures
        r is Some <==> forall|j: int|
            0 <= j < keyed_positions(items@, "LABEL#"@).len() ==> text_of(
                items@[#[trigger] keyed_positions(items@, "LABEL#"@)[j]],
                "label_color"@,
            ) is Some,
        r is Some ==> r.unwrap().len() == keyed_positions(items@, "LABEL#"@).len(),
        r is Some ==> forall|j: int|
            0 <= j < r.unwrap().len() ==> decodes_label(
                #[trigger] r.unwrap()@[j],
                block_id@,
                keyed_id(items@[keyed_positions(items@, "LABEL#"@)[j]], "LABEL#"@),
                items@[keyed_positions(items@, "LABEL#"@)[j]],
            ),
{
    let rows = keyed_rows(items, "LABEL#");
    let mut r: Vec<Label> = Vec::new();
    let mut j: usize = 0;
    while j < rows.len()
        invariant
            j <= rows.len(),
            r.len() == j,
            rows@.len() == keyed_positions(items@, "LABEL#"@).len(),
            forall|q: int|
                0 <= q < rows@.len() ==> {
                    &&& (#[trigger] rows@[q]).0 as int == keyed_positions(items@, "LABEL#"@)[q]
                    &&& rows@[q].0 < items.len()
                    &&& rows@[q].1@ == keyed_id(items@[rows@[q].0 as int], "LABEL#"@)
                },
            forall|q: int|
                0 <= q < j ==> text_of(
                    items@[#[trigger] keyed_positions(items@, "LABEL#"@)[q]],
                    "label_color"@,
                ) is Some,
            forall|q: int|
                0 <= q < j ==> decodes_label(
                    #[trigger] r@[q],
                    block_id@,
                    keyed_id(items@[keyed_positions(items@, "LABEL#"@)[q]], "LABEL#"@),
                    items@[keyed_positions(items@, "LABEL#"@)[q]],
                ),
        decreases rows.len() - j,
    {
        let (pos, id) = (rows[j].0, &rows[j].1);
        let ghost _p = rows@[j as int];
        match decode_label(block_id, id.as_str(), &items[pos]) {
            Some(l) => r.push(l),
            None => {
                return None;
            },
        }
        j = j + 1;
    }
    Some(r)
}

/// The annotations of image `image_id` among the items of a query of its
/// partition, in query order; an error where one of them has no geometry.
pub fn annotations_from_items(image_id: &str, items: &Vec<Item>) -> (r: Result<
    Vec<AnnotationRecord>,
    String,
>)
    ensures
        r is Ok <==> forall|j: int|
            0 <= j < keyed_positions(items@, "ANNOTATION#"@).len() ==> text_of(
                items@[#[trigger] keyed_positions(items@, "ANNOTATION#"@)[j]],
                "geometry"@,
            ) is Some,
        r is Ok ==> (r->Ok_0).len() == keyed_positions(items@, "ANNOTATION#"@).len(),
        r is Ok ==> forall|j: int|
            0 <= j < (r->Ok_0).len() ==> decodes_annotation(
                #[trigger] (r->Ok_0)@[j],
                image_id@,
                keyed_id(items@[keyed_positions(items@, "ANNOTATION#"@)[j]], "ANNOTATION#"@),
                items@[keyed_positions(items@, "ANNOTATION#"@)[j]],
            ),
{
    let rows = keyed_rows(items, "ANNOTATION#");
    let mut r: Vec<AnnotationRecord> = Vec::new();
    let mut j: usize = 0;
    while j < rows.len()
        invariant
            j <= rows.len(),
            r.len() == j,
            rows@.len() == keyed_positions(items@, "ANNOTATION#"@).len(),
            forall|q: int|
                0 <= q < rows@.len() ==> {
                    &&& (#[trigger] rows@[q]).0 as int == keyed_positions(
                        items@,
                        "ANNOTATION#"@,
                    )[q]
                    &&& rows@[q].0 < items.len()
                    &&& rows@[q].1@ == keyed_id(items@[rows@[q].0 as int], "ANNOTATION#"@)
                },
            forall|q: int|
                0 <= q < j ==> text_of(
                    items@[#[trigger] keyed_positions(items@, "ANNOTATION#"@)[q]],
                    "geometry"@,
                ) is Some,
            forall|q: int|
                0 <= q < j ==> decodes_annotation(
                    #[trigger] r@[q],
                    image_id@,
                    keyed_id(items@[keyed_positions(items@, "ANNOTATION#"@)[q]], "ANNOTATION#"@),
                    items@[keyed_positions(items@, "ANNOTATION#"@)[q]],
                ),
        decreases rows.len() - j,
    {
        let (pos, id) = (rows[j].0, &rows[j].1);
        let ghost _p = rows@[j as int];
        match decode_annotation(image_id, id.as_str(), &items[pos]) {
            Ok(a) => r.push(a),
            Err(e) => {
                return Err(e);
            },
        }
        j = j + 1;
    }
    Ok(r)
}

/// The blocks among the items of a query of the block partition, in query
/// order.
pub fn blocks_from_items(items: &Vec<Item>) -> (r: Vec<Block>)
    ensures
        r.len() == keyed_positions(items@, "BLOCK#"@).len(),
        forall|j: int|
            0 <= j < r.len() ==> decodes_block(
                #[trigger] r@[j],
                keyed_id(items@[keyed_positions(items@, "BLOCK#"@)[j]], "BLOCK#"@),
                items@[keyed_positions(items@, "BLOCK#"@)[j]],
            ),
{
    let rows = keyed_rows(items, "BLOCK#");
    let mut r: Vec<Block> = Vec::new();
    let mut j: usize = 0;
    while j < rows.len()
        invariant
            j <= rows.len(),
            r.len() == j,
            rows@.len() == keyed_positions(items@, "BLOCK#"@).len(),
            forall|q: int|
                0 <= q < rows@.len() ==> {
                    &&& (#[trigger] rows@[q]).0 as int == keyed_positions(items@, "BLOCK#"@)[q]
                    &&& rows@[q].0 < items.len()
                    &&& rows@[q].1@ == keyed_id(items@[rows@[q].0 as int], "BLOCK#"@)
                },
            forall|q: int|
                0 <= q < j ==> decodes_block(
                    #[trigger] r@[q],
                    keyed_id(items@[keyed_positions(items@, "BLOCK#"@)[q]], "BLOCK#"@),
                    items@[keyed_positions(items@, "BLOCK#"@)[q]],
                ),
        decreases rows.len() - j,
    {
        let (pos, id) = (rows[j].0, &rows[j].1);
        let ghost _p = rows@[j as int];
        r.push(decode_block(id.as_str(), &items[pos]));
        j = j + 1;
    }
    r
}

} // verus!
