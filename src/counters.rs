//! Counter propagation: which aggregate counters move on each mutation, and
//! by how much.
//!
//! Every adjustment is an atomic increment-by-delta on one numeric field of
//! one row. A value of a counter is the sum of the deltas applied to it.
use vstd::prelude::*;
use crate::keys::{
    block_key, block_key_of, image_key, image_key_of, label_key, label_key_of, same_text,
    task_key, task_key_of, block_tag, root_tag, task_tag,
};
use crate::model::{Task, UpdateTaskPayload, opt_text};

verus! {

/// A numeric aggregate field of a row.
#[derive(Clone, Copy, Debug, PartialEq, Eq, Structural)]
pub enum CounterField {
    ImageCount,
    ApprovedImageCount,
    AnnotationCount,
    LabelCount,
}

pub open spec fn attribute_of(f: CounterField) -> Seq<char> {
    match f {
        CounterField::ImageCount => "image_count"@,
        CounterField::ApprovedImageCount => "approved_image_count"@,
        CounterField::AnnotationCount => "annotation_count"@,
        CounterField::LabelCount => "label_count"@,
    }
}

impl CounterField {
    /// Name of the attribute that holds this counter.
    pub fn attribute_name(&self) -> (r: &'static str)
        ensures
            r@ == attribute_of(*self),
    {
        match self {
            CounterField::ImageCount => "image_count",
            CounterField::ApprovedImageCount => "approved_image_count",
            CounterField::AnnotationCount => "annotation_count",
            CounterField::LabelCount => "label_count",
        }
    }
}

/// Add `delta` to `field` of the row at `key`.
#[derive(Clone, Debug)]
pub struct CounterUpdate {
    pub key: crate::keys::StoreKey,
    pub field: CounterField,
    pub delta: i64,
}

pub type KeyV = (Seq<char>, Seq<char>);

pub type UpdateV = (KeyV, CounterField, int);

impl View for CounterUpdate {
    type V = UpdateV;

    open spec fn view(&self) -> UpdateV {
        (self.key@, self.field, self.delta as int)
    }
}

pub open spec fn updates_view(v: Seq<CounterUpdate>) -> Seq<UpdateV> {
    v.map_values(|u: CounterUpdate| u@)
}

pub open spec fn done_state() -> Seq<char> {
    "done"@
}

/// Sum of the deltas in `us` that target `field` of `key`.
pub open spec fn counter_total(us: Seq<UpdateV>, key: KeyV, field: CounterField) -> int
    decreases us.len(),
{
    if us.len() == 0 {
        0
    } else {
        let u = us.last();
        counter_total(us.drop_last(), key, field) + if u.0 == key && u.1 == field {
            u.2
        } else {
            0
        }
    }
}

pub open spec fn image_created_spec(block_id: Seq<char>, task_id: Option<Seq<char>>) -> Seq<
    UpdateV,
> {
    seq![(block_key_of(block_id), CounterField::ImageCount, 1int)] + match task_id {
        Some(t) => seq![(task_key_of(block_id, t), CounterField::ImageCount, 1int)],
        None => Seq::<UpdateV>::empty(),
    }
}

pub open spec fn image_deleted_spec(block_id: Seq<char>, task_id: Option<Seq<char>>) -> Seq<
    UpdateV,
> {
    seq![(block_key_of(block_id), CounterField::ImageCount, -1int)] + match task_id {
        Some(t) => seq![(task_key_of(block_id, t), CounterField::ImageCount, -1int)],
        None => Seq::<UpdateV>::empty(),
    }
}

/// The approved-image bump after an image joined a task that was read back
/// with `state` and `image_count`.
pub open spec fn approved_after_create_spec(
    block_id: Seq<char>,
    state: Seq<char>,
    image_count: int,
) -> Seq<UpdateV> {
    if image_count > 0 && state == done_state() {
        seq![(block_key_of(block_id), CounterField::ApprovedImageCount, 1int)]
    } else {
        Seq::empty()
    }
}

pub open spec fn approved_after_delete_spec(block_id: Seq<char>, state: Seq<char>) -> Seq<
    UpdateV,
> {
    if state == done_state() {
        seq![(block_key_of(block_id), CounterField::ApprovedImageCount, -1int)]
    } else {
        Seq::empty()
    }
}

pub open spec fn annotation_created_spec(block_id: Seq<char>, image_id: Seq<char>) -> Seq<
    UpdateV,
> {
    seq![
        (block_key_of(block_id), CounterField::AnnotationCount, 1int),
        (image_key_of(block_id, image_id), CounterField::AnnotationCount, 1int),
    ]
}

pub open spec fn annotation_deleted_spec(block_id: Seq<char>, image_id: Seq<char>) -> Seq<
    UpdateV,
> {
    seq![
        (block_key_of(block_id), CounterField::AnnotationCount, -1int),
        (image_key_of(block_id, image_id), CounterField::AnnotationCount, -1int),
    ]
}

/// Change of the approved-image count when a task with `image_count`
/// images moves from `old_state` to `new_state`.
pub open spec fn transition_delta(old_state: Seq<char>, new_state: Seq<char>, image_count: int) -> int {
    if old_state == done_state() && new_state == done_state() {
        0
    } else if old_state == done_state() {
        -image_count
    } else if new_state == done_state() {
        image_count
    } else {
        0
    }
}

pub open spec fn task_update_spec(
    block_id: Seq<char>,
    old_state: Seq<char>,
    image_count: int,
    new_state: Option<Seq<char>>,
) -> Seq<UpdateV> {
    match new_state {
        Some(s) => if transition_delta(old_state, s, image_count) != 0 {
            seq![
                (
                    block_key_of(block_id),
                    CounterField::ApprovedImageCount,
                    transition_delta(old_state, s, image_count),
                ),
            ]
        } else {
            Seq::empty()
        },
        None => Seq::empty(),
    }
}

fn bump(key: crate::keys::StoreKey, field: CounterField, delta: i64) -> (r: CounterUpdate)
    ensures
        r@ == (key@, field, delta as int),
{
    CounterUpdate { key, field, delta }
}

/// Counter adjustments after an image row was written: the block's image
/// count, then the owning task's image count.
pub fn image_created_updates(block_id: &str, task_id: &Option<String>) -> (r: Vec<CounterUpdate>)
    ensures
        updates_view(r@) == image_created_spec(block_id@, opt_text(*task_id)),
{
    let mut r: Vec<CounterUpdate> = Vec::new();
    r.push(bump(block_key(block_id), CounterField::ImageCount, 1));
    match task_id {
        Some(t) => r.push(bump(task_key(block_id, t.as_str()), CounterField::ImageCount, 1)),
        None => {},
    }
    assert(updates_view(r@) =~= image_created_spec(block_id@, opt_text(*task_id)));
    r
}

/// Counter adjustments when an image is deleted.
pub fn image_deleted_updates(block_id: &str, task_id: &Option<String>) -> (r: Vec<CounterUpdate>)
    ensures
        updates_view(r@) == image_deleted_spec(block_id@, opt_text(*task_id)),
{
    let mut r: Vec<CounterUpdate> = Vec::new();
    r.push(bump(block_key(block_id), CounterField::ImageCount, -1));
    match task_id {
        Some(t) => r.push(bump(task_key(block_id, t.as_str()), CounterField::ImageCount, -1)),
        None => {},
    }
    assert(updates_view(r@) =~= image_deleted_spec(block_id@, opt_text(*task_id)));
    r
}

/// The approved-image bump after an image was added to `task`, as read back
/// after its image count was raised: one, when the task is done and holds
/// images; none otherwise.
pub fn approved_after_image_created(block_id: &str, task: &Task) -> (r: Vec<CounterUpdate>)
    ensures
        updates_view(r@) == approved_after_create_spec(
            block_id@,
            task.task_state@,
            task.image_count as int,
        ),
{
    let mut r: Vec<CounterUpdate> = Vec::new();
    if task.image_count > 0 && same_text(task.task_state.as_str(), "done") {
        r.push(bump(block_key(block_id), CounterField::ApprovedImageCount, 1));
    }
    assert(updates_view(r@) =~= approved_after_create_spec(
        block_id@,
        task.task_state@,
        task.image_count as int,
    ));
    r
}

/// The approved-image decrement after an image of `task` was removed: one,
/// when the task is done.
pub fn approved_after_image_deleted(block_id: &str, task: &Task) -> (r: Vec<CounterUpdate>)
    ensures
        updates_view(r@) == approved_after_delete_spec(block_id@, task.task_state@),
{
    let mut r: Vec<CounterUpdate> = Vec::new();
    if same_text(task.task_state.as_str(), "done") {
        r.push(bump(block_key(block_id), CounterField::ApprovedImageCount, -1));
    }
    assert(updates_view(r@) =~= approved_after_delete_spec(block_id@, task.task_state@));
    r
}

/// Counter adjustments when an annotation is created on an image.
pub fn annotation_created_updates(block_id: &str, image_id: &str) -> (r: Vec<CounterUpdate>)
    ensures
        updates_view(r@) == annotation_created_spec(block_id@, image_id@),
{
    let mut r: Vec<CounterUpdate> = Vec::new();
    r.push(bump(block_key(block_id), CounterField::AnnotationCount, 1));
    r.push(bump(image_key(block_id, image_id), CounterField::AnnotationCount, 1));
    assert(updates_view(r@) =~= annotation_created_spec(block_id@, image_id@));
    r
}

/// Counter adjustments when an annotation is deleted from an image.
pub fn annotation_deleted_updates(block_id: &str, image_id: &str) -> (r: Vec<CounterUpdate>)
    ensures
        updates_view(r@) == annotation_deleted_spec(block_id@, image_id@),
{
    let mut r: Vec<CounterUpdate> = Vec::new();
    r.push(bump(block_key(block_id), CounterField::AnnotationCount, -1));
    r.push(bump(image_key(block_id, image_id), CounterField::AnnotationCount, -1));
    assert(updates_view(r@) =~= annotation_deleted_spec(block_id@, image_id@));
    r
}

/// Adjustment of a label's usage count by `delta`.
pub fn label_count_update(block_id: &str, label_id: &str, delta: i32) -> (r: CounterUpdate)
    ensures
        r@ == (label_key_of(block_id@, label_id@), CounterField::LabelCount, delta as int),
{
    bump(label_key(block_id, label_id), CounterField::LabelCount, delta as i64)
}

/// Change of the block's approved-image count when a task holding
/// `image_count` images moves from `old_state` to `new_state`.
pub fn approved_delta_for_transition(old_state: &str, new_state: &str, image_count: u32) -> (r: i64)
    ensures
        r as int == transition_delta(old_state@, new_state@, image_count as int),
        old_state@ == done_state() && new_state@ == done_state() ==> r == 0,
        old_state@ != done_state() && new_state@ == done_state() ==> r == image_count as int,
        old_state@ == done_state() && new_state@ != done_state() ==> r == -(image_count as int),
        old_state@ != done_state() && new_state@ != done_state() ==> r == 0,
{
    let was_done = same_text(old_state, "done");
    let is_done = same_text(new_state, "done");
    if was_done && is_done {
        0
    } else if was_done {
        -(image_count as i64)
    } else if is_done {
        image_count as i64
    } else {
        0
    }
}

/// Counter adjustment for a task update, computed from the task as read
/// before the write: a change of the block's approved-image count by the
/// task's image count when the update moves it into or out of "done".
pub fn task_update_counter(block_id: &str, old_task: &Task, payload: &UpdateTaskPayload) -> (r: Vec<
    CounterUpdate,
>)
    ensures
        updates_view(r@) == task_update_spec(
            block_id@,
            old_task.task_state@,
            old_task.image_count as int,
            opt_text(payload.task_state),
        ),
{
    let mut r: Vec<CounterUpdate> = Vec::new();
    match &payload.task_state {
        Some(new_state) => {
            let delta = approved_delta_for_transition(
                old_task.task_state.as_str(),
                new_state.as_str(),
                old_task.image_count,
            );
            if delta != 0 {
                r.push(bump(block_key(block_id), CounterField::ApprovedImageCount, delta));
            }
        },
        None => {},
    }
    assert(updates_view(r@) =~= task_update_spec(
        block_id@,
        old_task.task_state@,
        old_task.image_count as int,
        opt_text(payload.task_state),
    ));
    r
}

/// The counters of a store as the sum of every adjustment applied so far;
/// a counter never adjusted reads 0.
pub struct CounterLedger {
    pub applied: Vec<CounterUpdate>,
}

impl CounterLedger {
    pub open spec fn wf(&self) -> bool {
        self.applied.len() <= u32::MAX
    }

    pub open spec fn total(&self, key: KeyV, field: CounterField) -> int {
        counter_total(updates_view(self.applied@), key, field)
    }

    pub fn new() -> (r: CounterLedger)
        ensures
            r.wf(),
            updates_view(r.applied@) == Seq::<UpdateV>::empty(),
    {
        let r = CounterLedger { applied: Vec::new() };
        assert(updates_view(r.applied@) =~= Seq::<UpdateV>::empty());
        r
    }

    /// Apply one adjustment.
    pub fn apply(&mut self, u: CounterUpdate)
        requires
            old(self).applied.len() < u32::MAX,
        ensures
            final(self).wf(),
            final(self).applied.len() == old(self).applied.len() + 1,
            updates_view(final(self).applied@) == updates_view(old(self).applied@).push(u@),
    {
        let ghost before = updates_view(self.applied@);
        self.applied.push(u);
        assert(updates_view(self.applied@) =~= before.push(u@));
    }

    /// Apply `us` in order.
    pub fn apply_all(&mut self, us: &Vec<CounterUpdate>)
        requires
            old(self).applied.len() + us.len() <= u32::MAX,
        ensures
            final(self).wf(),
            updates_view(final(self).applied@) == updates_view(old(self).applied@) + updates_view(
                us@,
            ),
    {
        let ghost before = updates_view(self.applied@);
        let mut i: usize = 0;
        while i < us.len()
            invariant
                i <= us.len(),
                self.applied.len() == before.len() + i,
                before.len() + us.len() <= u32::MAX,
                updates_view(self.applied@) == before + updates_view(us@).subrange(0, i as int),
            decreases us.len() - i,
        {
            let u = CounterUpdate { key: us[i].key.duplicate(), field: us[i].field, delta: us[i].delta };
            self.apply(u);
            assert(updates_view(us@).subrange(0, i + 1) =~= updates_view(us@).subrange(
                0,
                i as int,
            ).push(us@[i as int]@));
            assert(before + updates_view(us@).subrange(0, i + 1) =~= (before + updates_view(
                us@,
            ).subrange(0, i as int)).push(us@[i as int]@));
            i = i + 1;
        }
        assert(updates_view(us@).subrange(0, i as int) =~= updates_view(us@));
    }

    /// Current value of `field` of the row at `key`.
    pub fn value(&self, key: &crate::keys::StoreKey, field: CounterField) -> (r: i128)
        requires
            self.wf(),
        ensures
            r as int == self.total(key@, field),
    {
        let ghost vs = updates_view(self.applied@);
        let mut acc: i128 = 0;
        let mut i: usize = 0;
        while i < self.applied.len()
            invariant
                i <= self.applied.len(),
                self.applied.len() <= u32::MAX,
                vs == updates_view(self.applied@),
                acc as int == counter_total(vs.subrange(0, i as int), key@, field),
                -(i as int) * 0x8000_0000_0000_0000 <= acc <= (i as int) * 0x8000_0000_0000_0000,
            decreases self.applied.len() - i,
        {
            let u = &self.applied[i];
            assert(vs.subrange(0, i + 1).drop_last() =~= vs.subrange(0, i as int));
            if u.key.pk == key.pk && u.key.sk == key.sk && u.field == field {
                acc = acc + u.delta as i128;
            }
            i = i + 1;
        }
        assert(vs.subrange(0, i as int) =~= vs);
        acc
    }
}

/// One image creation or deletion, with the owning task as read back after
/// its image count was adjusted.
pub struct ImageEvent {
    pub create: bool,
    pub task_id: Option<Seq<char>>,
    pub task_state: Seq<char>,
    pub task_image_count: int,
}

/// Every counter adjustment that one image event issues, in order.
pub open spec fn image_event_updates(block_id: Seq<char>, e: ImageEvent) -> Seq<UpdateV> {
    if e.create {
        image_created_spec(block_id, e.task_id) + if e.task_id is Some {
            approved_after_create_spec(block_id, e.task_state, e.task_image_count)
        } else {
            Seq::empty()
        }
    } else {
        image_deleted_spec(block_id, e.task_id) + if e.task_id is Some {
            approved_after_delete_spec(block_id, e.task_state)
        } else {
            Seq::empty()
        }
    }
}

pub open spec fn image_events_updates(block_id: Seq<char>, es: Seq<ImageEvent>) -> Seq<UpdateV>
    decreases es.len(),
{
    if es.len() == 0 {
        Seq::empty()
    } else {
        image_events_updates(block_id, es.drop_last()) + image_event_updates(block_id, es.last())
    }
}

pub open spec fn event_sign(e: ImageEvent) -> int {
    if e.create {
        1
    } else {
        -1
    }
}

/// Creations minus deletions among `es`.
pub open spec fn net_images(es: Seq<ImageEvent>) -> int
    decreases es.len(),
{
    if es.len() == 0 {
        0
    } else {
        net_images(es.drop_last()) + event_sign(es.last())
    }
}

/// Creations minus deletions among the events of `es` under task `task_id`.
pub open spec fn net_task_images(es: Seq<ImageEvent>, task_id: Seq<char>) -> int
    decreases es.len(),
{
    if es.len() == 0 {
        0
    } else {
        net_task_images(es.drop_last(), task_id) + if es.last().task_id == Some(task_id) {
            event_sign(es.last())
        } else {
            0
        }
    }
}

pub proof fn lemma_total_concat(xs: Seq<UpdateV>, ys: Seq<UpdateV>, key: KeyV, field: CounterField)
    ensures
        counter_total(xs + ys, key, field) == counter_total(xs, key, field) + counter_total(
            ys,
            key,
            field,
        ),
    decreases ys.len(),
{
    if ys.len() == 0 {
        assert(xs + ys =~= xs);
    } else {
        lemma_total_concat(xs, ys.drop_last(), key, field);
        assert((xs + ys).drop_last() =~= xs + ys.drop_last());
    }
}

pub proof fn lemma_total_single(u: UpdateV, key: KeyV, field: CounterField)
    ensures
        counter_total(seq![u], key, field) == if u.0 == key && u.1 == field {
            u.2
        } else {
            0
        },
{
    let s = seq![u];
    assert(s.len() == 1);
    assert(s.last() == u);
    assert(s.drop_last() =~= Seq::<UpdateV>::empty());
    assert(counter_total(Seq::<UpdateV>::empty(), key, field) == 0);
}

pub proof fn lemma_total_pair(u: UpdateV, v: UpdateV, key: KeyV, field: CounterField)
    ensures
        counter_total(seq![u] + seq![v], key, field) == (if u.0 == key && u.1 == field {
            u.2
        } else {
            0
        }) + (if v.0 == key && v.1 == field {
            v.2
        } else {
            0
        }),
{
    lemma_total_concat(seq![u], seq![v], key, field);
    lemma_total_single(u, key, field);
    lemma_total_single(v, key, field);
}

/// No adjustment in `us` touches the image count.
pub open spec fn leaves_image_counts(us: Seq<UpdateV>) -> bool {
    forall|i: int| 0 <= i < us.len() ==> us[i].1 != CounterField::ImageCount
}

pub proof fn lemma_total_untouched(us: Seq<UpdateV>, key: KeyV)
    requires
        leaves_image_counts(us),
    ensures
        counter_total(us, key, CounterField::ImageCount) == 0,
    decreases us.len(),
{
    if us.len() > 0 {
        lemma_total_untouched(us.drop_last(), key);
    }
}

pub proof fn lemma_block_key_is_not_task_key(block_id: Seq<char>, task_id: Seq<char>)
    ensures
        block_key_of(block_id) != task_key_of(block_id, task_id),
{
    reveal_strlit("BLOCK");
    reveal_strlit("BLOCK#");
    assert(root_tag().len() != (block_tag() + block_id).len());
}

pub proof fn lemma_task_keys_distinct(block_id: Seq<char>, t1: Seq<char>, t2: Seq<char>)
    ensures
        task_key_of(block_id, t1) == task_key_of(block_id, t2) <==> t1 == t2,
{
    if task_key_of(block_id, t1) == task_key_of(block_id, t2) {
        let n = task_tag().len() as int;
        let a = task_tag() + t1;
        let b = task_tag() + t2;
        assert(a == b);
        assert(t1.len() == t2.len());
        assert(a.subrange(n, a.len() as int) =~= t1);
        assert(b.subrange(n, b.len() as int) =~= t2);
    }
}

/// The image-count adjustments of one event: +1 or -1 on the block and,
/// where the image belongs to a task, on that task.
pub proof fn lemma_event_image_counts(block_id: Seq<char>, task_id: Seq<char>, e: ImageEvent)
    ensures
        counter_total(image_event_updates(block_id, e), block_key_of(block_id), CounterField::ImageCount)
            == event_sign(e),
        counter_total(
            image_event_updates(block_id, e),
            task_key_of(block_id, task_id),
            CounterField::ImageCount,
        ) == if e.task_id == Some(task_id) {
            event_sign(e)
        } else {
            0
        },
{
    let bk = block_key_of(block_id);
    let tk = task_key_of(block_id, task_id);
    let base = if e.create {
        image_created_spec(block_id, e.task_id)
    } else {
        image_deleted_spec(block_id, e.task_id)
    };
    let extra = if e.create {
        if e.task_id is Some {
            approved_after_create_spec(block_id, e.task_state, e.task_image_count)
        } else {
            Seq::empty()
        }
    } else {
        if e.task_id is Some {
            approved_after_delete_spec(block_id, e.task_state)
        } else {
            Seq::empty()
        }
    };
    assert(image_event_updates(block_id, e) == base + extra);
    assert(leaves_image_counts(extra));
    lemma_total_untouched(extra, bk);
    lemma_total_untouched(extra, tk);
    lemma_total_concat(base, extra, bk, CounterField::ImageCount);
    lemma_total_concat(base, extra, tk, CounterField::ImageCount);
    lemma_block_key_is_not_task_key(block_id, task_id);
    let d = event_sign(e);
    let first = (bk, CounterField::ImageCount, d);
    match e.task_id {
        Some(t) => {
            lemma_task_keys_distinct(block_id, t, task_id);
            lemma_block_key_is_not_task_key(block_id, t);
            let second = (task_key_of(block_id, t), CounterField::ImageCount, d);
            assert(base == seq![first] + seq![second]);
            lemma_total_pair(first, second, bk, CounterField::ImageCount);
            lemma_total_pair(first, second, tk, CounterField::ImageCount);
        },
        None => {
            assert(base =~= seq![first]);
            lemma_total_single(first, bk, CounterField::ImageCount);
            lemma_total_single(first, tk, CounterField::ImageCount);
        },
    }
}

/// Counter conservation: over any sequence of image creations and deletions
/// in a block, a task's image count moves by the creations minus the
/// deletions of its own images, and the block's image count by the
/// creations minus the deletions of all of them.
pub proof fn law_counter_conservation(block_id: Seq<char>, task_id: Seq<char>, es: Seq<ImageEvent>)
    ensures
        counter_total(
            image_events_updates(block_id, es),
            task_key_of(block_id, task_id),
            CounterField::ImageCount,
        ) == net_task_images(es, task_id),
        counter_total(
            image_events_updates(block_id, es),
            block_key_of(block_id),
            CounterField::ImageCount,
        ) == net_images(es),
    decreases es.len(),
{
    if es.len() > 0 {
        law_counter_conservation(block_id, task_id, es.drop_last());
        let prev = image_events_updates(block_id, es.drop_last());
        let cur = image_event_updates(block_id, es.last());
        lemma_total_concat(prev, cur, task_key_of(block_id, task_id), CounterField::ImageCount);
        lemma_total_concat(prev, cur, block_key_of(block_id), CounterField::ImageCount);
        lemma_event_image_counts(block_id, task_id, es.last());
    }
}

/// Approved-count correctness: creating an image under a task raises the
/// block's approved-image count by one when the task is done and leaves it
/// alone otherwise; moving a task that holds `k` images from a state other
/// than done into done raises it by `k`, and saving done over done leaves it
/// alone.
pub proof fn law_approved_count(
    block_id: Seq<char>,
    task_id: Seq<char>,
    task_state: Seq<char>,
    images_before: nat,
    old_state: Seq<char>,
    k: nat,
)
    ensures
        counter_total(
            image_event_updates(
                block_id,
                ImageEvent {
                    create: true,
                    task_id: Some(task_id),
                    task_state,
                    task_image_count: (images_before + 1) as int,
                },
            ),
            block_key_of(block_id),
            CounterField::ApprovedImageCount,
        ) == if task_state == done_state() {
            1int
        } else {
            0int
        },
        old_state != done_state() ==> counter_total(
            task_update_spec(block_id, old_state, k as int, Some(done_state())),
            block_key_of(block_id),
            CounterField::ApprovedImageCount,
        ) == k,
        counter_total(
            task_update_spec(block_id, done_state(), k as int, Some(done_state())),
            block_key_of(block_id),
            CounterField::ApprovedImageCount,
        ) == 0,
{
    let bk = block_key_of(block_id);
    let f = CounterField::ApprovedImageCount;
    let base = image_created_spec(block_id, Some(task_id));
    let extra = approved_after_create_spec(block_id, task_state, (images_before + 1) as int);
    let first = (bk, CounterField::ImageCount, 1int);
    let second = (task_key_of(block_id, task_id), CounterField::ImageCount, 1int);
    assert(base == seq![first] + seq![second]);
    lemma_total_pair(first, second, bk, f);
    lemma_total_concat(base, extra, bk, f);
    if task_state == done_state() {
        lemma_total_single((bk, f, 1int), bk, f);
    }
    let delta = transition_delta(old_state, done_state(), k as int);
    if delta != 0 {
        lemma_total_single((bk, f, delta), bk, f);
    }
}

} // verus!
