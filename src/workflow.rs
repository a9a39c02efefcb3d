//! The steps of the mutations that read the store between writes: what to
//! write first, and which row to read before the next decision.
use vstd::prelude::*;
use crate::cascade::{KeyV, image_delete_rows_spec, strs};
use crate::counters::{
    CounterUpdate, annotation_deleted_spec, annotation_deleted_updates, image_created_spec, image_deleted_spec, task_update_counter, task_update_spec,
    updates_view, image_created_updates, image_deleted_updates,
};
use crate::items::{Attr, attrs_view};
use crate::keys::{
    KeyQuery, StoreKey, annotation_key, annotation_key_of, annotation_tag, image_key, image_tag,
    task_key, task_key_of, image_sk,
};
use crate::model::{CreateImagePayload, Image, Task, UpdateTaskPayload, opt_text};
use crate::rows::{Created, create_image_row, image_row_spec, opt_text_attr, task_update_fields};

verus! {

/// Creating an image: the row to put, the counters to move after it, and
/// the task to read back before deciding on the approved-image count.
pub struct ImageCreation {
    pub row: Created<Image>,
    pub counters: Vec<CounterUpdate>,
    pub task_to_read: Option<StoreKey>,
}

/// The first steps of creating an image of block `block_id`.
pub fn plan_image_creation(block_id: &str, payload: &CreateImagePayload) -> (r: ImageCreation)
    ensures
        r.row.record.image_id@.len() == 36,
        attrs_view(r.row.item.attrs@) == image_row_spec(
            block_id@,
            r.row.record.image_id@,
            r.row.record.uploaded_at@,
            *payload,
        ),
        r.row.record.block_id@ == block_id@,
        r.row.record.task_id == payload.task_id,
        r.row.record.order == payload.order,
        updates_view(r.counters@) == image_created_spec(block_id@, opt_text(payload.task_id)),
        match payload.task_id {
            Some(t) => r.task_to_read is Some && r.task_to_read.unwrap()@ == task_key_of(
                block_id@,
                t@,
            ),
            None => r.task_to_read is None,
        },
{
    let row = create_image_row(block_id, payload);
    let counters = image_created_updates(block_id, &payload.task_id);
    let task_to_read = match &payload.task_id {
        Some(t) => Some(task_key(block_id, t.as_str())),
        None => None,
    };
    ImageCreation { row, counters, task_to_read }
}

/// Deleting an image, as read: the counters to move first, the task to read
/// back before deciding on the approved-image count, and the query of the
/// annotations to remove with it.
pub struct ImageDeletion {
    pub counters: Vec<CounterUpdate>,
    pub task_to_read: Option<StoreKey>,
    pub annotations: KeyQuery,
}

/// The first steps of deleting `image` of block `block_id`.
pub fn plan_image_deletion(block_id: &str, image: &Image) -> (r: ImageDeletion)
    ensures
        updates_view(r.counters@) == image_deleted_spec(block_id@, opt_text(image.task_id)),
        match image.task_id {
            Some(t) => r.task_to_read is Some && r.task_to_read.unwrap()@ == task_key_of(
                block_id@,
                t@,
            ),
            None => r.task_to_read is None,
        },
        r.annotations@ == (image_tag() + image.image_id@, annotation_tag()),
{
    let counters = image_deleted_updates(block_id, &image.task_id);
    let task_to_read = match &image.task_id {
        Some(t) => Some(task_key(block_id, t.as_str())),
        None => None,
    };
    let pk = image_sk(image.image_id.as_str());
    let annotations = crate::keys::annotations_query(pk.as_str());
    ImageDeletion { counters, task_to_read, annotations }
}

/// Updating a task, as read before the write: the approved-image change to
/// apply first, then the fields to set. Nothing moves where no field is set.
pub struct TaskUpdate {
    pub counters: Vec<CounterUpdate>,
    pub fields: Vec<Attr>,
}

pub fn plan_task_update(block_id: &str, old_task: &Task, payload: &UpdateTaskPayload) -> (r: TaskUpdate)
    ensures
        attrs_view(r.fields@) == opt_text_attr("task_name"@, opt_text(payload.task_name))
            + opt_text_attr("task_state"@, opt_text(payload.task_state)) + opt_text_attr(
            "assignee"@,
            opt_text(payload.assignee),
        ) + opt_text_attr("checked_by"@, opt_text(payload.checked_by)),
        updates_view(r.counters@) == if r.fields.len() == 0 {
            Seq::empty()
        } else {
            task_update_spec(
                block_id@,
                old_task.task_state@,
                old_task.image_count as int,
                opt_text(payload.task_state),
            )
        },
{
    let fields = task_update_fields(payload);
    let counters = if fields.len() == 0 {
        let v: Vec<CounterUpdate> = Vec::new();
        assert(updates_view(v@) =~= Seq::empty());
        v
    } else {
        task_update_counter(block_id, old_task, payload)
    };
    TaskUpdate { counters, fields }
}

/// One annotation to remove with its image: its row, and the counters to
/// move after it is gone.
pub struct AnnotationRemoval {
    pub key: StoreKey,
    pub counters: Vec<CounterUpdate>,
}

/// The rows an image deletion removes once its annotations are known: each
/// annotation with its counter adjustments, then the image row.
pub struct ImageRemoval {
    pub annotations: Vec<AnnotationRemoval>,
    pub image_row: StoreKey,
}

pub open spec fn removal_keys(v: Seq<AnnotationRemoval>) -> Seq<KeyV> {
    v.map_values(|a: AnnotationRemoval| a.key@)
}

/// The removals of image `image_id` of block `block_id`, given the ids of
/// the annotations found on it.
pub fn plan_image_removal(block_id: &str, image_id: &str, annotation_ids: &Vec<String>) -> (r:
    ImageRemoval)
    ensures
        removal_keys(r.annotations@) + seq![r.image_row@] == image_delete_rows_spec(
            block_id@,
            image_id@,
            strs(annotation_ids@),
        ),
        r.annotations.len() == annotation_ids.len(),
        forall|j: int|
            0 <= j < r.annotations.len() ==> updates_view((#[trigger] r.annotations@[j]).counters@)
                == annotation_deleted_spec(block_id@, image_id@),
{
    let mut annotations: Vec<AnnotationRemoval> = Vec::new();
    let mut i: usize = 0;
    while i < annotation_ids.len()
        invariant
            i <= annotation_ids.len(),
            annotations.len() == i,
            removal_keys(annotations@) == strs(annotation_ids@).subrange(0, i as int).map_values(
                |a: Seq<char>| annotation_key_of(image_id@, a),
            ),
            forall|j: int|
                0 <= j < annotations.len() ==> updates_view(
                    (#[trigger] annotations@[j]).counters@,
                ) == annotation_deleted_spec(block_id@, image_id@),
        decreases annotation_ids.len() - i,
    {
        let ghost before = removal_keys(annotations@);
        let removal = AnnotationRemoval {
            key: annotation_key(image_id, annotation_ids[i].as_str()),
            counters: annotation_deleted_updates(block_id, image_id),
        };
        annotations.push(removal);
        assert(removal_keys(annotations@) =~= before.push(
            annotation_key_of(image_id@, annotation_ids@[i as int]@),
        ));
        assert(removal_keys(annotations@) =~= strs(annotation_ids@).subrange(0, i + 1).map_values(
            |a: Seq<char>| annotation_key_of(image_id@, a),
        ));
        i = i + 1;
    }
    assert(strs(annotation_ids@).subrange(0, i as int) =~= strs(annotation_ids@));
    ImageRemoval { annotations, image_row: image_key(block_id, image_id) }
}

} // verus!
