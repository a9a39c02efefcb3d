//! Read-side composition: tasks with the images attached to them.
use vstd::prelude::*;
use crate::keys::same_text;
use crate::model::{Image, Task, copy_text, opt_text};
use crate::ordering::{arranged_by, image_keys_spec, sort_images_by_order};

verus! {

/// The images of `s` attached to task `task_id`, in order.
pub open spec fn images_of_task_spec(s: Seq<Image>, task_id: Seq<char>) -> Seq<Image>
    decreases s.len(),
{
    if s.len() == 0 {
        Seq::empty()
    } else {
        let rest = images_of_task_spec(s.drop_last(), task_id);
        if opt_text(s.last().task_id) == Some(task_id) {
            rest.push(s.last())
        } else {
            rest
        }
    }
}

/// A copy of an image row.
pub fn copy_image(im: &Image) -> (r: Image)
    ensures
        r == *im,
{
    Image {
        image_id: im.image_id.clone(),
        block_id: im.block_id.clone(),
        task_id: copy_text(&im.task_id),
        url: im.url.clone(),
        locked: im.locked,
        order: im.order,
        annotation_count: im.annotation_count,
        uploaded_at: im.uploaded_at.clone(),
    }
}

/// The images of `images` attached to task `task_id`, in their order.
pub fn images_of_task(images: &Vec<Image>, task_id: &str) -> (r: Vec<Image>)
    ensures
        r@ == images_of_task_spec(images@, task_id@),
{
    let mut r: Vec<Image> = Vec::new();
    let mut i: usize = 0;
    while i < images.len()
        invariant
            i <= images.len(),
            r@ == images_of_task_spec(images@.subrange(0, i as int), task_id@),
        decreases images.len() - i,
    {
        let ghost next = images@.subrange(0, i + 1);
        assert(next.drop_last() =~= images@.subrange(0, i as int));
        assert(next.last() == images@[i as int]);
        let attached = match &images[i].task_id {
            Some(t) => same_text(t.as_str(), task_id),
            None => false,
        };
        if attached {
            r.push(copy_image(&images[i]));
        }
        i = i + 1;
    }
    assert(images@.subrange(0, i as int) =~= images@);
    r
}

/// Some task before position `j` of `ts` has the id of task `j`.
pub open spec fn id_taken_before(ts: Seq<Task>, j: int) -> bool {
    exists|k: int| 0 <= k < j && ts[k].task_id@ == ts[j].task_id@
}

/// Tasks with the images attached to them: each task takes the images of
/// its id, ordered by their `order`; a second task of an id already served
/// gets none. Images whose task is absent stay out of every task.
pub fn join_tasks_with_images(tasks: Vec<Task>, images: Vec<Image>) -> (r: Vec<Task>)
    ensures
        r.len() == tasks.len(),
        exists|sorted: Seq<Image>|
            {
                &&& arranged_by(sorted, images@, image_keys_spec(images@), false)
                &&& forall|j: int|
                    #![trigger r@[j]]
                    0 <= j < r.len() ==> {
                        &&& r@[j].task_id == tasks@[j].task_id
                        &&& r@[j].block_id == tasks@[j].block_id
                        &&& r@[j].task_name == tasks@[j].task_name
                        &&& r@[j].task_state == tasks@[j].task_state
                        &&& r@[j].assignee == tasks@[j].assignee
                        &&& r@[j].checked_by == tasks@[j].checked_by
                        &&& r@[j].locked == tasks@[j].locked
                        &&& r@[j].image_count == tasks@[j].image_count
                        &&& r@[j].created_at == tasks@[j].created_at
                        &&& r@[j].images@ == if id_taken_before(tasks@, j) {
                            Seq::<Image>::empty()
                        } else {
                            images_of_task_spec(sorted, tasks@[j].task_id@)
                        }
                    }
            },
{
    let sorted = sort_images_by_order(images);
    let ghost orig = tasks@;
    let n = tasks.len();
    let mut src = tasks;
    let mut r: Vec<Task> = Vec::new();
    while src.len() > 0
        invariant
            n == orig.len(),
            r.len() + src.len() == n,
            src@ == orig.subrange(r.len() as int, n as int),
            forall|j: int|
                #![trigger r@[j]]
                0 <= j < r.len() ==> {
                    &&& r@[j].task_id == orig[j].task_id
                    &&& r@[j].block_id == orig[j].block_id
                    &&& r@[j].task_name == orig[j].task_name
                    &&& r@[j].task_state == orig[j].task_state
                    &&& r@[j].assignee == orig[j].assignee
                    &&& r@[j].checked_by == orig[j].checked_by
                    &&& r@[j].locked == orig[j].locked
                    &&& r@[j].image_count == orig[j].image_count
                    &&& r@[j].created_at == orig[j].created_at
                    &&& r@[j].images@ == if id_taken_before(orig, j) {
                        Seq::<Image>::empty()
                    } else {
                        images_of_task_spec(sorted@, orig[j].task_id@)
                    }
                },
        decreases src.len(),
    {
        let j = r.len();
        let mut t = src.remove(0);
        assert(t == orig[j as int]);
        let mut k: usize = 0;
        let mut taken = false;
        while k < j
            invariant
                k <= j,
                j == r.len(),
                j < n,
                n == orig.len(),
                t == orig[j as int],
                forall|q: int| 0 <= q < j ==> (#[trigger] r@[q]).task_id == orig[q].task_id,
                taken == exists|q: int| 0 <= q < k && orig[q].task_id@ == orig[j as int].task_id@,
            decreases j - k,
        {
            if same_text(r[k].task_id.as_str(), t.task_id.as_str()) {
                assert(r@[k as int].task_id == orig[k as int].task_id);
                taken = true;
            }
            k = k + 1;
        }
        assert(taken == id_taken_before(orig, j as int));
        let group = if taken {
            Vec::new()
        } else {
            images_of_task(&sorted, t.task_id.as_str())
        };
        t.images = group;
        r.push(t);
        assert(src@ =~= orig.subrange(r.len() as int, n as int));
    }
    r
}

} // verus!
