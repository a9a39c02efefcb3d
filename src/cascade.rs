//! Cascading deletion of a block: which keys a delete removes, in which
//! batches, and when a batch is tried again.
use vstd::prelude::*;
use crate::keys::{
    StoreKey, annotation_key_of, annotation_tag, image_key_of, block_key, block_key_of, block_sk, block_tag, has_prefix,
    image_tag, label_tag, tagged, task_tag,
};

verus! {

pub type KeyV = (Seq<char>, Seq<char>);

/// Largest number of keys the store takes in one batch delete.
pub const BATCH_LIMIT: usize = 25;

/// Number of times a batch is sent before what is left of it is dropped.
pub const MAX_BATCH_ATTEMPTS: u32 = 5;

/// Linear backoff step between two attempts of a batch, in milliseconds.
pub const BACKOFF_STEP_MS: u64 = 100;

/// A task found under a block, with the image rows found in the task's own
/// partition.
#[derive(Clone, Debug)]
pub struct TaskRows {
    pub task_sk: String,
    pub image_sks: Vec<String>,
}

/// An image found under a block, with the annotation rows of its partition.
#[derive(Clone, Debug)]
pub struct ImageRows {
    pub image_sk: String,
    pub annotation_sks: Vec<String>,
}

/// Everything a walk of the hierarchy under one block found, level by level.
#[derive(Clone, Debug)]
pub struct BlockWalk {
    pub tasks: Vec<TaskRows>,
    pub label_sks: Vec<String>,
    pub images: Vec<ImageRows>,
}

pub type RowsV = (Seq<char>, Seq<Seq<char>>);

pub open spec fn strs(v: Seq<String>) -> Seq<Seq<char>> {
    v.map_values(|s: String| s@)
}

impl View for TaskRows {
    type V = RowsV;

    open spec fn view(&self) -> RowsV {
        (self.task_sk@, strs(self.image_sks@))
    }
}

impl View for ImageRows {
    type V = RowsV;

    open spec fn view(&self) -> RowsV {
        (self.image_sk@, strs(self.annotation_sks@))
    }
}

pub open spec fn task_rows_view(v: Seq<TaskRows>) -> Seq<RowsV> {
    v.map_values(|t: TaskRows| t@)
}

pub open spec fn image_rows_view(v: Seq<ImageRows>) -> Seq<RowsV> {
    v.map_values(|t: ImageRows| t@)
}

pub struct WalkV {
    pub tasks: Seq<RowsV>,
    pub labels: Seq<Seq<char>>,
    pub images: Seq<RowsV>,
}

impl View for BlockWalk {
    type V = WalkV;

    open spec fn view(&self) -> WalkV {
        WalkV {
            tasks: task_rows_view(self.tasks@),
            labels: strs(self.label_sks@),
            images: image_rows_view(self.images@),
        }
    }
}

pub open spec fn keys_view(v: Seq<StoreKey>) -> Seq<KeyV> {
    v.map_values(|k: StoreKey| k@)
}

/// One key per sort key, all in partition `pk`.
pub open spec fn keys_under(pk: Seq<char>, sks: Seq<Seq<char>>) -> Seq<KeyV> {
    sks.map_values(|sk: Seq<char>| (pk, sk))
}

/// A task's keys: its images, its row under the block, and its own
/// partition's self-record.
pub open spec fn task_keys(block_pk: Seq<char>, t: RowsV) -> Seq<KeyV> {
    keys_under(t.0, t.1) + seq![(block_pk, t.0), (t.0, t.0)]
}

pub open spec fn tasks_keys(block_pk: Seq<char>, ts: Seq<RowsV>) -> Seq<KeyV>
    decreases ts.len(),
{
    if ts.len() == 0 {
        Seq::empty()
    } else {
        tasks_keys(block_pk, ts.drop_last()) + task_keys(block_pk, ts.last())
    }
}

/// An image's keys: its row under the block, its annotations, and its own
/// partition's self-record.
pub open spec fn image_keys(block_pk: Seq<char>, i: RowsV) -> Seq<KeyV> {
    seq![(block_pk, i.0)] + keys_under(i.0, i.1) + seq![(i.0, i.0)]
}

pub open spec fn images_keys(block_pk: Seq<char>, is: Seq<RowsV>) -> Seq<KeyV>
    decreases is.len(),
{
    if is.len() == 0 {
        Seq::empty()
    } else {
        images_keys(block_pk, is.drop_last()) + image_keys(block_pk, is.last())
    }
}

/// Every key that deleting block `block_id` removes, in collection order:
/// tasks with their images, labels, images with their annotations, and the
/// block row last.
pub open spec fn cascade_spec(block_id: Seq<char>, w: WalkV) -> Seq<KeyV> {
    let bpk = block_tag() + block_id;
    tasks_keys(bpk, w.tasks) + keys_under(bpk, w.labels) + images_keys(bpk, w.images) + seq![
        block_key_of(block_id),
    ]
}

/// Append the key `(pk, sk)`.
pub fn add_delete_key(keys: &mut Vec<StoreKey>, pk: &str, sk: &str)
    ensures
        keys_view(final(keys)@) == keys_view(old(keys)@).push((pk@, sk@)),
{
    let ghost before = keys_view(keys@);
    keys.push(StoreKey::new(pk, sk));
    assert(keys_view(keys@) =~= before.push((pk@, sk@)));
}

/// Append one key in partition `pk` for each of `sks`.
pub fn add_keys_under(keys: &mut Vec<StoreKey>, pk: &str, sks: &Vec<String>)
    ensures
        keys_view(final(keys)@) == keys_view(old(keys)@) + keys_under(pk@, strs(sks@)),
{
    let ghost before = keys_view(keys@);
    let mut i: usize = 0;
    while i < sks.len()
        invariant
            i <= sks.len(),
            keys_view(keys@) == before + keys_under(pk@, strs(sks@).subrange(0, i as int)),
        decreases sks.len() - i,
    {
        add_delete_key(keys, pk, sks[i].as_str());
        assert(keys_under(pk@, strs(sks@).subrange(0, i + 1)) =~= keys_under(
            pk@,
            strs(sks@).subrange(0, i as int),
        ).push((pk@, sks@[i as int]@)));
        i = i + 1;
    }
    assert(strs(sks@).subrange(0, i as int) =~= strs(sks@));
}

/// Append the keys of every task of the block, each task's images first.
pub fn collect_task_keys(keys: &mut Vec<StoreKey>, block_pk: &str, tasks: &Vec<TaskRows>)
    ensures
        keys_view(final(keys)@) == keys_view(old(keys)@) + tasks_keys(
            block_pk@,
            task_rows_view(tasks@),
        ),
{
    let ghost before = keys_view(keys@);
    let mut i: usize = 0;
    while i < tasks.len()
        invariant
            i <= tasks.len(),
            keys_view(keys@) == before + tasks_keys(
                block_pk@,
                task_rows_view(tasks@).subrange(0, i as int),
            ),
        decreases tasks.len() - i,
    {
        let t = &tasks[i];
        let ghost mid = keys_view(keys@);
        add_keys_under(keys, t.task_sk.as_str(), &t.image_sks);
        add_delete_key(keys, block_pk, t.task_sk.as_str());
        add_delete_key(keys, t.task_sk.as_str(), t.task_sk.as_str());
        let ghost ts = task_rows_view(tasks@).subrange(0, i + 1);
        assert(ts.drop_last() =~= task_rows_view(tasks@).subrange(0, i as int));
        assert(ts.last() == t@);
        assert(keys_view(keys@) =~= mid + task_keys(block_pk@, t@));
        i = i + 1;
    }
    assert(task_rows_view(tasks@).subrange(0, i as int) =~= task_rows_view(tasks@));
}

/// Append the keys of every image of the block, each followed by its
/// annotations and its partition's self-record.
pub fn collect_image_keys(keys: &mut Vec<StoreKey>, block_pk: &str, images: &Vec<ImageRows>)
    ensures
        keys_view(final(keys)@) == keys_view(old(keys)@) + images_keys(
            block_pk@,
            image_rows_view(images@),
        ),
{
    let ghost before = keys_view(keys@);
    let mut i: usize = 0;
    while i < images.len()
        invariant
            i <= images.len(),
            keys_view(keys@) == before + images_keys(
                block_pk@,
                image_rows_view(images@).subrange(0, i as int),
            ),
        decreases images.len() - i,
    {
        let im = &images[i];
        let ghost mid = keys_view(keys@);
        add_delete_key(keys, block_pk, im.image_sk.as_str());
        add_keys_under(keys, im.image_sk.as_str(), &im.annotation_sks);
        add_delete_key(keys, im.image_sk.as_str(), im.image_sk.as_str());
        let ghost is = image_rows_view(images@).subrange(0, i + 1);
        assert(is.drop_last() =~= image_rows_view(images@).subrange(0, i as int));
        assert(is.last() == im@);
        assert(keys_view(keys@) =~= mid + image_keys(block_pk@, im@));
        i = i + 1;
    }
    assert(image_rows_view(images@).subrange(0, i as int) =~= image_rows_view(images@));
}

/// Append the key of the block row itself.
pub fn add_block_record(keys: &mut Vec<StoreKey>, block_id: &str)
    ensures
        keys_view(final(keys)@) == keys_view(old(keys)@).push(block_key_of(block_id@)),
{
    let ghost before = keys_view(keys@);
    keys.push(block_key(block_id));
    assert(keys_view(keys@) =~= before.push(block_key_of(block_id@)));
}

/// Every key that deleting block `block_id` removes, given what the walk
/// under it found.
pub fn cascade_keys(block_id: &str, walk: &BlockWalk) -> (r: Vec<StoreKey>)
    ensures
        keys_view(r@) == cascade_spec(block_id@, walk@),
{
    let block_pk = block_sk(block_id);
    let mut keys: Vec<StoreKey> = Vec::new();
    assert(keys_view(keys@) =~= Seq::<KeyV>::empty());
    collect_task_keys(&mut keys, block_pk.as_str(), &walk.tasks);
    add_keys_under(&mut keys, block_pk.as_str(), &walk.label_sks);
    collect_image_keys(&mut keys, block_pk.as_str(), &walk.images);
    add_block_record(&mut keys, block_id);
    keys
}

/// The sort keys among `sks` that start with `p`, in order.
pub open spec fn prefixed_only(sks: Seq<Seq<char>>, p: Seq<char>) -> Seq<Seq<char>>
    decreases sks.len(),
{
    if sks.len() == 0 {
        Seq::empty()
    } else {
        let rest = prefixed_only(sks.drop_last(), p);
        if has_prefix(sks.last(), p) {
            rest.push(sks.last())
        } else {
            rest
        }
    }
}

/// The sort keys among `sks` that start with `prefix`, in order.
pub fn with_prefix(sks: &Vec<String>, prefix: &str) -> (r: Vec<String>)
    ensures
        strs(r@) == prefixed_only(strs(sks@), prefix@),
{
    let mut r: Vec<String> = Vec::new();
    assert(strs(r@) =~= Seq::<Seq<char>>::empty());
    let mut i: usize = 0;
    while i < sks.len()
        invariant
            i <= sks.len(),
            strs(r@) == prefixed_only(strs(sks@).subrange(0, i as int), prefix@),
        decreases sks.len() - i,
    {
        let ghost prev = strs(sks@).subrange(0, i as int);
        let ghost next = strs(sks@).subrange(0, i + 1);
        assert(next.drop_last() =~= prev);
        assert(next.last() == sks@[i as int]@);
        let ghost before = strs(r@);
        if crate::keys::starts_with(sks[i].as_str(), prefix) {
            r.push(sks[i].clone());
            assert(strs(r@) =~= before.push(sks@[i as int]@));
        } else {
            assert(strs(r@) =~= before);
        }
        i = i + 1;
    }
    assert(strs(sks@).subrange(0, i as int) =~= strs(sks@));
    r
}

/// The keys cut into consecutive batches of at most `BATCH_LIMIT`.
pub open spec fn batches_spec(ks: Seq<KeyV>) -> Seq<Seq<KeyV>>
    decreases ks.len(),
{
    if ks.len() == 0 {
        Seq::empty()
    } else if ks.len() <= BATCH_LIMIT {
        seq![ks]
    } else {
        seq![ks.subrange(0, BATCH_LIMIT as int)] + batches_spec(
            ks.subrange(BATCH_LIMIT as int, ks.len() as int),
        )
    }
}

pub open spec fn batches_view(v: Seq<Vec<StoreKey>>) -> Seq<Seq<KeyV>> {
    v.map_values(|b: Vec<StoreKey>| keys_view(b@))
}

/// The batches, one after the other, give back the keys they were cut from.
pub open spec fn joined(bs: Seq<Seq<KeyV>>) -> Seq<KeyV>
    decreases bs.len(),
{
    if bs.len() == 0 {
        Seq::empty()
    } else {
        bs[0] + joined(bs.subrange(1, bs.len() as int))
    }
}

pub proof fn lemma_batches_shape(ks: Seq<KeyV>)
    ensures
        joined(batches_spec(ks)) == ks,
        forall|i: int|
            0 <= i < batches_spec(ks).len() ==> 0 < #[trigger] batches_spec(ks)[i].len()
                <= BATCH_LIMIT,
        forall|i: int|
            0 <= i < batches_spec(ks).len() - 1 ==> #[trigger] batches_spec(ks)[i].len()
                == BATCH_LIMIT,
    decreases ks.len(),
{
    let bs = batches_spec(ks);
    let none = Seq::<Seq<KeyV>>::empty();
    assert(joined(none) == Seq::<KeyV>::empty());
    if ks.len() == 0 {
    } else if ks.len() <= BATCH_LIMIT {
        assert(bs == seq![ks]);
        assert(bs.subrange(1, 1) =~= none);
        assert(joined(bs) == bs[0] + joined(bs.subrange(1, bs.len() as int)));
        assert(ks + Seq::<KeyV>::empty() =~= ks);
    } else {
        let rest = ks.subrange(BATCH_LIMIT as int, ks.len() as int);
        lemma_batches_shape(rest);
        assert(bs[0] == ks.subrange(0, BATCH_LIMIT as int));
        assert(bs.subrange(1, bs.len() as int) =~= batches_spec(rest));
        assert(joined(bs) == bs[0] + joined(bs.subrange(1, bs.len() as int)));
        assert(ks.subrange(0, BATCH_LIMIT as int) + rest =~= ks);
        assert forall|i: int| 0 < i < bs.len() implies #[trigger] bs[i] == batches_spec(rest)[i
            - 1] by {}
    }
}

/// The keys cut into consecutive batches of at most `BATCH_LIMIT`, every
/// batch but the last full.
pub fn delete_batches(keys: &Vec<StoreKey>) -> (r: Vec<Vec<StoreKey>>)
    ensures
        batches_view(r@) == batches_spec(keys_view(keys@)),
        joined(batches_view(r@)) == keys_view(keys@),
        forall|i: int| 0 <= i < r.len() ==> 0 < #[trigger] r@[i].len() <= BATCH_LIMIT,
        forall|i: int| 0 <= i < r.len() - 1 ==> #[trigger] r@[i].len() == BATCH_LIMIT,
{
    let ghost all = keys_view(keys@);
    let mut r: Vec<Vec<StoreKey>> = Vec::new();
    let mut start: usize = 0;
    assert(all.subrange(0, all.len() as int) =~= all);
    assert(batches_view(r@) =~= Seq::<Seq<KeyV>>::empty());
    assert(Seq::<Seq<KeyV>>::empty() + batches_spec(all) =~= batches_spec(all));
    while start < keys.len()
        invariant
            start <= keys.len(),
            all == keys_view(keys@),
            batches_view(r@) + batches_spec(all.subrange(start as int, all.len() as int))
                == batches_spec(all),
        decreases keys.len() - start,
    {
        let end: usize = if keys.len() - start <= BATCH_LIMIT {
            keys.len()
        } else {
            start + BATCH_LIMIT
        };
        let mut batch: Vec<StoreKey> = Vec::new();
        let mut j: usize = start;
        while j < end
            invariant
                start <= j <= end,
                end <= keys.len(),
                all == keys_view(keys@),
                keys_view(batch@) == all.subrange(start as int, j as int),
            decreases end - j,
        {
            let k = keys[j].duplicate();
            assert(k@ == all[j as int]);
            let ghost prev = keys_view(batch@);
            batch.push(k);
            assert(keys_view(batch@) =~= prev.push(k@));
            assert(all.subrange(start as int, j + 1) =~= all.subrange(start as int, j as int).push(
                all[j as int],
            ));
            j = j + 1;
        }
        let ghost rest = all.subrange(start as int, all.len() as int);
        let ghost before = batches_view(r@);
        r.push(batch);
        assert(batches_view(r@) =~= before.push(all.subrange(start as int, end as int)));
        if end == keys.len() {
            assert(rest =~= all.subrange(start as int, end as int));
            assert(all.subrange(end as int, all.len() as int) =~= Seq::<KeyV>::empty());
            assert(batches_spec(rest) == seq![rest]);
        } else {
            assert(rest.subrange(BATCH_LIMIT as int, rest.len() as int) =~= all.subrange(
                end as int,
                all.len() as int,
            ));
            assert(rest.subrange(0, BATCH_LIMIT as int) =~= all.subrange(
                start as int,
                end as int,
            ));
        }
        assert(batches_view(r@) + batches_spec(all.subrange(end as int, all.len() as int))
            =~= before + batches_spec(rest));
        start = end;
    }
    assert(all.subrange(start as int, all.len() as int) =~= Seq::<KeyV>::empty());
    assert(batches_view(r@) + Seq::<Seq<KeyV>>::empty() =~= batches_view(r@));
    proof {
        lemma_batches_shape(all);
        assert forall|i: int| 0 <= i < r.len() implies 0 < #[trigger] r@[i].len()
            <= BATCH_LIMIT by {
            assert(batches_view(r@)[i] == keys_view(r@[i]@));
        }
        assert forall|i: int| 0 <= i < r.len() - 1 implies #[trigger] r@[i].len()
            == BATCH_LIMIT by {
            assert(batches_view(r@)[i] == keys_view(r@[i]@));
        }
    }
    r
}

/// What to do after attempt number `attempt` (counting from 1) of a batch:
/// wait this many milliseconds and send the unprocessed rest again, or stop.
/// The rest is dropped after the last attempt.
pub fn retry_delay(attempt: u32, unprocessed_left: bool) -> (r: Option<u64>)
    ensures
        r == if unprocessed_left && attempt < MAX_BATCH_ATTEMPTS {
            Some((BACKOFF_STEP_MS * attempt) as u64)
        } else {
            None::<u64>
        },
{
    if unprocessed_left && attempt < MAX_BATCH_ATTEMPTS {
        Some(BACKOFF_STEP_MS * attempt as u64)
    } else {
        None
    }
}

pub open spec fn purge_prefix_spec(block_id: Seq<char>) -> Seq<char> {
    "annotations/blocks/"@ + block_id + "/"@
}

/// Object-store prefix under which a block's uploads live.
pub fn purge_prefix(block_id: &str) -> (r: String)
    ensures
        r@ == purge_prefix_spec(block_id@),
{
    let mut s = tagged("annotations/blocks/", block_id);
    s.append("/");
    s
}

/// The next step of a paginated object listing.
#[derive(Clone, Debug)]
pub enum PageStep {
    /// List again, from this continuation token (from the start where none).
    Continue(Option<String>),
    Stop,
}

/// After a listing page: go on where the listing was cut short, from the
/// token it gave; stop where it was complete.
pub fn next_page(truncated: Option<bool>, next_token: Option<String>) -> (r: PageStep)
    ensures
        truncated == Some(true) ==> r == PageStep::Continue(next_token),
        truncated != Some(true) ==> r == PageStep::Stop,
{
    match truncated {
        Some(true) => PageStep::Continue(next_token),
        _ => PageStep::Stop,
    }
}

/// Rows to remove when one image is deleted: each of its annotations, then
/// the image row.
pub open spec fn image_delete_rows_spec(
    block_id: Seq<char>,
    image_id: Seq<char>,
    annotation_ids: Seq<Seq<char>>,
) -> Seq<KeyV> {
    annotation_ids.map_values(|a: Seq<char>| annotation_key_of(image_id, a)) + seq![
        image_key_of(block_id, image_id),
    ]
}

/// Sort keys of the rows of `store` in partition `pk` that start with `prefix`.
pub open spec fn query_spec(store: Set<KeyV>, pk: Seq<char>, prefix: Seq<char>) -> Set<Seq<char>> {
    Set::new(|sk: Seq<char>| store.contains((pk, sk)) && has_prefix(sk, prefix))
}

/// `store` without the rows at `ks`; removing an absent key changes nothing.
pub open spec fn remove_keys(store: Set<KeyV>, ks: Seq<KeyV>) -> Set<KeyV> {
    store.difference(ks.to_set())
}

pub open spec fn first_parts(rs: Seq<RowsV>) -> Seq<Seq<char>> {
    rs.map_values(|r: RowsV| r.0)
}

/// The walk found exactly what `store` holds under block `block_id`, level
/// by level.
pub open spec fn walk_matches(store: Set<KeyV>, block_id: Seq<char>, w: WalkV) -> bool {
    let bpk = block_tag() + block_id;
    &&& first_parts(w.tasks).to_set() == query_spec(store, bpk, task_tag())
    &&& forall|j: int|
        0 <= j < w.tasks.len() ==> (#[trigger] w.tasks[j]).1.to_set() == query_spec(
            store,
            w.tasks[j].0,
            image_tag(),
        )
    &&& w.labels.to_set() == query_spec(store, bpk, label_tag())
    &&& first_parts(w.images).to_set() == query_spec(store, bpk, image_tag())
    &&& forall|j: int|
        0 <= j < w.images.len() ==> (#[trigger] w.images[j]).1.to_set() == query_spec(
            store,
            w.images[j].0,
            annotation_tag(),
        )
}

pub proof fn lemma_concat_contains<A>(a: Seq<A>, b: Seq<A>)
    ensures
        forall|x: A| a.contains(x) ==> #[trigger] (a + b).contains(x),
        forall|x: A| b.contains(x) ==> #[trigger] (a + b).contains(x),
{
    assert forall|x: A| a.contains(x) implies #[trigger] (a + b).contains(x) by {
        let i = choose|i: int| 0 <= i < a.len() && a[i] == x;
        assert((a + b)[i] == x);
    }
    assert forall|x: A| b.contains(x) implies #[trigger] (a + b).contains(x) by {
        let i = choose|i: int| 0 <= i < b.len() && b[i] == x;
        assert((a + b)[a.len() + i] == x);
    }
}

pub proof fn lemma_keys_under_contains(pk: Seq<char>, sks: Seq<Seq<char>>, sk: Seq<char>)
    requires
        sks.contains(sk),
    ensures
        keys_under(pk, sks).contains((pk, sk)),
{
    let i = choose|i: int| 0 <= i < sks.len() && sks[i] == sk;
    assert(keys_under(pk, sks)[i] == (pk, sk));
}

pub proof fn lemma_tasks_keys_contains(bpk: Seq<char>, ts: Seq<RowsV>, j: int)
    requires
        0 <= j < ts.len(),
    ensures
        forall|k: KeyV| task_keys(bpk, ts[j]).contains(k) ==> #[trigger] tasks_keys(
            bpk,
            ts,
        ).contains(k),
    decreases ts.len(),
{
    lemma_concat_contains(tasks_keys(bpk, ts.drop_last()), task_keys(bpk, ts.last()));
    if j < ts.len() - 1 {
        lemma_tasks_keys_contains(bpk, ts.drop_last(), j);
        assert(ts.drop_last()[j] == ts[j]);
    }
}

pub proof fn lemma_images_keys_contains(bpk: Seq<char>, is: Seq<RowsV>, j: int)
    requires
        0 <= j < is.len(),
    ensures
        forall|k: KeyV| image_keys(bpk, is[j]).contains(k) ==> #[trigger] images_keys(
            bpk,
            is,
        ).contains(k),
    decreases is.len(),
{
    lemma_concat_contains(images_keys(bpk, is.drop_last()), image_keys(bpk, is.last()));
    if j < is.len() - 1 {
        lemma_images_keys_contains(bpk, is.drop_last(), j);
        assert(is.drop_last()[j] == is[j]);
    }
}

/// Every key of every part of a cascade is in the cascade.
pub proof fn lemma_cascade_parts(block_id: Seq<char>, w: WalkV)
    ensures
        forall|k: KeyV|
            tasks_keys(block_tag() + block_id, w.tasks).contains(k) ==> #[trigger] cascade_spec(
                block_id,
                w,
            ).contains(k),
        forall|k: KeyV|
            keys_under(block_tag() + block_id, w.labels).contains(k) ==> #[trigger] cascade_spec(
                block_id,
                w,
            ).contains(k),
        forall|k: KeyV|
            images_keys(block_tag() + block_id, w.images).contains(k) ==> #[trigger] cascade_spec(
                block_id,
                w,
            ).contains(k),
        cascade_spec(block_id, w).contains(block_key_of(block_id)),
{
    let bpk = block_tag() + block_id;
    let a = tasks_keys(bpk, w.tasks);
    let b = keys_under(bpk, w.labels);
    let c = images_keys(bpk, w.images);
    let d = seq![block_key_of(block_id)];
    lemma_concat_contains(a, b);
    lemma_concat_contains(a + b, c);
    lemma_concat_contains(a + b + c, d);
    assert(d[0] == block_key_of(block_id));
}

/// Cascade completeness: once every key that a block delete collects is
/// removed, a query of any level under the block finds nothing, and the
/// block row is gone.
pub proof fn law_cascade_completeness(store: Set<KeyV>, block_id: Seq<char>, w: WalkV)
    requires
        walk_matches(store, block_id, w),
    ensures
        query_spec(
            remove_keys(store, cascade_spec(block_id, w)),
            block_tag() + block_id,
            task_tag(),
        ) == Set::<Seq<char>>::empty(),
        query_spec(
            remove_keys(store, cascade_spec(block_id, w)),
            block_tag() + block_id,
            label_tag(),
        ) == Set::<Seq<char>>::empty(),
        query_spec(
            remove_keys(store, cascade_spec(block_id, w)),
            block_tag() + block_id,
            image_tag(),
        ) == Set::<Seq<char>>::empty(),
        forall|j: int|
            0 <= j < w.tasks.len() ==> query_spec(
                remove_keys(store, cascade_spec(block_id, w)),
                (#[trigger] w.tasks[j]).0,
                image_tag(),
            ) == Set::<Seq<char>>::empty(),
        forall|j: int|
            0 <= j < w.images.len() ==> query_spec(
                remove_keys(store, cascade_spec(block_id, w)),
                (#[trigger] w.images[j]).0,
                annotation_tag(),
            ) == Set::<Seq<char>>::empty(),
        !remove_keys(store, cascade_spec(block_id, w)).contains(block_key_of(block_id)),
{
    let bpk = block_tag() + block_id;
    let cs = cascade_spec(block_id, w);
    let after = remove_keys(store, cs);
    lemma_cascade_parts(block_id, w);
    assert forall|sk: Seq<char>| !#[trigger] query_spec(after, bpk, task_tag()).contains(sk) by {
        if query_spec(after, bpk, task_tag()).contains(sk) {
            assert(query_spec(store, bpk, task_tag()).contains(sk));
            assert(first_parts(w.tasks).to_set().contains(sk));
            let j = choose|j: int| 0 <= j < w.tasks.len() && first_parts(w.tasks)[j] == sk;
            lemma_tasks_keys_contains(bpk, w.tasks, j);
            assert(task_keys(bpk, w.tasks[j]).contains((bpk, sk))) by {
                let n = keys_under(w.tasks[j].0, w.tasks[j].1).len() as int;
                assert(task_keys(bpk, w.tasks[j])[n] == (bpk, sk));
            }
            assert(cs.contains((bpk, sk)));
        }
    }
    assert forall|sk: Seq<char>| !#[trigger] query_spec(after, bpk, label_tag()).contains(sk) by {
        if query_spec(after, bpk, label_tag()).contains(sk) {
            assert(query_spec(store, bpk, label_tag()).contains(sk));
            assert(w.labels.to_set().contains(sk));
            lemma_keys_under_contains(bpk, w.labels, sk);
            assert(cs.contains((bpk, sk)));
        }
    }
    assert forall|sk: Seq<char>| !#[trigger] query_spec(after, bpk, image_tag()).contains(sk) by {
        if query_spec(after, bpk, image_tag()).contains(sk) {
            assert(query_spec(store, bpk, image_tag()).contains(sk));
            assert(first_parts(w.images).to_set().contains(sk));
            let j = choose|j: int| 0 <= j < w.images.len() && first_parts(w.images)[j] == sk;
            lemma_images_keys_contains(bpk, w.images, j);
            assert(image_keys(bpk, w.images[j])[0] == (bpk, sk));
            assert(cs.contains((bpk, sk)));
        }
    }
    assert forall|j: int| 0 <= j < w.tasks.len() implies query_spec(
        after,
        (#[trigger] w.tasks[j]).0,
        image_tag(),
    ) == Set::<Seq<char>>::empty() by {
        let t = w.tasks[j];
        assert forall|sk: Seq<char>| !#[trigger] query_spec(after, t.0, image_tag()).contains(
            sk,
        ) by {
            if query_spec(after, t.0, image_tag()).contains(sk) {
                assert(query_spec(store, t.0, image_tag()).contains(sk));
                assert(t.1.to_set().contains(sk));
                lemma_keys_under_contains(t.0, t.1, sk);
                lemma_concat_contains(keys_under(t.0, t.1), seq![(bpk, t.0), (t.0, t.0)]);
                lemma_tasks_keys_contains(bpk, w.tasks, j);
                assert(cs.contains((t.0, sk)));
            }
        }
        assert(query_spec(after, t.0, image_tag()) =~= Set::<Seq<char>>::empty());
    }
    assert forall|j: int| 0 <= j < w.images.len() implies query_spec(
        after,
        (#[trigger] w.images[j]).0,
        annotation_tag(),
    ) == Set::<Seq<char>>::empty() by {
        let im = w.images[j];
        assert forall|sk: Seq<char>| !#[trigger] query_spec(
            after,
            im.0,
            annotation_tag(),
        ).contains(sk) by {
            if query_spec(after, im.0, annotation_tag()).contains(sk) {
                assert(query_spec(store, im.0, annotation_tag()).contains(sk));
                assert(im.1.to_set().contains(sk));
                lemma_keys_under_contains(im.0, im.1, sk);
                lemma_concat_contains(seq![(bpk, im.0)], keys_under(im.0, im.1));
                lemma_concat_contains(
                    seq![(bpk, im.0)] + keys_under(im.0, im.1),
                    seq![(im.0, im.0)],
                );
                lemma_images_keys_contains(bpk, w.images, j);
                assert(cs.contains((im.0, sk)));
            }
        }
        assert(query_spec(after, im.0, annotation_tag()) =~= Set::<Seq<char>>::empty());
    }
    assert(query_spec(after, bpk, task_tag()) =~= Set::<Seq<char>>::empty());
    assert(query_spec(after, bpk, label_tag()) =~= Set::<Seq<char>>::empty());
    assert(query_spec(after, bpk, image_tag()) =~= Set::<Seq<char>>::empty());
}

/// Idempotent re-delete: a second delete of the same block, walking what the
/// first left, finds nothing under it, collects the block row's key alone,
/// and leaves the store as the first delete left it.
pub proof fn law_idempotent_redelete(
    store: Set<KeyV>,
    block_id: Seq<char>,
    first: WalkV,
    second: WalkV,
)
    requires
        walk_matches(store, block_id, first),
        walk_matches(remove_keys(store, cascade_spec(block_id, first)), block_id, second),
    ensures
        cascade_spec(block_id, second) == seq![block_key_of(block_id)],
        remove_keys(
            remove_keys(store, cascade_spec(block_id, first)),
            cascade_spec(block_id, second),
        ) == remove_keys(store, cascade_spec(block_id, first)),
{
    let bpk = block_tag() + block_id;
    let after = remove_keys(store, cascade_spec(block_id, first));
    law_cascade_completeness(store, block_id, first);
    if second.tasks.len() > 0 {
        assert(first_parts(second.tasks).to_set().contains(first_parts(second.tasks)[0]));
    }
    if second.labels.len() > 0 {
        assert(second.labels.to_set().contains(second.labels[0]));
    }
    if second.images.len() > 0 {
        assert(first_parts(second.images).to_set().contains(first_parts(second.images)[0]));
    }
    assert(tasks_keys(bpk, second.tasks) == Seq::<KeyV>::empty());
    assert(images_keys(bpk, second.images) == Seq::<KeyV>::empty());
    assert(keys_under(bpk, second.labels) =~= Seq::<KeyV>::empty());
    assert(cascade_spec(block_id, second) =~= seq![block_key_of(block_id)]);
    assert(remove_keys(after, seq![block_key_of(block_id)]) =~= after);
}

/// Orphan prevention: deleting an image together with every annotation
/// found on it leaves no annotation row under that image.
pub proof fn law_orphan_prevention(
    store: Set<KeyV>,
    block_id: Seq<char>,
    image_id: Seq<char>,
    annotation_ids: Seq<Seq<char>>,
)
    requires
        annotation_ids.map_values(|a: Seq<char>| annotation_tag() + a).to_set() == query_spec(
            store,
            image_tag() + image_id,
            annotation_tag(),
        ),
    ensures
        query_spec(
            remove_keys(store, image_delete_rows_spec(block_id, image_id, annotation_ids)),
            image_tag() + image_id,
            annotation_tag(),
        ) == Set::<Seq<char>>::empty(),
{
    let ipk = image_tag() + image_id;
    let rows = image_delete_rows_spec(block_id, image_id, annotation_ids);
    let after = remove_keys(store, rows);
    let named = annotation_ids.map_values(|a: Seq<char>| annotation_key_of(image_id, a));
    lemma_concat_contains(named, seq![image_key_of(block_id, image_id)]);
    assert forall|sk: Seq<char>| !#[trigger] query_spec(after, ipk, annotation_tag()).contains(
        sk,
    ) by {
        if query_spec(after, ipk, annotation_tag()).contains(sk) {
            assert(query_spec(store, ipk, annotation_tag()).contains(sk));
            let sks = annotation_ids.map_values(|a: Seq<char>| annotation_tag() + a);
            assert(sks.to_set().contains(sk));
            let i = choose|i: int| 0 <= i < sks.len() && sks[i] == sk;
            assert(named[i] == (ipk, sk));
            assert(rows.contains((ipk, sk)));
        }
    }
    assert(query_spec(after, ipk, annotation_tag()) =~= Set::<Seq<char>>::empty());
}

} // verus!
