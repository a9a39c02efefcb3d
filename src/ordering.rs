//! Listing order: images by their optional position, labels by the fixed
//! table of their block's type, tasks newest first.
use vstd::prelude::*;
use crate::keys::same_text;
use crate::model::{Image, Label, Task};

verus! {

pub open spec fn texts(v: Seq<&str>) -> Seq<Seq<char>> {
    v.map_values(|s: &str| s@)
}

/// Canonical label order of floor plans.
pub open spec fn floor_plan_order() -> Seq<Seq<char>> {
    seq![
        "fp-outside"@,
        "fp-inside"@,
        "ewalls"@,
        "windows"@,
        "iwalls"@,
        "doors"@,
        "cav-slider"@,
        "stairs"@,
        "robes"@,
        "toilet"@,
        "vanity"@,
        "shower"@,
        "bathtub"@,
        "sink"@,
        "outbuilding"@,
        "scale"@,
        "dims"@,
        "area"@,
        "title"@,
        "legend"@,
    ]
}

/// Canonical label order of elevations.
pub open spec fn elevation_order() -> Seq<Seq<char>> {
    seq![
        "gf-wall"@,
        "gf-window"@,
        "gf-roof"@,
        "ff-wall"@,
        "ff-window"@,
        "ff-roof"@,
        "sf-wall"@,
        "sf-window"@,
        "sf-roof"@,
        "skylight"@,
        "fence"@,
        "dims"@,
        "area"@,
        "title"@,
        "legend"@,
    ]
}

/// Canonical label order of electrical plans.
pub open spec fn electrical_plan_order() -> Seq<Seq<char>> {
    seq![
        "downlight"@,
        "gpo-single"@,
        "gpo-double"@,
    ]
}

/// Canonical label order of roof plans.
pub open spec fn roof_plan_order() -> Seq<Seq<char>> {
    seq![
        "box-gutter"@,
    ]
}

fn floor_plan_list() -> (r: Vec<&'static str>)
    ensures
        r.len() == 20,
        texts(r@) == floor_plan_order(),
{
    let mut r: Vec<&'static str> = Vec::new();
    r.push("fp-outside");
    r.push("fp-inside");
    r.push("ewalls");
    r.push("windows");
    r.push("iwalls");
    r.push("doors");
    r.push("cav-slider");
    r.push("stairs");
    r.push("robes");
    r.push("toilet");
    r.push("vanity");
    r.push("shower");
    r.push("bathtub");
    r.push("sink");
    r.push("outbuilding");
    r.push("scale");
    r.push("dims");
    r.push("area");
    r.push("title");
    r.push("legend");
    assert(texts(r@) =~= floor_plan_order());
    r
}

fn elevation_list() -> (r: Vec<&'static str>)
    ensures
        r.len() == 15,
        texts(r@) == elevation_order(),
{
    let mut r: Vec<&'static str> = Vec::new();
    r.push("gf-wall");
    r.push("gf-window");
    r.push("gf-roof");
    r.push("ff-wall");
    r.push("ff-window");
    r.push("ff-roof");
    r.push("sf-wall");
    r.push("sf-window");
    r.push("sf-roof");
    r.push("skylight");
    r.push("fence");
    r.push("dims");
    r.push("area");
    r.push("title");
    r.push("legend");
    assert(texts(r@) =~= elevation_order());
    r
}

fn electrical_plan_list() -> (r: Vec<&'static str>)
    ensures
        r.len() == 3,
        texts(r@) == electrical_plan_order(),
{
    let mut r: Vec<&'static str> = Vec::new();
    r.push("downlight");
    r.push("gpo-single");
    r.push("gpo-double");
    assert(texts(r@) =~= electrical_plan_order());
    r
}

fn roof_plan_list() -> (r: Vec<&'static str>)
    ensures
        r.len() == 1,
        texts(r@) == roof_plan_order(),
{
    let mut r: Vec<&'static str> = Vec::new();
    r.push("box-gutter");
    assert(texts(r@) =~= roof_plan_order());
    r
}

/// The canonical label order of a block type, where it has one.
pub open spec fn order_table(block_type: Seq<char>) -> Option<Seq<Seq<char>>> {
    if block_type == "floor"@ {
        Some(floor_plan_order())
    } else if block_type == "elevation"@ {
        Some(elevation_order())
    } else if block_type == "electrical"@ {
        Some(electrical_plan_order())
    } else if block_type == "roof"@ {
        Some(roof_plan_order())
    } else {
        None
    }
}

/// First position at or after `i` where `list` holds `name`.
pub open spec fn position_from(list: Seq<Seq<char>>, name: Seq<char>, i: int) -> Option<int>
    decreases list.len() - i,
{
    if i < 0 || i >= list.len() {
        None
    } else if list[i] == name {
        Some(i)
    } else {
        position_from(list, name, i + 1)
    }
}

/// Position of `label_name` in the table of `block_type`.
pub open spec fn order_index_spec(block_type: Seq<char>, label_name: Seq<char>) -> Option<int> {
    match order_table(block_type) {
        Some(list) => position_from(list, label_name, 0),
        None => None,
    }
}

fn order_list(block_type: &str) -> (r: Option<Vec<&'static str>>)
    ensures
        match r {
            Some(v) => order_table(block_type@) == Some(texts(v@)),
            None => order_table(block_type@) is None,
        },
        r is Some ==> r.unwrap().len() <= 20,
{
    if same_text(block_type, "floor") {
        Some(floor_plan_list())
    } else if same_text(block_type, "elevation") {
        Some(elevation_list())
    } else if same_text(block_type, "electrical") {
        Some(electrical_plan_list())
    } else if same_text(block_type, "roof") {
        Some(roof_plan_list())
    } else {
        None
    }
}

/// Position of `label_name` in the canonical order of `block_type`; `None`
/// for a name outside the table or a type without one.
pub fn order_index_for(block_type: &str, label_name: &str) -> (r: Option<u32>)
    ensures
        match r {
            Some(v) => order_index_spec(block_type@, label_name@) == Some(v as int),
            None => order_index_spec(block_type@, label_name@) is None,
        },
{
    let found = order_list(block_type);
    if found.is_none() {
        return None;
    }
    let list = found.unwrap();
    let ghost l = texts(list@);
    assert(order_table(block_type@) == Some(l));
    let mut i: usize = 0;
    while i < list.len()
        invariant
            i <= list.len(),
            list.len() <= 20,
            l == texts(list@),
            order_table(block_type@) == Some(l),
            position_from(l, label_name@, 0) == position_from(l, label_name@, i as int),
        decreases list.len() - i,
    {
        assert(l[i as int] == list@[i as int]@);
        if same_text(list[i], label_name) {
            assert(position_from(l, label_name@, i as int) == Some(i as int));
            return Some(i as u32);
        }
        i = i + 1;
    }
    None
}

/// Lexicographic order of texts by character code.
pub open spec fn text_lt(a: Seq<char>, b: Seq<char>) -> bool
    decreases a.len(),
{
    if b.len() == 0 {
        false
    } else if a.len() == 0 {
        true
    } else if a[0] != b[0] {
        a[0] < b[0]
    } else {
        text_lt(a.drop_first(), b.drop_first())
    }
}

pub proof fn lemma_text_lt_total(a: Seq<char>, b: Seq<char>)
    ensures
        a != b ==> text_lt(a, b) || text_lt(b, a),
    decreases a.len(),
{
    if a.len() > 0 && b.len() > 0 && a[0] == b[0] {
        lemma_text_lt_total(a.drop_first(), b.drop_first());
        if a.drop_first() == b.drop_first() {
            assert forall|i: int| 0 <= i < a.len() implies a[i] == b[i] by {
                if i > 0 {
                    assert(a[i] == a.drop_first()[i - 1]);
                    assert(b[i] == b.drop_first()[i - 1]);
                }
            }
            assert(a =~= b);
        }
    } else if a.len() == 0 && b.len() == 0 {
        assert(a =~= b);
    }
}

/// Whether `a` comes before `b` in character-code order.
pub fn text_less(a: &str, b: &str) -> (r: bool)
    ensures
        r == text_lt(a@, b@),
{
    let la = a.unicode_len();
    let lb = b.unicode_len();
    let mut i: usize = 0;
    assert(a@.subrange(0, la as int) =~= a@);
    assert(b@.subrange(0, lb as int) =~= b@);
    while i < la && i < lb
        invariant
            la == a@.len(),
            lb == b@.len(),
            i <= la,
            i <= lb,
            text_lt(a@, b@) == text_lt(
                a@.subrange(i as int, la as int),
                b@.subrange(i as int, lb as int),
            ),
        decreases la - i,
    {
        let ca = a.get_char(i);
        let cb = b.get_char(i);
        let ghost sa = a@.subrange(i as int, la as int);
        let ghost sb = b@.subrange(i as int, lb as int);
        assert(sa[0] == ca && sb[0] == cb);
        if ca != cb {
            return ca < cb;
        }
        assert(sa.drop_first() =~= a@.subrange(i + 1, la as int));
        assert(sb.drop_first() =~= b@.subrange(i + 1, lb as int));
        i = i + 1;
    }
    i == la && i < lb
}

/// What an item is ordered by: a rank first, then a text.
#[derive(Clone, Debug)]
pub struct SortKey {
    pub rank: u64,
    pub text: String,
}

pub type SortKeyV = (int, Seq<char>);

impl View for SortKey {
    type V = SortKeyV;

    open spec fn view(&self) -> SortKeyV {
        (self.rank as int, self.text@)
    }
}

pub open spec fn sort_keys_view(v: Seq<SortKey>) -> Seq<SortKeyV> {
    v.map_values(|k: SortKey| k@)
}

/// Item `ia` with key `ka` comes before item `ib` with key `kb`: by rank,
/// then by text (reversed where `descending`), then by input position.
pub open spec fn entry_lt(ka: SortKeyV, ia: int, kb: SortKeyV, ib: int, descending: bool) -> bool {
    ka.0 < kb.0 || (ka.0 == kb.0 && ((if descending {
        text_lt(kb.1, ka.1)
    } else {
        text_lt(ka.1, kb.1)
    }) || (ka.1 == kb.1 && ia < ib)))
}

/// `pos` lists each position below `n` exactly once.
pub open spec fn is_permutation(pos: Seq<int>, n: int) -> bool {
    &&& pos.len() == n
    &&& forall|j: int| 0 <= j < n ==> 0 <= #[trigger] pos[j] < n
    &&& forall|j: int, k: int| 0 <= j < n && 0 <= k < n && j != k ==> pos[j] != pos[k]
}

/// `r` is `v` rearranged so that consecutive items follow `entry_lt` on
/// `keys`: sorted by key, items of equal key in their input order.
pub open spec fn arranged_by<T>(r: Seq<T>, v: Seq<T>, keys: Seq<SortKeyV>, descending: bool) -> bool {
    exists|pos: Seq<int>|
        {
            &&& is_permutation(pos, v.len() as int)
            &&& forall|j: int| 0 <= j < r.len() ==> r[j] == v[#[trigger] pos[j]]
            &&& forall|j: int|
                0 <= j < r.len() - 1 ==> entry_lt(
                    keys[#[trigger] pos[j]],
                    pos[j],
                    keys[pos[j + 1]],
                    pos[j + 1],
                    descending,
                )
        }
}

pub proof fn lemma_entry_lt_total(ka: SortKeyV, ia: int, kb: SortKeyV, ib: int, descending: bool)
    requires
        ia != ib,
    ensures
        entry_lt(ka, ia, kb, ib, descending) || entry_lt(kb, ib, ka, ia, descending),
{
    lemma_text_lt_total(ka.1, kb.1);
}

fn key_before(ka: &SortKey, ia: usize, kb: &SortKey, ib: usize, descending: bool) -> (r: bool)
    ensures
        r == entry_lt(ka@, ia as int, kb@, ib as int, descending),
{
    if ka.rank != kb.rank {
        return ka.rank < kb.rank;
    }
    let by_text = if descending {
        text_less(kb.text.as_str(), ka.text.as_str())
    } else {
        text_less(ka.text.as_str(), kb.text.as_str())
    };
    by_text || (same_text(ka.text.as_str(), kb.text.as_str()) && ia < ib)
}

/// `items` rearranged in the order of their keys, stable among equal keys.
pub fn sort_by_keys<T>(items: Vec<T>, keys: &Vec<SortKey>, descending: bool) -> (r: Vec<T>)
    requires
        items.len() == keys.len(),
    ensures
        r.len() == items.len(),
        arranged_by(r@, items@, sort_keys_view(keys@), descending),
{
    let ghost orig = items@;
    let ghost ks = sort_keys_view(keys@);
    let n = items.len();
    let mut src = items;
    let mut r: Vec<T> = Vec::new();
    let mut at: Vec<usize> = Vec::new();
    while src.len() > 0
        invariant
            n == orig.len(),
            n == keys.len(),
            ks == sort_keys_view(keys@),
            src@ == orig.subrange(0, src.len() as int),
            r.len() + src.len() == n,
            at.len() == r.len(),
            forall|j: int| 0 <= j < at.len() ==> src.len() <= #[trigger] at@[j] < n,
            forall|j: int, k: int|
                0 <= j < at.len() && 0 <= k < at.len() && j != k ==> at@[j] != at@[k],
            forall|j: int| 0 <= j < r.len() ==> r@[j] == orig[#[trigger] at@[j] as int],
            forall|j: int|
                0 <= j < r.len() - 1 ==> entry_lt(
                    ks[#[trigger] at@[j] as int],
                    at@[j] as int,
                    ks[at@[j + 1] as int],
                    at@[j + 1] as int,
                    descending,
                ),
        decreases src.len(),
    {
        let x = src.pop().unwrap();
        let idx = src.len();
        let mut p: usize = 0;
        while p < r.len() && key_before(&keys[at[p]], at[p], &keys[idx], idx, descending)
            invariant
                p <= r.len(),
                at.len() == r.len(),
                idx < n,
                n == keys.len(),
                ks == sort_keys_view(keys@),
                forall|j: int| 0 <= j < at.len() ==> idx < #[trigger] at@[j] < n,
                p > 0 ==> entry_lt(
                    ks[at@[p - 1] as int],
                    at@[p - 1] as int,
                    ks[idx as int],
                    idx as int,
                    descending,
                ),
            decreases r.len() - p,
        {
            p = p + 1;
        }
        proof {
            if p < r.len() {
                lemma_entry_lt_total(
                    ks[at@[p as int] as int],
                    at@[p as int] as int,
                    ks[idx as int],
                    idx as int,
                    descending,
                );
            }
        }
        let ghost old_at = at@;
        let ghost old_r = r@;
        r.insert(p, x);
        at.insert(p, idx);
        assert forall|j: int| 0 <= j < r.len() - 1 implies entry_lt(
            ks[#[trigger] at@[j] as int],
            at@[j] as int,
            ks[at@[j + 1] as int],
            at@[j + 1] as int,
            descending,
        ) by {
            if j < p - 1 {
                assert(at@[j] == old_at[j] && at@[j + 1] == old_at[j + 1]);
            } else if j > p {
                assert(at@[j] == old_at[j - 1] && at@[j + 1] == old_at[j]);
            }
        }
        assert forall|j: int| 0 <= j < r.len() implies r@[j] == orig[#[trigger] at@[j] as int] by {
            if j < p {
                assert(r@[j] == old_r[j] && at@[j] == old_at[j]);
            } else if j > p {
                assert(r@[j] == old_r[j - 1] && at@[j] == old_at[j - 1]);
            }
        }
        assert forall|j: int, k: int|
            0 <= j < at.len() && 0 <= k < at.len() && j != k implies at@[j] != at@[k] by {
            if j != p && k != p {
                let jj = if j < p { j } else { j - 1 };
                let kk = if k < p { k } else { k - 1 };
                assert(at@[j] == old_at[jj] && at@[k] == old_at[kk]);
            } else if j == p {
                let kk = if k < p { k } else { k - 1 };
                assert(at@[k] == old_at[kk]);
            } else {
                let jj = if j < p { j } else { j - 1 };
                assert(at@[j] == old_at[jj]);
            }
        }
        assert forall|j: int| 0 <= j < at.len() implies src.len() <= #[trigger] at@[j] < n by {
            if j < p {
                assert(at@[j] == old_at[j]);
            } else if j > p {
                assert(at@[j] == old_at[j - 1]);
            }
        }
    }
    let ghost pos = at@.map_values(|a: usize| a as int);
    assert(is_permutation(pos, n as int));
    assert(forall|j: int| 0 <= j < r.len() ==> r@[j] == orig[#[trigger] pos[j]]);
    r
}

/// Rank of an image: its order where it has one, every ordered image before
/// every unordered one.
pub open spec fn image_rank(order: Option<i32>) -> int {
    match order {
        Some(o) => o - i32::MIN,
        None => u64::MAX as int,
    }
}

pub open spec fn image_keys_spec(v: Seq<Image>) -> Seq<SortKeyV> {
    v.map_values(|im: Image| (image_rank(im.order), Seq::<char>::empty()))
}

/// Images ordered by `order` ascending; images without one come after all
/// others, and images of equal order keep their relative order.
pub fn sort_images_by_order(images: Vec<Image>) -> (r: Vec<Image>)
    ensures
        r.len() == images.len(),
        arranged_by(r@, images@, image_keys_spec(images@), false),
{
    let mut keys: Vec<SortKey> = Vec::new();
    let mut i: usize = 0;
    while i < images.len()
        invariant
            i <= images.len(),
            sort_keys_view(keys@) == image_keys_spec(images@.subrange(0, i as int)),
        decreases images.len() - i,
    {
        let rank: u64 = match images[i].order {
            Some(o) => (o as i64 - i32::MIN as i64) as u64,
            None => u64::MAX,
        };
        let k = SortKey { rank, text: String::new() };
        let ghost before = sort_keys_view(keys@);
        keys.push(k);
        assert(sort_keys_view(keys@) =~= before.push(k@));
        assert(image_keys_spec(images@.subrange(0, i + 1)) =~= image_keys_spec(
            images@.subrange(0, i as int),
        ).push((image_rank(images@[i as int].order), Seq::<char>::empty())));
        i = i + 1;
    }
    assert(images@.subrange(0, i as int) =~= images@);
    sort_by_keys(images, &keys, false)
}

pub open spec fn opt_str(o: Option<&str>) -> Option<Seq<char>> {
    match o {
        Some(s) => Some(s@),
        None => None,
    }
}

/// Rank of a label: its position in the table of the block's type, every
/// listed label before every unlisted one. A block without a type lists
/// none.
pub open spec fn label_rank(block_type: Option<Seq<char>>, name: Seq<char>) -> int {
    match block_type {
        Some(bt) => match order_index_spec(bt, name) {
            Some(i) => i,
            None => u64::MAX as int,
        },
        None => u64::MAX as int,
    }
}

pub open spec fn label_keys_spec(block_type: Option<Seq<char>>, v: Seq<Label>) -> Seq<SortKeyV> {
    v.map_values(|l: Label| (label_rank(block_type, l.label_name@), l.label_name@))
}

/// Labels in the canonical order of `block_type`: listed names first by
/// their table position, the rest after them by name. Where the type has no
/// table, or the block no type, all of them go by name.
pub fn sort_labels(labels: Vec<Label>, block_type: Option<&str>) -> (r: Vec<Label>)
    ensures
        r.len() == labels.len(),
        arranged_by(r@, labels@, label_keys_spec(opt_str(block_type), labels@), false),
{
    let mut keys: Vec<SortKey> = Vec::new();
    let mut i: usize = 0;
    while i < labels.len()
        invariant
            i <= labels.len(),
            sort_keys_view(keys@) == label_keys_spec(
                opt_str(block_type),
                labels@.subrange(0, i as int),
            ),
        decreases labels.len() - i,
    {
        let position = match block_type {
            Some(bt) => order_index_for(bt, labels[i].label_name.as_str()),
            None => None,
        };
        let rank: u64 = match position {
            Some(v) => v as u64,
            None => u64::MAX,
        };
        let k = SortKey { rank, text: labels[i].label_name.clone() };
        let ghost before = sort_keys_view(keys@);
        keys.push(k);
        assert(sort_keys_view(keys@) =~= before.push(k@));
        assert(label_keys_spec(opt_str(block_type), labels@.subrange(0, i + 1)) =~= label_keys_spec(
            opt_str(block_type),
            labels@.subrange(0, i as int),
        ).push(
            (
                label_rank(opt_str(block_type), labels@[i as int].label_name@),
                labels@[i as int].label_name@,
            ),
        ));
        i = i + 1;
    }
    assert(labels@.subrange(0, i as int) =~= labels@);
    sort_by_keys(labels, &keys, false)
}

pub open spec fn task_keys_spec(v: Seq<Task>) -> Seq<SortKeyV> {
    v.map_values(|t: Task| (0int, t.created_at@))
}

/// Tasks newest first by creation timestamp; tasks created at the same
/// instant keep their relative order.
pub fn sort_tasks_newest_first(tasks: Vec<Task>) -> (r: Vec<Task>)
    ensures
        r.len() == tasks.len(),
        arranged_by(r@, tasks@, task_keys_spec(tasks@), true),
{
    let mut keys: Vec<SortKey> = Vec::new();
    let mut i: usize = 0;
    while i < tasks.len()
        invariant
            i <= tasks.len(),
            sort_keys_view(keys@) == task_keys_spec(tasks@.subrange(0, i as int)),
        decreases tasks.len() - i,
    {
        let k = SortKey { rank: 0, text: tasks[i].created_at.clone() };
        let ghost before = sort_keys_view(keys@);
        keys.push(k);
        assert(sort_keys_view(keys@) =~= before.push(k@));
        assert(task_keys_spec(tasks@.subrange(0, i + 1)) =~= task_keys_spec(
            tasks@.subrange(0, i as int),
        ).push((0int, tasks@[i as int].created_at@)));
        i = i + 1;
    }
    assert(tasks@.subrange(0, i as int) =~= tasks@);
    sort_by_keys(tasks, &keys, true)
}

} // verus!
