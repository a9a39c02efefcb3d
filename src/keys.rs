//! Partition and sort keys of the single-table layout.
use vstd::prelude::*;

verus! {

/// Partition key shared by every block row.
pub open spec fn root_tag() -> Seq<char> {
    "BLOCK"@
}

pub open spec fn block_tag() -> Seq<char> {
    "BLOCK#"@
}

pub open spec fn task_tag() -> Seq<char> {
    "TASK#"@
}

pub open spec fn image_tag() -> Seq<char> {
    "IMAGE#"@
}

pub open spec fn label_tag() -> Seq<char> {
    "LABEL#"@
}

pub open spec fn annotation_tag() -> Seq<char> {
    "ANNOTATION#"@
}

pub open spec fn user_tag() -> Seq<char> {
    "USER#"@
}

/// `p` is a prefix of `s`.
pub open spec fn has_prefix(s: Seq<char>, p: Seq<char>) -> bool {
    p.len() <= s.len() && s.subrange(0, p.len() as int) == p
}

/// A store address: partition key and sort key.
#[derive(Clone, Debug)]
pub struct StoreKey {
    pub pk: String,
    pub sk: String,
}

impl View for StoreKey {
    type V = (Seq<char>, Seq<char>);

    open spec fn view(&self) -> (Seq<char>, Seq<char>) {
        (self.pk@, self.sk@)
    }
}

impl StoreKey {
    pub fn new(pk: &str, sk: &str) -> (r: StoreKey)
        ensures
            r@ == (pk@, sk@),
    {
        StoreKey { pk: pk.to_string(), sk: sk.to_string() }
    }

    pub fn duplicate(&self) -> (r: StoreKey)
        ensures
            r@ == self@,
    {
        StoreKey { pk: self.pk.clone(), sk: self.sk.clone() }
    }
}

/// A query of every row in partition `pk` whose sort key starts with `sk_prefix`.
#[derive(Clone, Debug)]
pub struct KeyQuery {
    pub pk: String,
    pub sk_prefix: String,
}

impl View for KeyQuery {
    type V = (Seq<char>, Seq<char>);

    open spec fn view(&self) -> (Seq<char>, Seq<char>) {
        (self.pk@, self.sk_prefix@)
    }
}

/// `tag` followed by `id`.
pub fn tagged(tag: &str, id: &str) -> (r: String)
    ensures
        r@ == tag@ + id@,
{
    let mut s = String::from_str(tag);
    s.append(id);
    s
}

/// Sort key of a block row, also the partition of the block's children.
pub fn block_sk(block_id: &str) -> (r: String)
    ensures
        r@ == block_tag() + block_id@,
{
    tagged("BLOCK#", block_id)
}

pub fn task_sk(task_id: &str) -> (r: String)
    ensures
        r@ == task_tag() + task_id@,
{
    tagged("TASK#", task_id)
}

pub fn image_sk(image_id: &str) -> (r: String)
    ensures
        r@ == image_tag() + image_id@,
{
    tagged("IMAGE#", image_id)
}

pub fn label_sk(label_id: &str) -> (r: String)
    ensures
        r@ == label_tag() + label_id@,
{
    tagged("LABEL#", label_id)
}

pub fn annotation_sk(annotation_id: &str) -> (r: String)
    ensures
        r@ == annotation_tag() + annotation_id@,
{
    tagged("ANNOTATION#", annotation_id)
}

pub open spec fn block_key_of(block_id: Seq<char>) -> (Seq<char>, Seq<char>) {
    (root_tag(), block_tag() + block_id)
}

pub open spec fn task_key_of(block_id: Seq<char>, task_id: Seq<char>) -> (Seq<char>, Seq<char>) {
    (block_tag() + block_id, task_tag() + task_id)
}

pub open spec fn image_key_of(block_id: Seq<char>, image_id: Seq<char>) -> (Seq<char>, Seq<char>) {
    (block_tag() + block_id, image_tag() + image_id)
}

pub open spec fn label_key_of(block_id: Seq<char>, label_id: Seq<char>) -> (Seq<char>, Seq<char>) {
    (block_tag() + block_id, label_tag() + label_id)
}

pub open spec fn annotation_key_of(image_id: Seq<char>, annotation_id: Seq<char>) -> (
    Seq<char>,
    Seq<char>,
) {
    (image_tag() + image_id, annotation_tag() + annotation_id)
}

pub open spec fn user_key_of(user_id: Seq<char>) -> (Seq<char>, Seq<char>) {
    (user_tag() + user_id, user_tag() + user_id)
}

/// Key of the block row: `("BLOCK", "BLOCK#<id>")`.
pub fn block_key(block_id: &str) -> (r: StoreKey)
    ensures
        r@ == block_key_of(block_id@),
{
    StoreKey { pk: String::from_str("BLOCK"), sk: block_sk(block_id) }
}

pub fn task_key(block_id: &str, task_id: &str) -> (r: StoreKey)
    ensures
        r@ == task_key_of(block_id@, task_id@),
{
    StoreKey { pk: block_sk(block_id), sk: task_sk(task_id) }
}

pub fn image_key(block_id: &str, image_id: &str) -> (r: StoreKey)
    ensures
        r@ == image_key_of(block_id@, image_id@),
{
    StoreKey { pk: block_sk(block_id), sk: image_sk(image_id) }
}

pub fn label_key(block_id: &str, label_id: &str) -> (r: StoreKey)
    ensures
        r@ == label_key_of(block_id@, label_id@),
{
    StoreKey { pk: block_sk(block_id), sk: label_sk(label_id) }
}

pub fn annotation_key(image_id: &str, annotation_id: &str) -> (r: StoreKey)
    ensures
        r@ == annotation_key_of(image_id@, annotation_id@),
{
    StoreKey { pk: image_sk(image_id), sk: annotation_sk(annotation_id) }
}

pub fn user_key(user_id: &str) -> (r: StoreKey)
    ensures
        r@ == user_key_of(user_id@),
{
    let pk = tagged("USER#", user_id);
    let sk = tagged("USER#", user_id);
    StoreKey { pk, sk }
}

/// Whether `s` starts with `p`.
pub fn starts_with(s: &str, p: &str) -> (r: bool)
    ensures
        r == has_prefix(s@, p@),
{
    let n = s.unicode_len();
    let m = p.unicode_len();
    if m > n {
        return false;
    }
    let mut i: usize = 0;
    while i < m
        invariant
            m == p@.len(),
            n == s@.len(),
            m <= n,
            i <= m,
            forall|j: int| 0 <= j < i ==> s@[j] == p@[j],
        decreases m - i,
    {
        if s.get_char(i) != p.get_char(i) {
            assert(s@.subrange(0, m as int)[i as int] != p@[i as int]);
            return false;
        }
        i = i + 1;
    }
    assert(s@.subrange(0, m as int) =~= p@);
    true
}

/// Whether `a` and `b` hold the same characters.
pub fn same_text(a: &str, b: &str) -> (r: bool)
    ensures
        r == (a@ == b@),
{
    if a.unicode_len() != b.unicode_len() {
        return false;
    }
    let r = starts_with(a, b);
    assert(a@.subrange(0, a@.len() as int) =~= a@);
    r
}

/// `s` without its prefix `p`, or `None` where `s` does not start with `p`.
pub fn strip_prefix(s: &str, p: &str) -> (r: Option<String>)
    ensures
        r.is_some() == has_prefix(s@, p@),
        r.is_some() ==> r.unwrap()@ == s@.subrange(p@.len() as int, s@.len() as int),
{
    if starts_with(s, p) {
        let n = s.unicode_len();
        let m = p.unicode_len();
        Some(s.substring_char(m, n).to_string())
    } else {
        None
    }
}

/// Query of the tasks of a block.
pub fn tasks_query(block_id: &str) -> (r: KeyQuery)
    ensures
        r@ == (block_tag() + block_id@, task_tag()),
{
    KeyQuery { pk: block_sk(block_id), sk_prefix: String::from_str("TASK#") }
}

/// Query of the labels of a block.
pub fn labels_query(block_id: &str) -> (r: KeyQuery)
    ensures
        r@ == (block_tag() + block_id@, label_tag()),
{
    KeyQuery { pk: block_sk(block_id), sk_prefix: String::from_str("LABEL#") }
}

/// Query of the images of a block.
pub fn block_images_query(block_id: &str) -> (r: KeyQuery)
    ensures
        r@ == (block_tag() + block_id@, image_tag()),
{
    KeyQuery { pk: block_sk(block_id), sk_prefix: String::from_str("IMAGE#") }
}

/// Query of the images filed under a task's own partition, named by its sort key.
pub fn task_images_query(task_sk: &str) -> (r: KeyQuery)
    ensures
        r@ == (task_sk@, image_tag()),
{
    KeyQuery { pk: task_sk.to_string(), sk_prefix: String::from_str("IMAGE#") }
}

/// Query of the annotations of an image, named by the image's sort key.
pub fn annotations_query(image_sk: &str) -> (r: KeyQuery)
    ensures
        r@ == (image_sk@, annotation_tag()),
{
    KeyQuery { pk: image_sk.to_string(), sk_prefix: String::from_str("ANNOTATION#") }
}

/// Query of every block row.
pub fn blocks_query() -> (r: KeyQuery)
    ensures
        r@ == (root_tag(), block_tag()),
{
    KeyQuery { pk: String::from_str("BLOCK"), sk_prefix: String::from_str("BLOCK#") }
}

} // verus!
