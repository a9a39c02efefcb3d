//! Image records of the annotation blocks, where every image belongs to a
//! task.
use vstd::prelude::*;

verus! {

#[derive(Clone, Debug)]
pub struct Image {
    pub image_id: String,
    pub task_id: String,
    pub block_id: String,
    pub image_url: String,
    pub image_locked: bool,
    pub annotation_count: u32,
    pub image_created_at: String,
}

#[derive(Clone, Debug)]
pub struct CreateImagePayload {
    pub task_id: String,
    pub image_url: String,
}

#[derive(Clone, Debug)]
pub struct UpdateImagePayload {
    pub image_locked: Option<bool>,
}

} // verus!
