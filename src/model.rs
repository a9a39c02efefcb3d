//! Entity rows and request payloads of the workflow.
use vstd::prelude::*;

verus! {

/// The characters of an optional text.
pub open spec fn opt_text(o: Option<String>) -> Option<Seq<char>> {
    match o {
        Some(s) => Some(s@),
        None => None,
    }
}

/// A copy of an optional text.
pub fn copy_text(o: &Option<String>) -> (r: Option<String>)
    ensures
        r == *o,
{
    match o {
        Some(s) => Some(s.clone()),
        None => None,
    }
}

/// A top-level annotation batch with its aggregate counters.
#[derive(Clone, Debug)]
pub struct Block {
    pub block_id: String,
    pub block_name: String,
    pub block_type: String,
    pub block_company: Option<String>,
    pub block_state: String,
    pub block_locked: bool,
    pub image_count: u32,
    pub approved_image_count: u32,
    pub annotation_count: u32,
    pub block_created_at: String,
}

#[derive(Clone, Debug)]
pub struct CreateBlockPayload {
    pub block_name: String,
    pub block_type: String,
    pub block_company: Option<String>,
}

#[derive(Clone, Debug)]
pub struct UpdateBlockPayload {
    pub block_name: Option<String>,
    pub block_state: Option<String>,
    pub block_locked: Option<bool>,
}

/// A media asset of a block, optionally attached to a task.
#[derive(Clone, Debug)]
pub struct Image {
    pub image_id: String,
    pub block_id: String,
    pub task_id: Option<String>,
    pub url: String,
    pub locked: bool,
    pub order: Option<i32>,
    pub annotation_count: u32,
    pub uploaded_at: String,
}

#[derive(Clone, Debug)]
pub struct CreateImagePayload {
    pub url: String,
    pub task_id: Option<String>,
    pub order: Option<i32>,
}

#[derive(Clone, Debug)]
pub struct UpdateImagePayload {
    pub locked: Option<bool>,
    pub order: Option<i32>,
}

/// A unit of work within a block. `checked_by` names who checks the work.
#[derive(Clone, Debug)]
pub struct Task {
    pub task_id: String,
    pub block_id: String,
    pub task_name: String,
    pub task_state: String,
    pub assignee: String,
    pub checked_by: String,
    pub locked: bool,
    pub image_count: u32,
    pub created_at: String,
    pub images: Vec<Image>,
}

#[derive(Clone, Debug)]
pub struct CreateTaskPayload {
    pub task_name: String,
    pub assignee: Option<String>,
    pub checked_by: Option<String>,
}

#[derive(Clone, Debug)]
pub struct UpdateTaskPayload {
    pub task_name: Option<String>,
    pub task_state: Option<String>,
    pub assignee: Option<String>,
    pub checked_by: Option<String>,
}

#[derive(Clone, Debug)]
pub struct User {
    pub user_id: String,
    pub user_name: String,
    pub user_email: String,
    pub user_company: Option<String>,
    pub user_role: String,
    pub user_created_at: String,
    pub user_last_login: Option<String>,
}

#[derive(Clone, Debug)]
pub struct CreateUserPayload {
    pub user_name: String,
    pub user_email: String,
    pub user_company: Option<String>,
    pub user_role: String,
}

#[derive(Clone, Debug)]
pub struct UpdateUserPayload {
    pub user_name: Option<String>,
    pub user_company: Option<String>,
    pub user_role: Option<String>,
}

/// An annotation as the store holds it: the geometry is its serialized
/// tagged-union text.
#[derive(Clone, Debug)]
pub struct AnnotationRecord {
    pub annotation_id: String,
    pub image_id: String,
    pub label_id: String,
    pub geometry: String,
    pub created_by: String,
    pub created_at: String,
    pub updated_at: Option<String>,
}

/// A named, colored category of a block. `label_properties` is JSON text.
#[derive(Clone, Debug)]
pub struct Label {
    pub label_id: String,
    pub block_id: String,
    pub label_name: String,
    pub label_color: String,
    pub label_properties: Option<String>,
    pub label_count: u32,
}

#[derive(Clone, Debug)]
pub struct CreateLabelPayload {
    pub label_name: String,
    pub label_color: String,
    pub label_properties: Option<String>,
}

#[derive(Clone, Debug)]
pub struct UpdateLabelPayload {
    pub label_name: Option<String>,
    pub label_color: Option<String>,
    pub label_properties: Option<String>,
}

/// A block together with its labels.
#[derive(Clone, Debug)]
pub struct AnnotationBlock {
    pub block: Block,
    pub labels: Vec<Label>,
}

} // verus!
