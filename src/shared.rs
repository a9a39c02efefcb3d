//! Records shared across the service, and the contact form's checks.
use vstd::prelude::*;

verus! {

/// Size and layout of an uploaded image and its pyramid levels.
#[derive(Clone, Debug)]
pub struct ImageMetadata {
    pub original_width: u32,
    pub original_height: u32,
    pub file_size: usize,
    pub format: String,
    pub levels: Vec<ImageLevel>,
}

#[derive(Clone, Debug)]
pub struct ImageLevel {
    pub width: u32,
    pub height: u32,
    pub path: String,
    pub size: usize,
    pub purpose: String,
}

/// A remark left on an image.
#[derive(Clone, Debug)]
pub struct Comment {
    pub comment_id: String,
    pub image_id: String,
    pub user_id: String,
    pub text: String,
    pub resolved: bool,
    pub created_at: String,
}

/// Actions a realtime client may send.
#[derive(Clone, Copy, Debug, PartialEq, Eq, Structural)]
pub enum WebSocketAction {
    CreateProject,
    UpdateProject,
    DeleteProject,
    CreateBlock,
    UpdateBlock,
    DeleteBlock,
    CreateImage,
    UpdateImage,
    DeleteImage,
    CreateAnnotation,
    UpdateAnnotation,
    DeleteAnnotation,
    BatchCreateAnnotations,
    CreateClass,
    UpdateClass,
    DeleteClass,
}

/// A message sent through the contact form.
#[derive(Clone, Debug)]
pub struct ContactRequest {
    pub email: String,
    pub message: String,
}

/// Why a contact message is refused before it is sent.
#[derive(Clone, Copy, Debug, PartialEq, Eq, Structural)]
pub enum ContactError {
    InvalidEmail,
    InvalidMessage,
}

pub open spec fn email_acceptable(email: Seq<char>) -> bool {
    email.len() > 0 && email.contains('@')
}

/// Whether `s` holds `c`.
pub fn contains_char(s: &str, c: char) -> (r: bool)
    ensures
        r == s@.contains(c),
{
    let n = s.unicode_len();
    let mut i: usize = 0;
    while i < n
        invariant
            n == s@.len(),
            i <= n,
            forall|j: int| 0 <= j < i ==> s@[j] != c,
        decreases n - i,
    {
        if s.get_char(i) == c {
            return true;
        }
        i = i + 1;
    }
    false
}

/// The checks a contact message passes before it is sent: an email with an
/// '@', then a message that is not empty.
pub fn validate_contact(req: &ContactRequest) -> (r: Result<(), ContactError>)
    ensures
        !email_acceptable(req.email@) ==> r == Err::<(), ContactError>(ContactError::InvalidEmail),
        email_acceptable(req.email@) && req.message@.len() == 0 ==> r == Err::<(), ContactError>(
            ContactError::InvalidMessage,
        ),
        email_acceptable(req.email@) && req.message@.len() > 0 ==> r is Ok,
{
    let email = req.email.as_str();
    if email.unicode_len() == 0 || !contains_char(email, '@') {
        return Err(ContactError::InvalidEmail);
    }
    if req.message.as_str().unicode_len() == 0 {
        return Err(ContactError::InvalidMessage);
    }
    Ok(())
}

} // verus!
