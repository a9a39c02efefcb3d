use doxle_annotations::shared::{validate_contact, ContactError, ContactRequest};
use doxle_annotations::urls::_parse_bucket_and_key;

fn pair(a: &str, b: &str) -> Option<(String, String)> {
    Some((a.to_string(), b.to_string()))
}

#[test]
fn bucket_and_key_from_hosted_url() {
    assert_eq!(
        _parse_bucket_and_key("https://doxle-app.s3.amazonaws.com/annotations/blocks/B/a.png"),
        pair("doxle-app", "annotations/blocks/B/a.png")
    );
    assert_eq!(_parse_bucket_and_key("http://cdn.example.com/x"), pair("cdn.example.com", "x"));
}

#[test]
fn bucket_and_key_from_path_url() {
    assert_eq!(
        _parse_bucket_and_key("https://s3.ap-southeast-2.amazonaws.com/bucket/dir/k.png"),
        pair("bucket", "dir/k.png")
    );
    assert_eq!(_parse_bucket_and_key("https://s3.us-east-1.amazonaws.com/bucket"), None);
    assert_eq!(_parse_bucket_and_key("https://host-without-path"), None);
}

#[test]
fn contact_checks() {
    let req = |e: &str, m: &str| ContactRequest { email: e.to_string(), message: m.to_string() };
    assert_eq!(validate_contact(&req("", "hi")), Err(ContactError::InvalidEmail));
    assert_eq!(validate_contact(&req("nobody", "hi")), Err(ContactError::InvalidEmail));
    assert_eq!(validate_contact(&req("a@b.c", "")), Err(ContactError::InvalidMessage));
    assert_eq!(validate_contact(&req("a@b.c", "hi")), Ok(()));
}
