//! Object-store locations written as URLs.
use vstd::prelude::*;
use crate::keys::{has_prefix, same_text, starts_with};

verus! {

/// First position at or after `i` where `s` holds `c`.
pub open spec fn char_from(s: Seq<char>, c: char, i: int) -> Option<int>
    decreases s.len() - i,
{
    if i < 0 || i >= s.len() {
        None
    } else if s[i] == c {
        Some(i)
    } else {
        char_from(s, c, i + 1)
    }
}

/// First position at or after `i` where `pat` starts in `s`.
pub open spec fn text_from(s: Seq<char>, pat: Seq<char>, i: int) -> Option<int>
    decreases s.len() + 1 - i,
{
    if i < 0 || i + pat.len() > s.len() {
        None
    } else if s.subrange(i, i + pat.len()) == pat {
        Some(i)
    } else {
        text_from(s, pat, i + 1)
    }
}

pub open spec fn without_scheme(url: Seq<char>) -> Seq<char> {
    if has_prefix(url, "https://"@) {
        url.subrange(8, url.len() as int)
    } else if has_prefix(url, "http://"@) {
        url.subrange(7, url.len() as int)
    } else {
        url
    }
}

/// Bucket and key of an object URL, in the virtual-hosted form
/// `bucket.s3.<...>/key` or the path form `s3.<region>.<...>/bucket/key`.
pub open spec fn bucket_and_key(url: Seq<char>) -> Option<(Seq<char>, Seq<char>)> {
    let rest = without_scheme(url);
    match char_from(rest, '/', 0) {
        None => None,
        Some(i) => {
            let host = rest.subrange(0, i);
            let path = rest.subrange(i + 1, rest.len() as int);
            if has_prefix(host, "s3."@) {
                match char_from(path, '/', 0) {
                    Some(j) => Some((path.subrange(0, j), path.subrange(j + 1, path.len() as int))),
                    None => None,
                }
            } else {
                match text_from(host, ".s3"@, 0) {
                    Some(k) => Some((host.subrange(0, k), path)),
                    None => Some((host, path)),
                }
            }
        },
    }
}

/// First position of `c` in `s`.
pub fn find_char(s: &str, c: char) -> (r: Option<usize>)
    ensures
        match r {
            Some(i) => i < s@.len() && char_from(s@, c, 0) == Some(i as int),
            None => char_from(s@, c, 0) is None,
        },
{
    let n = s.unicode_len();
    let mut i: usize = 0;
    while i < n
        invariant
            n == s@.len(),
            i <= n,
            char_from(s@, c, 0) == char_from(s@, c, i as int),
        decreases n - i,
    {
        if s.get_char(i) == c {
            return Some(i);
        }
        i = i + 1;
    }
    None
}

/// First position where `pat` starts in `s`.
pub fn find_text(s: &str, pat: &str) -> (r: Option<usize>)
    ensures
        match r {
            Some(i) => i + pat@.len() <= s@.len() && text_from(s@, pat@, 0) == Some(i as int),
            None => text_from(s@, pat@, 0) is None,
        },
{
    let n = s.unicode_len();
    let m = pat.unicode_len();
    if m > n {
        return None;
    }
    let mut i: usize = 0;
    loop
        invariant
            n == s@.len(),
            m == pat@.len(),
            m <= n,
            i <= n - m,
            text_from(s@, pat@, 0) == text_from(s@, pat@, i as int),
        decreases n - m - i,
    {
        let window = s.substring_char(i, i + m);
        if same_text(window, pat) {
            return Some(i);
        }
        if i == n - m {
            assert(text_from(s@, pat@, i + 1) is None);
            return None;
        }
        i = i + 1;
    }
}

/// Bucket and key of an object URL; `None` where the URL has no path, or,
/// in the path form, no key after the bucket.
pub fn _parse_bucket_and_key(url: &str) -> (r: Option<(String, String)>)
    ensures
        match r {
            Some((b, k)) => bucket_and_key(url@) == Some((b@, k@)),
            None => bucket_and_key(url@) is None,
        },
{
    let n = url.unicode_len();
    let rest: &str = if starts_with(url, "https://") {
        proof {
            reveal_strlit("https://");
        }
        url.substring_char(8, n)
    } else if starts_with(url, "http://") {
        proof {
            reveal_strlit("http://");
        }
        url.substring_char(7, n)
    } else {
        url
    };
    let rn = rest.unicode_len();
    let slash = match find_char(rest, '/') {
        Some(i) => i,
        None => {
            return None;
        },
    };
    let host = rest.substring_char(0, slash);
    let path = rest.substring_char(slash + 1, rn);
    if starts_with(host, "s3.") {
        let pn = path.unicode_len();
        match find_char(path, '/') {
            Some(j) => Some(
                (path.substring_char(0, j).to_string(), path.substring_char(j + 1, pn).to_string()),
            ),
            None => None,
        }
    } else {
        match find_text(host, ".s3") {
            Some(k) => Some((host.substring_char(0, k).to_string(), path.to_string())),
            None => Some((host.to_string(), path.to_string())),
        }
    }
}

pub open spec fn proxy_url_spec(url: Seq<char>) -> Seq<char> {
    match bucket_and_key(url) {
        Some((_, key)) => "https://api.doxle.ai/proxy-image/"@ + key,
        None => url,
    }
}

/// The address an image is served from: the image proxy for an object-store
/// URL, the URL itself otherwise.
pub fn proxy_url(url: &str) -> (r: String)
    ensures
        r@ == proxy_url_spec(url@),
{
    match _parse_bucket_and_key(url) {
        Some((_, key)) => crate::keys::tagged("https://api.doxle.ai/proxy-image/", key.as_str()),
        None => url.to_string(),
    }
}

} // verus!
