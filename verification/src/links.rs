//! Where the images of a post are found once the site is built.

use crate::text::chars_of;
use vstd::prelude::*;

verus! {

/// Whether `c` is the lower-case ASCII letter or other character `lower`,
/// or the upper-case form of that letter.
pub open spec fn same_ignoring_case(c: char, lower: char) -> bool {
    c == lower || ('A' <= c <= 'Z' && c as u32 + 32 == lower as u32)
}

/// Whether `s` begins with `prefix`, upper-case ASCII letters in `s` taken
/// as their lower-case forms.
pub open spec fn begins_ignoring_case(s: Seq<char>, prefix: Seq<char>) -> bool {
    prefix.len() <= s.len() && forall|i: int|
        0 <= i < prefix.len() ==> same_ignoring_case(#[trigger] s[i], prefix[i])
}

/// Whether a link leads somewhere by itself: it has the scheme `http`,
/// `https` or `data`, in any case, or begins with `/`.
pub open spec fn is_absolute(link: Seq<char>) -> bool {
    begins_ignoring_case(link, "http://"@) || begins_ignoring_case(link, "https://"@)
        || begins_ignoring_case(link, "data:"@) || (link.len() > 0 && link[0] == '/')
}

/// Where an image with the given source is found in the built site: a
/// source that is not absolute names a file under `/images/`.
pub open spec fn image_source_of(source: Seq<char>) -> Seq<char> {
    if is_absolute(source) {
        source
    } else {
        "/images/"@ + source
    }
}

fn begins_with(chars: &Vec<char>, prefix: &str) -> (b: bool)
    ensures
        b == begins_ignoring_case(chars@, prefix@),
{
    let wanted = chars_of(prefix);
    if wanted.len() > chars.len() {
        return false;
    }
    let mut i: usize = 0;
    while i < wanted.len()
        invariant
            0 <= i <= wanted.len() <= chars.len(),
            wanted@ == prefix@,
            forall|k: int| 0 <= k < i ==> same_ignoring_case(#[trigger] chars@[k], wanted@[k]),
        decreases wanted.len() - i,
    {
        let c = chars[i];
        let p = wanted[i];
        let same = c == p || ('A' <= c && c <= 'Z' && c as u32 + 32 == p as u32);
        if !same {
            assert(!same_ignoring_case(chars@[i as int], wanted@[i as int]));
            return false;
        }
        i += 1;
    }
    true
}

/// Whether a link leads somewhere by itself.
pub fn is_absolute_link(link: &str) -> (b: bool)
    ensures
        b == is_absolute(link@),
{
    let chars = chars_of(link);
    begins_with(&chars, "http://") || begins_with(&chars, "https://") || begins_with(
        &chars,
        "data:",
    ) || (chars.len() > 0 && chars[0] == '/')
}

/// The source to give an image of a post: an absolute source stays as it
/// is, any other is looked up under `/images/`.
pub fn image_source(source: &str) -> (r: String)
    ensures
        r@ == image_source_of(source@),
{
    if is_absolute_link(source) {
        source.to_owned()
    } else {
        let mut r = "/images/".to_owned();
        r.push_str(source);
        r
    }
}

} // verus!
