//! The front matter of a markdown file: the block between the first two
//! `---` rules, and the tags written in it.

use crate::text::{chars_of, push_range};
use vstd::prelude::*;

verus! {

/// Whether a rule `---` stands at position `i` of `s`.
pub open spec fn rule_at(s: Seq<char>, i: int) -> bool {
    0 <= i && i + 3 <= s.len() && s[i] == '-' && s[i + 1] == '-' && s[i + 2] == '-'
}

/// The position of the first rule in `s` at or after `from`, or `s.len()`
/// when there is none.
pub open spec fn next_rule(s: Seq<char>, from: int) -> int
    decreases s.len() - from,
{
    if from < 0 || from >= s.len() {
        s.len() as int
    } else if rule_at(s, from) {
        from
    } else {
        next_rule(s, from + 1)
    }
}

/// The front matter of a text: what stands between its first rule and the
/// next one after it, or the end of the text where no second rule follows.
/// A text without a rule has no front matter.
pub open spec fn front_matter_of(s: Seq<char>) -> Option<Seq<char>> {
    let open = next_rule(s, 0);
    if open == s.len() {
        None
    } else {
        Some(s.subrange(open + 3, next_rule(s, open + 3)))
    }
}

/// The position of the first rule at or after `from`.
fn find_rule(chars: &Vec<char>, from: usize) -> (at: usize)
    requires
        from <= chars.len(),
    ensures
        at == next_rule(chars@, from as int),
        from <= at <= chars.len(),
        at < chars.len() ==> at + 3 <= chars.len(),
{
    let n = chars.len();
    let mut i: usize = from;
    while i < n
        invariant
            from <= i <= n,
            n == chars.len(),
            next_rule(chars@, from as int) == next_rule(chars@, i as int),
        decreases n - i,
    {
        if n - i >= 3 && chars[i] == '-' && chars[i + 1] == '-' && chars[i + 2] == '-' {
            return i;
        }
        i += 1;
    }
    n
}

/// The front matter block of a markdown file, if it has one.
pub fn front_matter_block(content: &str) -> (r: Option<String>)
    ensures
        r.deep_view() == front_matter_of(content@),
{
    let chars = chars_of(content);
    let open = find_rule(&chars, 0);
    if open == chars.len() {
        return None;
    }
    let close = find_rule(&chars, open + 3);
    let mut block = String::new();
    push_range(&mut block, &chars, open + 3, close);
    Some(block)
}

/// A tag without the `#` it may be written with.
pub open spec fn bare_tag(tag: Seq<char>) -> Seq<char> {
    if tag.len() > 0 && tag[0] == '#' {
        tag.skip(1)
    } else {
        tag
    }
}

/// Removes the `#` in front of a tag, if there is one.
pub fn strip_tag_prefix(tag: &str) -> (bare: String)
    ensures
        bare@ == bare_tag(tag@),
{
    let chars = chars_of(tag);
    let mut bare = String::new();
    if chars.len() > 0 && chars[0] == '#' {
        push_range(&mut bare, &chars, 1, chars.len());
        assert(chars@.subrange(1, chars.len() as int) == chars@.skip(1));
    } else {
        push_range(&mut bare, &chars, 0, chars.len());
        assert(chars@.subrange(0, chars.len() as int) == chars@);
    }
    bare
}

/// Removes the `#` in front of each tag that has one.
pub fn normalize_tags(tags: &Vec<String>) -> (bare: Vec<String>)
    ensures
        bare.len() == tags.len(),
        forall|i: int| 0 <= i < tags.len() ==> bare@[i]@ == bare_tag(tags@[i]@),
{
    let mut bare: Vec<String> = Vec::new();
    let mut i: usize = 0;
    while i < tags.len()
        invariant
            0 <= i <= tags.len(),
            bare.len() == i,
            forall|k: int| 0 <= k < i ==> bare@[k]@ == bare_tag(tags@[k]@),
        decreases tags.len() - i,
    {
        bare.push(strip_tag_prefix(tags[i].as_str()));
        i += 1;
    }
    bare
}

} // verus!
