//! Posts, their metadata, and the list of all posts with its tag index.

use vstd::prelude::*;

verus! {

/// What the front matter of a post says about it.
#[derive(Debug, Clone, PartialEq, Eq)]
pub struct PostMetadata {
    pub date: String,
    pub published: bool,
    pub tags: Option<Vec<String>>,
    pub read_mins: u32,
    pub description: Option<String>,
}

/// A post: its title, the slug it is filed under, its metadata and its
/// contents as HTML.
#[derive(Debug, Clone, PartialEq, Eq)]
pub struct Post {
    pub title: String,
    pub slug: String,
    pub metadata: PostMetadata,
    pub contents: String,
}

/// A tag with the slugs of the posts that carry it.
#[derive(Debug, Clone, PartialEq, Eq)]
pub struct TagPosts {
    pub tag: String,
    pub slugs: Vec<String>,
}

/// The published posts, and for every tag the posts that carry it,
/// published or not.
#[derive(Debug, Clone, PartialEq, Eq)]
pub struct PostList {
    pub blogs: Vec<Post>,
    pub tags: Vec<TagPosts>,
}

/// [`PostMetadata`] with its texts as sequences of characters.
pub struct PostMetadataView {
    pub date: Seq<char>,
    pub published: bool,
    pub tags: Option<Seq<Seq<char>>>,
    pub read_mins: u32,
    pub description: Option<Seq<char>>,
}

/// [`Post`] with its texts as sequences of characters.
pub struct PostView {
    pub title: Seq<char>,
    pub slug: Seq<char>,
    pub metadata: PostMetadataView,
    pub contents: Seq<char>,
}

impl View for PostMetadata {
    type V = PostMetadataView;

    open spec fn view(&self) -> PostMetadataView {
        PostMetadataView {
            date: self.date@,
            published: self.published,
            tags: self.tags.deep_view(),
            read_mins: self.read_mins,
            description: self.description.deep_view(),
        }
    }
}

impl View for Post {
    type V = PostView;

    open spec fn view(&self) -> PostView {
        PostView {
            title: self.title@,
            slug: self.slug@,
            metadata: self.metadata@,
            contents: self.contents@,
        }
    }
}

/// Whether `part` stands somewhere in `whole` as one piece.
pub open spec fn occurs_in(part: Seq<char>, whole: Seq<char>) -> bool {
    exists|i: int|
        0 <= i && i + part.len() <= whole.len() && #[trigger] whole.subrange(
            i,
            i + part.len(),
        ) == part
}

/// The slug of a title: its lower-case ASCII letters and digits, with a
/// single `-` wherever anything else stood between them.
pub uninterp spec fn slug_of(title: Seq<char>) -> Seq<char>;

/// The stem of the file that a path names: the last component of the
/// path, without its last extension. `None` where the path has no file
/// name, as the root and a path that ends in `..`. The path is read as
/// text only, by the rules of the platform that the library is built for;
/// no file system is asked.
pub uninterp spec fn file_stem_of(path: Seq<char>) -> Option<Seq<char>>;

/// `Path::file_stem` of the path, as text: the file name without its last
/// extension, where the path has a file name. The stem is a piece of the
/// path and holds no `/`.
#[verifier::external_body]
fn path_file_stem(path: &str) -> (r: Option<String>)
    ensures
        r.deep_view() == file_stem_of(path@),
        r matches Some(stem) ==> occurs_in(stem@, path@) && !stem@.contains('/'),
{
    std::path::Path::new(path).file_stem().and_then(|stem| stem.to_str()).map(|stem| stem.to_owned())
}

/// `slugify::slugify` with no stop words, `-` as separator and no limit on
/// the length, which is what the crate's `slugify!` makes of one argument.
#[verifier::external_body]
fn slugify_text(text: &str) -> (slug: String)
    ensures
        slug@ == slug_of(text@),
{
    slugify::slugify(text, "", "-", None)
}

/// The title of the post stored at `path`: the stem of its file name.
/// `None` where the path names no file.
pub fn generate_title_from_path(path: &str) -> (r: Option<String>)
    ensures
        r.deep_view() == file_stem_of(path@),
        r matches Some(title) ==> occurs_in(title@, path@) && !title@.contains('/'),
{
    path_file_stem(path)
}

impl Post {
    /// The post with the given title, metadata and contents, filed under
    /// the slug of its title.
    pub fn new(title: &str, metadata: PostMetadata, contents: String) -> (post: Post)
        ensures
            post@.title == title@,
            post@.slug == slug_of(title@),
            post.metadata == metadata,
            post.contents == contents,
    {
        Post { title: title.to_owned(), slug: slugify_text(title), metadata, contents }
    }
}

/// The views of a sequence of posts.
pub open spec fn post_views(posts: Seq<Post>) -> Seq<PostView> {
    posts.map_values(|p: Post| p@)
}

/// Whether the post carries the tag.
pub open spec fn tagged(post: PostView, tag: Seq<char>) -> bool {
    post.metadata.tags matches Some(tags) && tags.contains(tag)
}

/// The tag index of a sequence of posts: all pairs of a tag and the slug of
/// a post that carries it.
pub open spec fn tag_pairs(posts: Seq<PostView>) -> Set<(Seq<char>, Seq<char>)> {
    Set::new(
        |pair: (Seq<char>, Seq<char>)|
            exists|i: int| 0 <= i < posts.len() && posts[i].slug == pair.1 && tagged(posts[i], pair.0),
    )
}

/// The published posts among `posts`, in their order.
pub open spec fn published_posts(posts: Seq<PostView>) -> Seq<PostView>
    decreases posts.len(),
{
    if posts.len() == 0 {
        Seq::empty()
    } else if posts.last().metadata.published {
        published_posts(posts.drop_last()).push(posts.last())
    } else {
        published_posts(posts.drop_last())
    }
}

/// The pairs of a tag and a slug that the entries hold.
pub open spec fn entry_pairs(entries: Seq<TagPosts>) -> Set<(Seq<char>, Seq<char>)> {
    Set::new(
        |pair: (Seq<char>, Seq<char>)|
            exists|i: int, j: int|
                0 <= i < entries.len() && 0 <= j < entries[i].slugs@.len() && entries[i].tag@
                    == pair.0 && #[trigger] entries[i].slugs@[j]@ == pair.1,
    )
}

/// No tag has two entries, no entry is empty, and no entry holds a slug
/// twice.
pub open spec fn entries_wf(entries: Seq<TagPosts>) -> bool {
    &&& forall|i: int, j: int|
        0 <= i < j < entries.len() ==> #[trigger] entries[i].tag@ != #[trigger] entries[j].tag@
    &&& forall|i: int| 0 <= i < entries.len() ==> (#[trigger] entries[i]).slugs@.len() > 0
    &&& forall|i: int, j: int, k: int|
        0 <= i < entries.len() && 0 <= j < k < entries[i].slugs@.len() ==> #[trigger] entries[i].slugs@[j]@
            != #[trigger] entries[i].slugs@[k]@
}

impl PostList {
    /// The tag index as a set of pairs of a tag and a slug.
    pub open spec fn tag_index(&self) -> Set<(Seq<char>, Seq<char>)> {
        entry_pairs(self.tags@)
    }

    /// The tag entries are well formed.
    pub open spec fn wf(&self) -> bool {
        entries_wf(self.tags@)
    }

    /// A list with no post and no tag.
    pub fn new() -> (list: PostList)
        ensures
            list.wf(),
            list.blogs@.len() == 0,
            list.tag_index() == Set::<(Seq<char>, Seq<char>)>::empty(),
    {
        let list = PostList { blogs: Vec::new(), tags: Vec::new() };
        assert(list.tag_index() =~= Set::<(Seq<char>, Seq<char>)>::empty());
        list
    }

    /// Records that the post filed under `slug` carries `tag`.
    pub fn add_tag(&mut self, tag: &str, slug: &str)
        requires
            old(self).wf(),
        ensures
            final(self).wf(),
            final(self).blogs == old(self).blogs,
            final(self).tag_index() == old(self).tag_index().insert((tag@, slug@)),
    {
        let ghost before = self.tags@;
        let n = self.tags.len();
        let i = find_tag(&self.tags, tag);
        if i < n {
            let m = self.tags[i].slugs.len();
            let j = find_text(&self.tags[i].slugs, slug);
            if j < m {
                assert(before[i as int].tag@ == tag@ && before[i as int].slugs@[j as int]@ == slug@);
                assert(entry_pairs(before).contains((tag@, slug@)));
                assert(entry_pairs(before).insert((tag@, slug@)) =~= entry_pairs(before));
            } else {
                self.tags[i].slugs.push(slug.to_owned());
                proof {
                    lemma_entries_grown(before, self.tags@, i as int, slug@);
                }
            }
        } else {
            let mut slugs: Vec<String> = Vec::new();
            slugs.push(slug.to_owned());
            let entry = TagPosts { tag: tag.to_owned(), slugs };
            self.tags.push(entry);
            proof {
                lemma_entries_pushed(before, self.tags@, tag@, slug@);
            }
        }
    }
}

/// The pairs of the post's slug with each of the first `count` of its tags.
pub open spec fn own_pairs(post: PostView, count: int) -> Set<(Seq<char>, Seq<char>)> {
    Set::new(
        |pair: (Seq<char>, Seq<char>)|
            pair.1 == post.slug && (post.metadata.tags matches Some(tags) && tags.take(
                count,
            ).contains(pair.0)),
    )
}

/// The tag index of a sequence of posts with one more post at its end.
pub proof fn lemma_tag_pairs_push(done: Seq<PostView>, post: PostView)
    ensures
        tag_pairs(done.push(post)) == tag_pairs(done) + own_pairs(
            post,
            match post.metadata.tags {
                Some(tags) => tags.len() as int,
                None => 0,
            },
        ),
{
    let all = done.push(post);
    let count = match post.metadata.tags {
        Some(tags) => tags.len() as int,
        None => 0,
    };
    let target = tag_pairs(done) + own_pairs(post, count);
    if let Some(tags) = post.metadata.tags {
        assert(tags.take(count) == tags);
    }
    assert forall|pair: (Seq<char>, Seq<char>)| tag_pairs(all).contains(pair) implies target.contains(
        pair,
    ) by {
        let i = choose|i: int| 0 <= i < all.len() && all[i].slug == pair.1 && tagged(all[i], pair.0);
        if i < done.len() {
            assert(done[i] == all[i]);
        }
    }
    assert forall|pair: (Seq<char>, Seq<char>)| target.contains(pair) implies tag_pairs(
        all,
    ).contains(pair) by {
        if tag_pairs(done).contains(pair) {
            let i = choose|i: int|
                0 <= i < done.len() && done[i].slug == pair.1 && tagged(done[i], pair.0);
            assert(all[i] == done[i]);
        } else {
            assert(all[done.len() as int] == post);
        }
    }
    assert(tag_pairs(all) =~= target);
}

/// Builds the list of posts: the published posts in their order, and the
/// tag index over all posts, published or not.
pub fn build_blog_list(posts: Vec<Post>) -> (list: PostList)
    ensures
        list.wf(),
        post_views(list.blogs@) == published_posts(post_views(posts@)),
        list.tag_index() == tag_pairs(post_views(posts@)),
{
    let ghost all = post_views(posts@);
    let mut list = PostList::new();
    proof {
        assert(all.take(0) == Seq::<PostView>::empty());
        assert(tag_pairs(all.take(0)) =~= Set::<(Seq<char>, Seq<char>)>::empty());
        assert(post_views(list.blogs@) == Seq::<PostView>::empty());
    }
    for post in it: posts
        invariant
            post_views(it.seq()) == all,
            all == post_views(posts@),
            list.wf(),
            post_views(list.blogs@) == published_posts(all.take(it.index() as int)),
            list.tag_index() == tag_pairs(all.take(it.index() as int)),
    {
        let ghost done = all.take(it.index() as int);
        let ghost kept = list.blogs@;
        proof {
            assert(all[it.index() as int] == post@);
            assert(all.take(it.index() + 1) == done.push(post@));
            assert(all.take(it.index() + 1).drop_last() == done);
            lemma_tag_pairs_push(done, post@);
            assert(own_pairs(post@, 0) =~= Set::<(Seq<char>, Seq<char>)>::empty());
            assert(tag_pairs(done) + own_pairs(post@, 0) =~= tag_pairs(done));
        }
        if let Some(tags) = &post.metadata.tags {
            let mut j: usize = 0;
            while j < tags.len()
                invariant
                    0 <= j <= tags.len(),
                    post.metadata.tags == Some(*tags),
                    list.wf(),
                    list.blogs@ == kept,
                    list.tag_index() == tag_pairs(done) + own_pairs(post@, j as int),
                decreases tags.len() - j,
            {
                list.add_tag(tags[j].as_str(), post.slug.as_str());
                proof {
                    let names = tags.deep_view();
                    assert(post@.metadata.tags == Some(names));
                    assert(names[j as int] == tags@[j as int]@);
                    assert(names.take(j + 1) == names.take(j as int).push(names[j as int]));
                    assert(own_pairs(post@, j + 1) =~= own_pairs(post@, j as int).insert(
                        (names[j as int], post@.slug),
                    )) by {
                        assert forall|pair: (Seq<char>, Seq<char>)|
                            own_pairs(post@, j + 1).contains(pair) <==> own_pairs(
                                post@,
                                j as int,
                            ).insert((names[j as int], post@.slug)).contains(pair) by {
                            let earlier = names.take(j as int);
                            let later = names.take(j + 1);
                            if pair.1 == post@.slug {
                                if later.contains(pair.0) {
                                    let k = choose|k: int|
                                        0 <= k < later.len() && later[k] == pair.0;
                                    if k < j {
                                        assert(earlier[k] == pair.0);
                                    }
                                }
                                if earlier.contains(pair.0) {
                                    let k = choose|k: int|
                                        0 <= k < earlier.len() && earlier[k] == pair.0;
                                    assert(later[k] == pair.0);
                                }
                                if pair.0 == names[j as int] {
                                    assert(later[j as int] == pair.0);
                                }
                            }
                        }
                    }
                    assert((tag_pairs(done) + own_pairs(post@, j as int)).insert(
                        (names[j as int], post@.slug),
                    ) =~= tag_pairs(done) + own_pairs(post@, j + 1));
                }
                j += 1;
            }
        }
        if post.metadata.published {
            list.blogs.push(post);
            assert(post_views(list.blogs@) =~= post_views(kept).push(post@));
        }
    }
    proof {
        assert(all.take(all.len() as int) == all);
    }
    list
}

/// Whether one of the texts is `text`.
pub open spec fn holds_text(texts: Seq<String>, text: Seq<char>) -> bool {
    exists|k: int| 0 <= k < texts.len() && (#[trigger] texts[k])@ == text
}

/// The positions, in rising order, of the posts whose slug is among
/// `slugs`.
pub fn posts_among(posts: &Vec<Post>, slugs: &Vec<String>) -> (positions: Vec<usize>)
    ensures
        forall|k: int| 0 <= k < positions.len() ==> (#[trigger] positions@[k]) < posts.len(),
        forall|j: int, k: int|
            0 <= j < k < positions.len() ==> #[trigger] positions@[j] < #[trigger] positions@[k],
        forall|i: int|
            0 <= i < posts.len() ==> (positions@.contains(i as usize) <==> holds_text(
                slugs@,
                #[trigger] posts@[i].slug@,
            )),
{
    let mut positions: Vec<usize> = Vec::new();
    let mut i: usize = 0;
    while i < posts.len()
        invariant
            0 <= i <= posts.len(),
            forall|k: int| 0 <= k < positions.len() ==> (#[trigger] positions@[k]) < i,
            forall|j: int, k: int|
                0 <= j < k < positions.len() ==> #[trigger] positions@[j] < #[trigger] positions@[k],
            forall|p: int|
                0 <= p < i ==> (positions@.contains(p as usize) <==> holds_text(
                    slugs@,
                    #[trigger] posts@[p].slug@,
                )),
        decreases posts.len() - i,
    {
        let ghost before = positions@;
        let at = find_text(slugs, posts[i].slug.as_str());
        if at < slugs.len() {
            positions.push(i);
            proof {
                assert(positions@[before.len() as int] == i);
                assert forall|p: int| 0 <= p < i + 1 implies (positions@.contains(p as usize)
                    <==> holds_text(slugs@, #[trigger] posts@[p].slug@)) by {
                    if p < i {
                        if before.contains(p as usize) {
                            let k = choose|k: int| 0 <= k < before.len() && before[k] == p as usize;
                            assert(positions@[k] == p as usize);
                        }
                        if positions@.contains(p as usize) {
                            let k = choose|k: int|
                                0 <= k < positions@.len() && positions@[k] == p as usize;
                            assert(before[k] == p as usize);
                        }
                    }
                }
            }
        } else {
            assert(!holds_text(slugs@, posts@[i as int].slug@));
            assert(!positions@.contains(i));
        }
        i += 1;
    }
    positions
}

/// The position of the first text equal to `text`, or the length if there
/// is none.
fn find_text(texts: &Vec<String>, text: &str) -> (i: usize)
    ensures
        i <= texts.len(),
        i < texts.len() ==> texts@[i as int]@ == text@,
        forall|k: int| 0 <= k < i ==> texts@[k]@ != text@,
{
    let wanted = text.to_owned();
    let mut i: usize = 0;
    while i < texts.len()
        invariant
            i <= texts.len(),
            wanted@ == text@,
            forall|k: int| 0 <= k < i ==> texts@[k]@ != text@,
        decreases texts.len() - i,
    {
        if texts[i] == wanted {
            return i;
        }
        i += 1;
    }
    i
}

/// The position of the entry for `tag`, or the length if there is none.
fn find_tag(entries: &Vec<TagPosts>, tag: &str) -> (i: usize)
    ensures
        i <= entries.len(),
        i < entries.len() ==> entries@[i as int].tag@ == tag@,
        forall|k: int| 0 <= k < i ==> entries@[k].tag@ != tag@,
{
    let wanted = tag.to_owned();
    let mut i: usize = 0;
    while i < entries.len()
        invariant
            i <= entries.len(),
            wanted@ == tag@,
            forall|k: int| 0 <= k < i ==> entries@[k].tag@ != tag@,
        decreases entries.len() - i,
    {
        if entries[i].tag == wanted {
            return i;
        }
        i += 1;
    }
    i
}

/// What a new slug at the end of entry `i` does to the pairs.
proof fn lemma_entries_grown(before: Seq<TagPosts>, after: Seq<TagPosts>, i: int, slug: Seq<char>)
    requires
        entries_wf(before),
        0 <= i < before.len() == after.len(),
        forall|k: int| 0 <= k < after.len() && k != i ==> after[k] == before[k],
        after[i].tag@ == before[i].tag@,
        after[i].slugs@.len() == before[i].slugs@.len() + 1,
        forall|k: int| 0 <= k < before[i].slugs@.len() ==> after[i].slugs@[k] == before[i].slugs@[k],
        after[i].slugs@.last()@ == slug,
        forall|k: int| 0 <= k < before[i].slugs@.len() ==> before[i].slugs@[k]@ != slug,
    ensures
        entries_wf(after),
        entry_pairs(after) == entry_pairs(before).insert((before[i].tag@, slug)),
{
    let tag = before[i].tag@;
    let target = entry_pairs(before).insert((tag, slug));
    assert forall|pair: (Seq<char>, Seq<char>)| entry_pairs(after).contains(pair) implies target.contains(
        pair,
    ) by {
        let (a, b) = choose|a: int, b: int|
            0 <= a < after.len() && 0 <= b < after[a].slugs@.len() && after[a].tag@ == pair.0
                && #[trigger] after[a].slugs@[b]@ == pair.1;
        if a == i && b == before[i].slugs@.len() {
            assert(pair == (tag, slug));
        } else {
            assert(before[a].tag@ == pair.0 && before[a].slugs@[b]@ == pair.1);
        }
    }
    assert forall|pair: (Seq<char>, Seq<char>)| target.contains(pair) implies entry_pairs(
        after,
    ).contains(pair) by {
        if pair == (tag, slug) {
            let b = before[i].slugs@.len() as int;
            assert(after[i].tag@ == pair.0 && after[i].slugs@[b]@ == pair.1);
        } else {
            let (a, b) = choose|a: int, b: int|
                0 <= a < before.len() && 0 <= b < before[a].slugs@.len() && before[a].tag@
                    == pair.0 && #[trigger] before[a].slugs@[b]@ == pair.1;
            assert(after[a].tag@ == pair.0 && after[a].slugs@[b]@ == pair.1);
        }
    }
    assert(entry_pairs(after) =~= target);
    assert forall|a: int, b: int| 0 <= a < b < after.len() implies #[trigger] after[a].tag@
        != #[trigger] after[b].tag@ by {
        assert(after[a].tag@ == before[a].tag@);
        assert(after[b].tag@ == before[b].tag@);
    }
    assert forall|a: int, j: int, k: int|
        0 <= a < after.len() && 0 <= j < k < after[a].slugs@.len() implies #[trigger] after[a].slugs@[j]@
        != #[trigger] after[a].slugs@[k]@ by {
        if a == i {
            if k == before[i].slugs@.len() {
                assert(after[i].slugs@[j] == before[i].slugs@[j]);
            } else {
                assert(after[i].slugs@[j] == before[i].slugs@[j]);
                assert(after[i].slugs@[k] == before[i].slugs@[k]);
            }
        } else {
            assert(after[a] == before[a]);
        }
    }
    assert forall|a: int| 0 <= a < after.len() implies (#[trigger] after[a]).slugs@.len() > 0 by {
        if a != i {
            assert(after[a] == before[a]);
        }
    }
}

/// What a new entry with one slug does to the pairs.
proof fn lemma_entries_pushed(
    before: Seq<TagPosts>,
    after: Seq<TagPosts>,
    tag: Seq<char>,
    slug: Seq<char>,
)
    requires
        entries_wf(before),
        after.len() == before.len() + 1,
        forall|k: int| 0 <= k < before.len() ==> after[k] == before[k],
        after.last().tag@ == tag,
        after.last().slugs@.len() == 1,
        after.last().slugs@[0]@ == slug,
        forall|k: int| 0 <= k < before.len() ==> before[k].tag@ != tag,
    ensures
        entries_wf(after),
        entry_pairs(after) == entry_pairs(before).insert((tag, slug)),
{
    let target = entry_pairs(before).insert((tag, slug));
    let n = before.len() as int;
    assert forall|pair: (Seq<char>, Seq<char>)| entry_pairs(after).contains(pair) implies target.contains(
        pair,
    ) by {
        let (a, b) = choose|a: int, b: int|
            0 <= a < after.len() && 0 <= b < after[a].slugs@.len() && after[a].tag@ == pair.0
                && #[trigger] after[a].slugs@[b]@ == pair.1;
        if a == n {
            assert(pair == (tag, slug));
        } else {
            assert(before[a].tag@ == pair.0 && before[a].slugs@[b]@ == pair.1);
        }
    }
    assert forall|pair: (Seq<char>, Seq<char>)| target.contains(pair) implies entry_pairs(
        after,
    ).contains(pair) by {
        if pair == (tag, slug) {
            assert(after[n].tag@ == pair.0 && after[n].slugs@[0]@ == pair.1);
        } else {
            let (a, b) = choose|a: int, b: int|
                0 <= a < before.len() && 0 <= b < before[a].slugs@.len() && before[a].tag@
                    == pair.0 && #[trigger] before[a].slugs@[b]@ == pair.1;
            assert(after[a].tag@ == pair.0 && after[a].slugs@[b]@ == pair.1);
        }
    }
    assert(entry_pairs(after) =~= target);
    assert forall|a: int, b: int| 0 <= a < b < after.len() implies #[trigger] after[a].tag@
        != #[trigger] after[b].tag@ by {
        assert(after[a] == before[a]);
        if b < n {
            assert(after[b] == before[b]);
        }
    }
    assert forall|a: int, j: int, k: int|
        0 <= a < after.len() && 0 <= j < k < after[a].slugs@.len() implies #[trigger] after[a].slugs@[j]@
        != #[trigger] after[a].slugs@[k]@ by {
        if a < n {
            assert(after[a] == before[a]);
        }
    }
    assert forall|a: int| 0 <= a < after.len() implies (#[trigger] after[a]).slugs@.len() > 0 by {
        if a < n {
            assert(after[a] == before[a]);
        }
    }
}

} // verus!
