use kaka_nest::front_matter::{front_matter_block, normalize_tags, strip_tag_prefix};
use kaka_nest::links::{image_source, is_absolute_link};
use kaka_nest::post::{
    build_blog_list, generate_title_from_path, posts_among, Post, PostList, PostMetadata, TagPosts,
};

fn metadata(published: bool, tags: Option<&[&str]>) -> PostMetadata {
    PostMetadata {
        date: "2025-01-01".to_string(),
        published,
        tags: tags.map(|tags| tags.iter().map(|tag| tag.to_string()).collect()),
        read_mins: 3,
        description: None,
    }
}

fn post(title: &str, published: bool, tags: Option<&[&str]>) -> Post {
    Post::new(title, metadata(published, tags), format!("<p>{title}</p>"))
}

fn entry(tag: &str, slugs: &[&str]) -> TagPosts {
    TagPosts { tag: tag.to_string(), slugs: slugs.iter().map(|slug| slug.to_string()).collect() }
}

#[test]
fn post_is_filed_under_the_slug_of_its_title() {
    let made = post("My First Post!", true, None);
    assert_eq!(made.title, "My First Post!");
    assert_eq!(made.slug, "my-first-post");
    assert_eq!(made.contents, "<p>My First Post!</p>");
    assert_eq!(made.metadata, metadata(true, None));
    assert_eq!(post("  Ünïcödé & more  ", true, None).slug, "unicode-more");
    assert_eq!(post("already-a-slug", true, None).slug, "already-a-slug");
    assert_eq!(post("", true, None).slug, "");
}

#[test]
fn title_is_the_stem_of_the_file_name() {
    assert_eq!(generate_title_from_path("./assets/blog/My Post.md"), Some("My Post".to_string()));
    assert_eq!(generate_title_from_path("notes.md"), Some("notes".to_string()));
    assert_eq!(generate_title_from_path("archive.tar.gz"), Some("archive.tar".to_string()));
    assert_eq!(generate_title_from_path("a/b/.hidden"), Some(".hidden".to_string()));
    assert_eq!(generate_title_from_path("a/no_extension"), Some("no_extension".to_string()));
    assert_eq!(generate_title_from_path("a/dir/"), Some("dir".to_string()));
    assert_eq!(generate_title_from_path("a/.."), None);
    assert_eq!(generate_title_from_path("/"), None);
    assert_eq!(generate_title_from_path(""), None);
}

#[test]
fn list_keeps_published_posts_in_order() {
    let list = build_blog_list(vec![
        post("One", true, None),
        post("Two", false, None),
        post("Three", true, Some(&[])),
        post("Four", false, Some(&["x"])),
        post("Five", true, Some(&["x"])),
    ]);
    let titles: Vec<&str> = list.blogs.iter().map(|post| post.title.as_str()).collect();
    assert_eq!(titles, vec!["One", "Three", "Five"]);
    assert_eq!(list.blogs[2], post("Five", true, Some(&["x"])));
}

#[test]
fn list_indexes_tags_of_all_posts() {
    let list = build_blog_list(vec![
        post("One", true, Some(&["rust", "verus"])),
        post("Two", false, Some(&["verus", "draft"])),
        post("Three", true, None),
        post("Four", true, Some(&["rust", "rust"])),
        post("One", true, Some(&["rust"])),
    ]);
    assert_eq!(
        list.tags,
        vec![
            entry("rust", &["one", "four"]),
            entry("verus", &["one", "two"]),
            entry("draft", &["two"]),
        ]
    );
    assert_eq!(list.blogs.len(), 4);
}

#[test]
fn empty_list_has_no_posts_and_no_tags() {
    let list = build_blog_list(vec![]);
    assert_eq!(list, PostList { blogs: vec![], tags: vec![] });
    assert_eq!(PostList::new(), list);
}

#[test]
fn tags_are_added_once() {
    let mut list = PostList::new();
    list.add_tag("rust", "one");
    list.add_tag("rust", "two");
    list.add_tag("rust", "one");
    list.add_tag("go", "one");
    list.add_tag("", "");
    list.add_tag("go", "one");
    assert_eq!(
        list.tags,
        vec![entry("rust", &["one", "two"]), entry("go", &["one"]), entry("", &[""])]
    );
    assert!(list.blogs.is_empty());
}

#[test]
fn posts_of_a_tag_are_found_by_slug() {
    let list = build_blog_list(vec![
        post("One", true, Some(&["a"])),
        post("Two", true, Some(&["b"])),
        post("Hidden", false, Some(&["a"])),
        post("Three", true, Some(&["a", "b"])),
    ]);
    assert_eq!(list.tags[0], entry("a", &["one", "hidden", "three"]));
    assert_eq!(posts_among(&list.blogs, &list.tags[0].slugs), vec![0, 2]);
    assert_eq!(posts_among(&list.blogs, &list.tags[1].slugs), vec![1, 2]);
    assert_eq!(posts_among(&list.blogs, &vec![]), Vec::<usize>::new());
    assert_eq!(posts_among(&vec![], &list.tags[0].slugs), Vec::<usize>::new());
}

#[test]
fn front_matter_is_between_the_first_two_rules() {
    assert_eq!(
        front_matter_block("---\ndate: today\n---\n# Title\n"),
        Some("\ndate: today\n".to_string())
    );
    assert_eq!(front_matter_block("intro---a---b---c"), Some("a".to_string()));
    assert_eq!(front_matter_block("---only one rule"), Some("only one rule".to_string()));
    assert_eq!(front_matter_block("------"), Some(String::new()));
    assert_eq!(front_matter_block("----x"), Some("-x".to_string()));
    assert_eq!(front_matter_block("ends with---"), Some(String::new()));
    assert_eq!(front_matter_block("no rule -- here"), None);
    assert_eq!(front_matter_block("--"), None);
    assert_eq!(front_matter_block(""), None);
}

#[test]
fn front_matter_agrees_with_splitting_at_rules() {
    let texts = ["", "-", "---", "a---", "---a", "a---b", "a---b---c", "-----a------b", "é---ü---"];
    for text in texts {
        assert_eq!(front_matter_block(text), text.split("---").nth(1).map(str::to_string));
    }
}

#[test]
fn tags_lose_one_leading_hash() {
    assert_eq!(strip_tag_prefix("#rust"), "rust");
    assert_eq!(strip_tag_prefix("rust"), "rust");
    assert_eq!(strip_tag_prefix("##rust"), "#rust");
    assert_eq!(strip_tag_prefix("c#"), "c#");
    assert_eq!(strip_tag_prefix("#"), "");
    assert_eq!(strip_tag_prefix(""), "");
    let tags = vec!["#a".to_string(), "b".to_string(), "#".to_string()];
    assert_eq!(normalize_tags(&tags), vec!["a".to_string(), "b".to_string(), String::new()]);
    assert_eq!(normalize_tags(&vec![]), Vec::<String>::new());
}

#[test]
fn absolute_links_are_recognised() {
    for link in [
        "http://example.com/a.png",
        "HTTPS://EXAMPLE.COM/a.png",
        "hTtP://x",
        "data:image/png;base64,AAAA",
        "Data:x",
        "/rooted/a.png",
        "//cdn.example.com/a.png",
        "http://",
    ] {
        assert!(is_absolute_link(link));
        assert_eq!(image_source(link), link);
    }
    for link in ["a.png", "images/a.png", "./a.png", "http:/x", "https:x", "ftp://x", "data", "" ] {
        assert!(!is_absolute_link(link));
    }
}

#[test]
fn relative_images_are_looked_up_under_images() {
    assert_eq!(image_source("cat.png"), "/images/cat.png");
    assert_eq!(image_source("sub/cat.png"), "/images/sub/cat.png");
    assert_eq!(image_source(""), "/images/");
    assert_eq!(image_source("httpx://cat.png"), "/images/httpx://cat.png");
}
