use kaka_nest::blockquote::{
    callout_kind, format_blockquotes, format_callout_html, BlockquoteFormatter, CalloutKind,
};
use kaka_nest::codeblock::{
    format_codeblock_html, highlight_codeblocks, render_codeblock, wrap_highlighted,
    CodeBlockHighlighter,
};
use kaka_nest::engine::{escape_html_text, Engine, HighlightError};
use kaka_nest::error::PipelineError;
use kaka_nest::event::ParseEvent;
use kaka_nest::markdown::{
    events_to_html, parse_events, render_markdown_to_html, render_markdown_with,
    Extensions,
};
use kaka_nest::pipeline::{run_pipeline, Pipeline};
use kaka_nest::templates::{source_includes_partial, RegisterError, Templates};

const CODEBLOCK: &str = "<div class=\"codeblock-wrapper\">\n  <p class=\"lang-label\">{{lang}}</p>\n\n  <div class=\"codeblock\">\n    <code style=\"display: block\">\n      <pre>{{{contents}}}</pre>\n    </code>\n  </div>\n</div>\n";

const BLOCKQUOTE: &str = "<div class=\"callout{{#if blockquote_type}} callout-{{blockquote_type}}{{/if}}\">{{contents}}</div>\n";

fn templates() -> Templates {
    let mut templates = Templates::new();
    assert_eq!(templates.register("codeblock", CODEBLOCK), Ok(()));
    assert_eq!(templates.register("blockquote", BLOCKQUOTE), Ok(()));
    templates
}

fn without_tables() -> Extensions {
    Extensions {
        wikilinks: true,
        strikethrough: true,
        tables: false,
        tasklists: true,
        yaml_metadata: true,
    }
}

fn plain_html(input: &str, ext: &Extensions) -> String {
    events_to_html(parse_events(input, ext))
}

fn text(s: &str) -> ParseEvent {
    ParseEvent::Text(s.to_string())
}

fn html_of(event: &ParseEvent) -> &str {
    match event {
        ParseEvent::Html(html) => html,
        _ => panic!("expected an HTML event"),
    }
}

/// Takes highlighting markup away again: tags go, `<br>` becomes a line
/// feed, entities become their characters.
fn strip_markup(html: &str) -> String {
    let mut out = String::new();
    let mut rest = html;
    while let Some(open) = rest.find('<') {
        out.push_str(&rest[..open]);
        let close = open + rest[open..].find('>').unwrap();
        if &rest[open..=close] == "<br>" {
            out.push('\n');
        }
        rest = &rest[close + 1..];
    }
    out.push_str(rest);
    out.replace("&nbsp;", " ").replace("&lt;", "<").replace("&gt;", ">").replace("&amp;", "&")
}

#[test]
fn test_valid_codeblock() {
    let test_input = "
```rust
fn bob() {
    println!(\"Hello Wolrd\");
}
```
        ";
    let test_output = "<div class=\"codeblock-wrapper\">\n  <p class=\"lang-label\">rust</p>\n\n  <div class=\"codeblock\">\n    <code style=\"display: block\">\n      <pre><span style=\"color:rgb(198,120,221);\">fn</span>&nbsp;<span style=\"color:rgb(97,175,239);\">bob</span><span style=\"color:rgb(132,139,152);\">(</span><span style=\"color:rgb(132,139,152);\">)</span>&nbsp;<span style=\"color:rgb(132,139,152);\">{</span><br>&nbsp;&nbsp;&nbsp;&nbsp;<span style=\"color:rgb(86,182,194);\">println</span><span style=\"color:rgb(86,182,194);\">!</span><span style=\"color:rgb(132,139,152);\">(</span><span style=\"color:rgb(152,195,121);\">\"Hello&nbsp;Wolrd\"</span><span style=\"color:rgb(132,139,152);\">)</span><span style=\"color:rgb(132,139,152);\">;</span><br><span style=\"color:rgb(132,139,152);\">}</span><br></pre>\n    </code>\n  </div>\n</div>\n";

    let engine = Engine::new();
    let events = parse_events(test_input, &without_tables());
    let events = highlight_codeblocks(events, &engine, &templates()).unwrap();
    let html_output = events_to_html(events);

    assert_eq!(html_output, test_output)
}

#[test]
fn test_no_specified_lang_codeblock() {
    let test_input = "
```
fn bob() {
    println!(\"Hello Wolrd\");
}
```
        ";
    let test_output = "<div class=\"codeblock-wrapper\">\n  <p class=\"lang-label\"></p>\n\n  <div class=\"codeblock\">\n    <code style=\"display: block\">\n      <pre>fn bob() {\n    println!(\"Hello Wolrd\");\n}\n</pre>\n    </code>\n  </div>\n</div>\n";

    let engine = Engine::new();
    let events = parse_events(test_input, &without_tables());
    let events = highlight_codeblocks(events, &engine, &templates()).unwrap();
    let html_output = events_to_html(events);

    assert_eq!(html_output, test_output)
}

#[test]
fn highlighting_adds_markup_only() {
    let engine = Engine::new();
    let codes = [
        ("rust", "fn main() {\n    let x = 1 < 2 && 3 > 2;\n}\n"),
        ("python", "def f(a, b):\n\treturn a & b\n"),
        ("json", "{\"key\": [1, 2, 3]}"),
    ];
    for (lang, code) in codes {
        let html = engine.highlight(lang, code).unwrap();
        assert_ne!(html, code);
        assert_eq!(strip_markup(&html).replace("    ", "\t"), code.replace("    ", "\t"));
    }
}

#[test]
fn unrecognized_language_falls_back_to_escaped_text() {
    let engine = Engine::new();
    let code = "if a < b && b > c { <span> }";
    let html =
        render_codeblock(&engine, &templates(), Some("no-such-language"), code).unwrap();
    let expected = CODEBLOCK
        .replace("{{lang}}", "")
        .replace("{{{contents}}}", "if a &lt; b &amp;&amp; b &gt; c { &lt;span&gt; }");
    assert_eq!(html, expected);
    let without_language = render_codeblock(&engine, &templates(), None, code).unwrap();
    assert_eq!(without_language, expected);
}

#[test]
fn fallback_output_has_no_fence_and_no_markup() {
    let engine = Engine::new();
    let input = "before\n\n```text-ish\nlet a = \"<b>\";\n```\n\nafter\n";
    let html = render_markdown_to_html(input, &engine, &templates()).unwrap();
    assert!(!html.contains("```"));
    assert!(!html.contains("<span"));
    assert!(html.contains("<pre>let a = \"&lt;b&gt;\";\n</pre>"));
    assert!(html.contains("<p class=\"lang-label\"></p>"));
    assert!(html.starts_with("<p>before</p>\n"));
    assert!(html.ends_with("<p>after</p>\n"));
}

#[test]
fn escape_replaces_exactly_three_characters() {
    assert_eq!(escape_html_text("a > b && a < c"), "a &gt; b &amp;&amp; a &lt; c");
    assert_eq!(escape_html_text("\"quotes\" and 'ticks' stay"), "\"quotes\" and 'ticks' stay");
    assert_eq!(escape_html_text(""), "");
    assert_eq!(escape_html_text("&amp;"), "&amp;amp;");
}

#[test]
fn engine_knows_its_languages() {
    let engine = Engine::new();
    assert!(engine.supports("rust"));
    assert!(engine.supports("python"));
    assert!(!engine.supports("Rust"));
    assert!(!engine.supports(""));
    assert!(!engine.supports("rs"));
    assert_eq!(engine.highlight("klingon", "x"), Err(HighlightError::UnsupportedLanguage));
}

#[test]
fn engine_renders_given_highlights() {
    let engine = Engine::new();
    let highlights = vec![
        vec![("<fn>", Some("keyword")), (" none", None)],
        vec![("a\tb", None), ("&", Some("string"))],
    ];
    assert_eq!(
        engine.render_processed(Ok(highlights)),
        Ok("<span style=\"color:rgb(198,120,221);\">&lt;fn&gt;</span>&nbsp;none<br>a&nbsp;&nbsp;&nbsp;&nbsp;b<span style=\"color:rgb(152,195,121);\">&amp;</span>".to_string())
    );
    assert_eq!(engine.render_processed(Ok(vec![])), Ok(String::new()));
}

#[test]
fn engine_error_is_an_engine_failure() {
    let engine = Engine::new();
    let error = syntastica::Error::Custom("the parser gave up".to_string());
    assert_eq!(engine.render_processed(Err(error)), Err(HighlightError::EngineFailure));
    let unsupported = syntastica::Error::UnsupportedLanguage("x".to_string());
    assert_eq!(engine.render_processed(Err(unsupported)), Err(HighlightError::EngineFailure));
}

#[test]
fn wrapping_follows_the_outcome_of_highlighting() {
    let templates = templates();
    assert_eq!(
        wrap_highlighted(&templates, "rust", "a < b", Ok("<span>a</span>".to_string())),
        Ok(CODEBLOCK.replace("{{lang}}", "rust").replace("{{{contents}}}", "<span>a</span>"))
    );
    assert_eq!(
        wrap_highlighted(&templates, "rust", "a < b", Err(HighlightError::UnsupportedLanguage)),
        Ok(CODEBLOCK.replace("{{lang}}", "").replace("{{{contents}}}", "a &lt; b"))
    );
    assert_eq!(
        wrap_highlighted(&templates, "rust", "a < b", Err(HighlightError::EngineFailure)),
        Err(PipelineError::HighlightEngineFailure)
    );
    assert_eq!(
        wrap_highlighted(&Templates::new(), "rust", "a", Ok("a".to_string())),
        Err(PipelineError::TemplateRenderFailure)
    );
}

#[test]
fn callout_kind_question_and_generic() {
    assert_eq!(callout_kind("question"), CalloutKind::Question);
    assert_eq!(callout_kind("Question"), CalloutKind::Generic);
    assert_eq!(callout_kind("question "), CalloutKind::Generic);
    assert_eq!(callout_kind("aha"), CalloutKind::Generic);
    assert_eq!(callout_kind(""), CalloutKind::Generic);
}

#[test]
fn callout_templates_see_the_type() {
    let templates = templates();
    assert_eq!(
        format_callout_html(&templates, CalloutKind::Question, "Why?"),
        Ok("<div class=\"callout callout-question\">Why?</div>\n".to_string())
    );
    assert_eq!(
        format_callout_html(&templates, CalloutKind::Generic, "a < b"),
        Ok("<div class=\"callout\">a &lt; b</div>\n".to_string())
    );
}

#[test]
fn question_callout_end_to_end() {
    let engine = Engine::new();
    let input = "> [!question]\n> What is the meaning of life?";
    let html = render_markdown_to_html(input, &engine, &templates()).unwrap();
    assert_eq!(
        html,
        "<p>\n</p>\n<div class=\"callout callout-question\">What is the meaning of life?</div>\n"
    );
}

#[test]
fn unknown_callout_keyword_is_generic() {
    let engine = Engine::new();
    let input = "> [!aha]\n> So that is how it works.";
    let html = render_markdown_to_html(input, &engine, &templates()).unwrap();
    assert_eq!(html, "<p>\n</p>\n<div class=\"callout\">So that is how it works.</div>\n");
}

#[test]
fn rust_fence_end_to_end() {
    let engine = Engine::new();
    let input = "```rust\nfn bob() {}\n```\n";
    let html = render_markdown_to_html(input, &engine, &templates()).unwrap();
    assert!(html.contains("<p class=\"lang-label\">rust</p>"));
    assert!(!html.contains("```"));
    assert!(html.contains("<span style=\"color:rgb(198,120,221);\">fn</span>"));
    let start = html.find("<pre>").unwrap() + "<pre>".len();
    let end = html.find("</pre>").unwrap();
    assert_eq!(strip_markup(&html[start..end]), "fn bob() {}\n");
}

#[test]
fn rendering_twice_gives_the_same_bytes() {
    let engine = Engine::new();
    let templates = templates();
    let input = "# Title\n\n```rust\nfn a() -> u8 { 1 }\n```\n\n> [!question]\n> Why?\n\n```\nplain <text>\n```\n\n- [ ] task\n";
    let first = render_markdown_to_html(input, &engine, &templates).unwrap();
    let second = render_markdown_to_html(input, &engine, &templates).unwrap();
    assert_eq!(first, second);
    let other_engine = Engine::new();
    assert_eq!(render_markdown_to_html(input, &other_engine, &templates).unwrap(), first);
}

#[test]
fn filtering_filtered_events_changes_nothing() {
    let engine = Engine::new();
    let templates = templates();
    let input = "text\n\n```rust\nlet a = 1;\n```\n\nmore\n";
    let once = highlight_codeblocks(
        parse_events(input, &Extensions::standard()),
        &engine,
        &templates,
    )
    .unwrap();
    let expected = events_to_html(
        highlight_codeblocks(parse_events(input, &Extensions::standard()), &engine, &templates)
            .unwrap(),
    );
    let twice = highlight_codeblocks(once, &engine, &templates).unwrap();
    assert_eq!(events_to_html(twice), expected);
}

#[test]
fn filters_never_lengthen_the_stream() {
    let engine = Engine::new();
    let templates = templates();
    let input = "a\n\n```rust\nfn a() {}\nfn b() {}\n```\n\n> [!note]\n> b\n\n> plain\n";
    let count = parse_events(input, &Extensions::standard()).len();
    let highlighted =
        highlight_codeblocks(parse_events(input, &Extensions::standard()), &engine, &templates)
            .unwrap();
    assert!(highlighted.len() <= count);
    let highlighted_count = highlighted.len();
    let formatted = format_blockquotes(highlighted, &templates).unwrap();
    assert!(formatted.len() <= highlighted_count);
}

#[test]
fn code_block_steps_hold_back_and_replace() {
    let engine = Engine::new();
    let templates = templates();
    let mut filter = CodeBlockHighlighter::new();
    assert!(!filter.is_buffering());
    assert_eq!(filter.step(text("outside"), &engine, &templates).unwrap(), Some(text("outside")));
    let start = ParseEvent::CodeBlockStart("nothing".to_string());
    assert_eq!(filter.step(start, &engine, &templates).unwrap(), None);
    assert!(filter.is_buffering());
    assert_eq!(filter.step(text("a <"), &engine, &templates).unwrap(), None);
    assert_eq!(filter.step(text(" b\n"), &engine, &templates).unwrap(), None);
    let passed = filter.step(ParseEvent::BlockQuoteStart(None), &engine, &templates).unwrap();
    assert_eq!(passed, Some(ParseEvent::BlockQuoteStart(None)));
    let replaced = filter.step(ParseEvent::CodeBlockEnd, &engine, &templates).unwrap().unwrap();
    assert_eq!(
        html_of(&replaced),
        CODEBLOCK.replace("{{lang}}", "").replace("{{{contents}}}", "a &lt; b\n")
    );
    assert!(!filter.is_buffering());
    assert_eq!(
        filter.step(ParseEvent::CodeBlockEnd, &engine, &templates).unwrap(),
        Some(ParseEvent::CodeBlockEnd)
    );
}

#[test]
fn code_block_start_clears_the_buffer() {
    let engine = Engine::new();
    let templates = templates();
    let events = vec![
        ParseEvent::CodeBlockStart(String::new()),
        text("lost"),
        ParseEvent::CodeBlockStart(String::new()),
        text("kept"),
        ParseEvent::CodeBlockEnd,
    ];
    let out = highlight_codeblocks(events, &engine, &templates).unwrap();
    assert_eq!(out.len(), 1);
    assert_eq!(
        html_of(&out[0]),
        CODEBLOCK.replace("{{lang}}", "").replace("{{{contents}}}", "kept")
    );
}

#[test]
fn blockquote_steps_hold_back_and_replace() {
    let templates = templates();
    let mut filter = BlockquoteFormatter::new();
    assert!(!filter.is_buffering());
    assert_eq!(filter.step(text("outside"), &templates).unwrap(), Some(text("outside")));
    assert_eq!(filter.step(ParseEvent::BlockQuoteStart(None), &templates).unwrap(), None);
    assert!(filter.is_buffering());
    for line in ["[", "!question", "]", "Is it?", "Yes."] {
        assert_eq!(filter.step(text(line), &templates).unwrap(), None);
    }
    let replaced = filter.step(ParseEvent::BlockQuoteEnd(None), &templates).unwrap().unwrap();
    assert_eq!(html_of(&replaced), "<div class=\"callout callout-question\">Is it?\nYes.</div>\n");
    assert!(!filter.is_buffering());
    assert_eq!(
        filter.step(ParseEvent::BlockQuoteEnd(None), &templates).unwrap(),
        Some(ParseEvent::BlockQuoteEnd(None))
    );
}

#[test]
fn blockquote_without_marker_is_dropped() {
    let templates = templates();
    let events = vec![
        text("before"),
        ParseEvent::BlockQuoteStart(None),
        text("just a normal quote"),
        ParseEvent::BlockQuoteEnd(None),
        text("after"),
    ];
    let out = format_blockquotes(events, &templates).unwrap();
    assert_eq!(out, vec![text("before"), text("after")]);
}

#[test]
fn pipeline_agrees_with_the_filters_in_turn() {
    let engine = Engine::new();
    let templates = templates();
    let input = "intro\n\n```rust\nfn a() {}\n```\n\n> [!question]\n> Why?\n\n> ```\n> quoted code\n> ```\n\n```\n> not a quote\n```\n";
    let ext = Extensions::standard();
    let highlighted = highlight_codeblocks(parse_events(input, &ext), &engine, &templates).unwrap();
    let in_turn = format_blockquotes(highlighted, &templates).unwrap();
    let at_once = run_pipeline(parse_events(input, &ext), &engine, &templates).unwrap();
    assert_eq!(at_once, in_turn);
    assert_eq!(
        render_markdown_to_html(input, &engine, &templates).unwrap(),
        events_to_html(in_turn)
    );
}

#[test]
fn pipeline_reports_the_first_failure() {
    let engine = Engine::new();
    let mut no_codeblock = Templates::new();
    assert_eq!(no_codeblock.register("blockquote", BLOCKQUOTE), Ok(()));
    let quote_then_code = "> [!question]\n> Why?\n\n```\ncode\n```\n";
    assert_eq!(
        render_markdown_to_html(quote_then_code, &engine, &no_codeblock),
        Err(PipelineError::TemplateRenderFailure)
    );
    let mut pipeline = Pipeline::new();
    let mut emitted = 0;
    let mut outcome = Ok(());
    for event in parse_events(quote_then_code, &Extensions::standard()) {
        match pipeline.step(event, &engine, &no_codeblock) {
            Ok(Some(_)) => emitted += 1,
            Ok(None) => {}
            Err(e) => {
                outcome = Err(e);
                break;
            }
        }
    }
    assert_eq!(outcome, Err(PipelineError::TemplateRenderFailure));
    assert_eq!(emitted, 4);
}

#[test]
fn other_events_pass_in_order() {
    let engine = Engine::new();
    let templates = templates();
    let input = "# Heading\n\nSome *text* with `code`.\n\n| a | b |\n|---|---|\n| 1 | 2 |\n";
    let rendered = render_markdown_to_html(input, &engine, &templates).unwrap();
    assert_eq!(rendered, plain_html(input, &Extensions::standard()));
    assert!(rendered.contains("<table>"));
    assert!(!plain_html(input, &without_tables()).contains("<table>"));
    assert_eq!(
        render_markdown_with(input, &without_tables(), &engine, &templates).unwrap(),
        plain_html(input, &without_tables())
    );
}

#[test]
fn missing_template_is_a_render_failure() {
    let engine = Engine::new();
    let empty = Templates::new();
    assert_eq!(
        format_codeblock_html(&empty, "x", Some("rust")),
        Err(PipelineError::TemplateRenderFailure)
    );
    assert_eq!(
        render_markdown_to_html("```\ncode\n```\n", &engine, &empty),
        Err(PipelineError::TemplateRenderFailure)
    );
    assert_eq!(
        render_markdown_to_html("> [!question]\n> Why?\n", &engine, &empty),
        Err(PipelineError::TemplateRenderFailure)
    );
    assert_eq!(
        render_markdown_to_html("> no marker\n", &engine, &empty),
        Ok("<p></p>\n".to_string())
    );
}

#[test]
fn templates_register_render_and_replace() {
    let mut templates = Templates::new();
    let fields = vec![
        ("name".to_string(), Some("a & b".to_string())),
        ("missing".to_string(), None),
    ];
    assert_eq!(templates.render("greeting", &fields), None);
    assert_eq!(templates.register("greeting", "Hello {{name}}{{#if missing}}!{{/if}}"), Ok(()));
    assert_eq!(templates.render("greeting", &fields), Some("Hello a &amp; b".to_string()));
    assert_eq!(templates.register("greeting", "Bye {{{name}}} > {{name}}"), Ok(()));
    assert_eq!(templates.render("greeting", &fields), Some("Bye a & b > a &amp; b".to_string()));
    assert_eq!(templates.register("broken", "{{#if name}}unclosed"), Err(RegisterError::InvalidTemplate));
    assert_eq!(templates.render("broken", &fields), None);
    assert_eq!(templates.register("greeting", "{{#if"), Err(RegisterError::InvalidTemplate));
    assert_eq!(templates.render("greeting", &fields), Some("Bye a & b > a &amp; b".to_string()));
}

#[test]
fn templates_that_include_others_are_refused() {
    let mut templates = Templates::new();
    let fields = vec![("name".to_string(), Some("x".to_string()))];
    assert_eq!(templates.register("first", "one {{name}}"), Ok(()));
    for source in [
        "{{> second}}",
        "{{>second}}",
        "a {{~> second}} b",
        "{{ > second}}",
        "{{ ~\n\t> second}}",
        "{{#> second}}fallback{{/second}}",
        "{{~#> second}}fallback{{/second}}",
        "{{#*inline \"a\"}}{{> b}}{{/inline}}{{#*inline \"b\"}}{{> a}}{{/inline}}{{> a}}",
        "{{> first}}",
        "{{> (lookup . \"name\")}}",
        "{{> @partial-block}}",
        "{{>",
    ] {
        assert!(source_includes_partial(source));
        assert_eq!(templates.register("first", source), Err(RegisterError::IncludesPartial));
        assert_eq!(templates.register("second", source), Err(RegisterError::IncludesPartial));
    }
    assert_eq!(templates.render("first", &fields), Some("one x".to_string()));
    assert_eq!(templates.render("second", &fields), None);
}

#[test]
fn templates_without_partials_are_taken() {
    let mut templates = Templates::new();
    let fields = vec![("name".to_string(), Some("x".to_string()))];
    for (source, rendered) in [
        ("", ""),
        ("a > b", "a > b"),
        ("<p>{{name}}</p>", "<p>x</p>"),
        ("{{name}}>{{name}}", "x>x"),
        ("{{#if name}}>{{/if}}", ">"),
        ("{ {> name}}", "{ {> name}}"),
        ("{>{ name", "{>{ name"),
        ("{{#*inline \"a\"}}unused{{/inline}}{{name}}", "x"),
        ("{{! a comment with > in it }}{{name}}", "x"),
    ] {
        assert!(!source_includes_partial(source));
        assert_eq!(templates.register("plain", source), Ok(()));
        assert_eq!(templates.render("plain", &fields), Some(rendered.to_string()));
    }
}

#[test]
fn a_place_that_looks_like_a_partial_is_refused_too() {
    let mut templates = Templates::new();
    for source in ["\\{{> shown as text}}", "{{{{raw}}}}{{> kept}}{{{{/raw}}}}", "{{!-- {{> old}} --}}"] {
        assert!(source_includes_partial(source));
        assert_eq!(templates.register("text", source), Err(RegisterError::IncludesPartial));
    }
    assert_eq!(templates.render("text", &vec![]), None);
}

#[test]
fn odd_sources_are_taken_or_refused() {
    let mut templates = Templates::new();
    let fields = vec![("a".to_string(), Some("x".to_string()))];
    for source in [
        "{{else}}",
        "{{^}}",
        "{{#if a}}{{else}}{{else}}{{/if}}",
        "{{#if a}}1{{else if a}}2{{else}}3{{/if}}",
        "{{#if a}}{{^}}{{/if}}",
        "{{else if}}",
        "{{/if}}",
        "{{#each}}",
        "{{#each a}}{{/if}}",
        "{{{{raw}}}}",
        "{{{{raw}}}} {{a}} {{{{/raw}}}}",
        "{{a.[}}",
        "{{a.[b c]}}",
        "{{'}}",
        "{{\"\"}}",
        "\\{{",
        "\\\\{{a}}",
        "{{~}}",
        "{{~a~}}",
        "{{#*inline}}{{/inline}}",
        "{{#*inline \"x\"}}",
        "{{*x}}",
        "{{[}}",
        "{{a b=}}",
        "{{a b=1 c=\"2\" d=null e=[1,2] f={\"k\":true}}}",
        "{{(a)}}",
        "{{a (b (c d))}}",
        "{{!",
        "{{!-- --}}",
        "{{{",
        "{{{a}}}",
        "{{{a}}",
        "{{&a}}",
        "{{&}}",
        "}}",
        "{{",
        "{{}}",
        "{{../a}}",
        "{{@root.a}}",
        "{{this}}",
        "{{#with a as |b|}}{{b}}{{/with}}",
        "{{#each a as |v k|}}{{k}}{{v}}{{/each}}",
        "{{lookup a 0}}{{len a}}{{#unless a}}{{/unless}}",
    ] {
        assert!(!source_includes_partial(source));
        let taken = templates.register("odd", source);
        assert_ne!(taken, Err(RegisterError::IncludesPartial));
        if taken.is_ok() {
            let first = templates.render("odd", &fields);
            assert_eq!(templates.render("odd", &fields), first);
        }
    }
}

#[test]
fn escaping_agrees_with_the_html_escape_crate() {
    for text in [
        "",
        "plain text",
        "a > b && a < c",
        "<<>>&&",
        "&amp; &lt; &gt;",
        "\"quoted\" 'single' /slash/",
        "ünï < cödé > 日本語 & \u{1F600}",
        "line\nbreak\ttab\r\n",
    ] {
        assert_eq!(escape_html_text(text), html_escape::encode_text(text));
    }
}

#[test]
fn codeblock_template_gets_label_and_contents() {
    let templates = templates();
    assert_eq!(
        format_codeblock_html(&templates, "<b>raw</b>", Some("c<pp")),
        Ok(CODEBLOCK.replace("{{lang}}", "c&lt;pp").replace("{{{contents}}}", "<b>raw</b>"))
    );
    assert_eq!(
        format_codeblock_html(&templates, "x", None),
        Ok(CODEBLOCK.replace("{{lang}}", "").replace("{{{contents}}}", "x"))
    );
}
