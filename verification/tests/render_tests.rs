use mdhtml::document::{render_document, MyApp};
use mdhtml::events::{Alignment, HeadingRecord, MdEvent, TagKind};
use mdhtml::render::render;
use mdhtml::toc::{generate_toc, next_level, prev_level};

fn txt(s: &str) -> MdEvent {
    MdEvent::Text(s.to_string())
}

fn heading(level: u32, anchor: &str) -> TagKind {
    TagKind::Heading { level, anchor: Some(anchor.to_string()) }
}

fn body_of(events: Vec<MdEvent>) -> String {
    render(&events, &None, &None).0
}

const EMPTY_TOC: &str = "<nav>\n<h2>Table of Contents</h2>\n<ul>\n</ul>\n</nav>\n";

#[test]
fn empty_event_sequence_renders_toc_wrapper_only() {
    let out = render_document(&vec![], &None, &None);
    assert_eq!(out, EMPTY_TOC);
}

#[test]
fn toc_nesting_for_levels_1_2_1_3() {
    let events = vec![
        MdEvent::Start(heading(1, "a")),
        txt("A"),
        MdEvent::End(heading(1, "a")),
        MdEvent::Start(heading(2, "b")),
        txt("B"),
        MdEvent::End(heading(2, "b")),
        MdEvent::Start(heading(1, "c")),
        txt("C"),
        MdEvent::End(heading(1, "c")),
        MdEvent::Start(heading(3, "d")),
        txt("D"),
        MdEvent::End(heading(3, "d")),
    ];
    let (_, headings) = render(&events, &None, &None);
    let toc = generate_toc(&headings);
    let expected = "<nav>\n<h2>Table of Contents</h2>\n<ul>\n<li><a href=\"#a\">A</a></li>\n<ul>\n<li><a href=\"#b\">B</a></li>\n</ul>\n<li><a href=\"#c\">C</a></li>\n<ul>\n<ul>\n<li><a href=\"#d\">D</a></li>\n</ul>\n</ul>\n</ul>\n</nav>\n";
    assert_eq!(toc, expected);
}

#[test]
fn toc_level_jump_opens_one_ul_per_step() {
    let events = vec![
        MdEvent::Start(heading(1, "one")),
        txt("One"),
        MdEvent::End(heading(1, "one")),
        MdEvent::Start(heading(4, "four")),
        txt("Four"),
        MdEvent::End(heading(4, "four")),
    ];
    let (_, headings) = render(&events, &None, &None);
    let toc = generate_toc(&headings);
    let expected = "<nav>\n<h2>Table of Contents</h2>\n<ul>\n<li><a href=\"#one\">One</a></li>\n<ul>\n<ul>\n<ul>\n<li><a href=\"#four\">Four</a></li>\n</ul>\n</ul>\n</ul>\n</ul>\n</nav>\n";
    assert_eq!(toc, expected);
}

#[test]
fn text_is_escaped_once_in_body_and_toc() {
    let events = vec![
        MdEvent::Start(heading(1, "t")),
        txt("a <b> & c"),
        MdEvent::End(heading(1, "t")),
    ];
    let (body, headings) = render(&events, &None, &None);
    assert_eq!(body, "<h1>a &lt;b&gt; &amp; c</h1>\n");
    // the record keeps the raw text, so the TOC escapes it exactly once
    assert_eq!(headings.len(), 1);
    assert_eq!(headings[0].text, "a <b> & c");
    let toc = generate_toc(&headings);
    assert_eq!(
        toc,
        "<nav>\n<h2>Table of Contents</h2>\n<ul>\n<li><a href=\"#t\">a &lt;b&gt; &amp; c</a></li>\n</ul>\n</nav>\n"
    );
}

#[test]
fn escaping_covers_quotes_slash_and_apostrophe() {
    let body = body_of(vec![txt("\"x\" 'y' a/b")]);
    assert_eq!(body, "&quot;x&quot; &#x27;y&#x27; a&#x2f;b");
}

#[test]
fn inline_code_is_escaped() {
    let body = body_of(vec![MdEvent::Code("1 < 2 && 3 > 2".to_string())]);
    assert_eq!(body, "<code>1 &lt; 2 &amp;&amp; 3 &gt; 2</code>");
}

#[test]
fn table_with_right_aligned_column_renders_all_cells_as_headers() {
    let events = vec![
        MdEvent::Start(TagKind::Table {
            alignments: vec![Alignment::Left, Alignment::Right, Alignment::Center],
        }),
        MdEvent::Start(TagKind::TableRow),
        MdEvent::Start(TagKind::TableCell),
        MdEvent::End(TagKind::TableCell),
        MdEvent::Start(TagKind::TableCell),
        MdEvent::End(TagKind::TableCell),
        MdEvent::Start(TagKind::TableCell),
        MdEvent::End(TagKind::TableCell),
        MdEvent::End(TagKind::TableRow),
        MdEvent::End(TagKind::Table { alignments: vec![] }),
    ];
    let body = body_of(events);
    assert_eq!(body, "<table>\n<tr><th></th><th></th><th></th></tr>\n</table>\n");
}

#[test]
fn table_without_right_aligned_column_renders_data_cells() {
    let events = vec![
        MdEvent::Start(TagKind::Table {
            alignments: vec![Alignment::Left, Alignment::NoAlign, Alignment::Center],
        }),
        MdEvent::Start(TagKind::TableHead),
        MdEvent::Start(TagKind::TableCell),
        txt("h"),
        MdEvent::End(TagKind::TableCell),
        MdEvent::End(TagKind::TableHead),
        MdEvent::End(TagKind::Table { alignments: vec![] }),
    ];
    let body = body_of(events);
    assert_eq!(body, "<table>\n<thead>\n<tr><td>h</td></tr></thead>\n</table>\n");
}

#[test]
fn code_block_without_language_keeps_empty_class_suffix() {
    let events = vec![
        MdEvent::Start(TagKind::CodeBlock { language: None }),
        txt("x = 1"),
        MdEvent::End(TagKind::CodeBlock { language: None }),
    ];
    let body = body_of(events);
    assert_eq!(body, "<pre><code class=\"language-\">x = 1</code></pre>\n");
}

#[test]
fn code_block_with_language_names_it() {
    let events = vec![
        MdEvent::Start(TagKind::CodeBlock { language: Some("rust".to_string()) }),
        txt("fn f() {}"),
        MdEvent::End(TagKind::CodeBlock { language: Some("rust".to_string()) }),
    ];
    let body = body_of(events);
    assert_eq!(body, "<pre><code class=\"language-rust\">fn f() {}</code></pre>\n");
}

#[test]
fn end_list_without_start_emits_nothing() {
    let body = body_of(vec![MdEvent::End(TagKind::List { start: None })]);
    assert_eq!(body, "");
}

#[test]
fn lists_nest_and_close_in_order() {
    let events = vec![
        MdEvent::Start(TagKind::List { start: Some(3) }),
        MdEvent::Start(TagKind::ListItem),
        txt("a"),
        MdEvent::End(TagKind::ListItem),
        MdEvent::Start(TagKind::List { start: None }),
        MdEvent::Start(TagKind::ListItem),
        txt("b"),
        MdEvent::End(TagKind::ListItem),
        MdEvent::End(TagKind::List { start: None }),
        MdEvent::End(TagKind::List { start: Some(3) }),
    ];
    let body = body_of(events);
    assert_eq!(
        body,
        "<ol start=\"3\">\n<li>a</li>\n<ul>\n<li>b</li>\n</ul>\n</ol>\n"
    );
}

#[test]
fn paragraph_and_heading_classes_are_emitted() {
    let events = vec![
        MdEvent::Start(heading(2, "s")),
        txt("S"),
        MdEvent::End(heading(2, "s")),
        MdEvent::Start(TagKind::Paragraph),
        txt("p"),
        MdEvent::End(TagKind::Paragraph),
    ];
    let hc = Some("title".to_string());
    let pc = Some("body-text".to_string());
    let (body, _) = render(&events, &hc, &pc);
    assert_eq!(
        body,
        "<h2 class=\"title\">S</h2>\n<p class=\"body-text\">p</p>\n"
    );
}

#[test]
fn inline_markup_and_rule() {
    let events = vec![
        MdEvent::Start(TagKind::Paragraph),
        MdEvent::Start(TagKind::Strong),
        txt("b"),
        MdEvent::End(TagKind::Strong),
        MdEvent::Start(TagKind::Emphasis),
        txt("i"),
        MdEvent::End(TagKind::Emphasis),
        MdEvent::Start(TagKind::Strikethrough),
        txt("s"),
        MdEvent::End(TagKind::Strikethrough),
        MdEvent::End(TagKind::Paragraph),
        MdEvent::Rule,
    ];
    let body = body_of(events);
    assert_eq!(
        body,
        "<p><strong>b</strong><em>i</em><s>s</s></p>\n<hr>\n"
    );
}

#[test]
fn links_and_images_pass_urls_through_raw() {
    let events = vec![
        MdEvent::Start(TagKind::Link { url: "https://x.test/a?b=1&c=2".to_string() }),
        txt("go"),
        MdEvent::End(TagKind::Link { url: "https://x.test/a?b=1&c=2".to_string() }),
        MdEvent::Start(TagKind::Image {
            url: "pic.png".to_string(),
            alt: "a cat".to_string(),
        }),
    ];
    let body = body_of(events);
    assert_eq!(
        body,
        "<a href=\"https://x.test/a?b=1&c=2\">go</a><img src=\"pic.png\" alt=\"a cat\" title=\"a cat\">\n"
    );
}

#[test]
fn image_without_alt_has_no_title() {
    let events = vec![MdEvent::Start(TagKind::Image {
        url: "p.png".to_string(),
        alt: String::new(),
    })];
    assert_eq!(body_of(events), "<img src=\"p.png\" alt=\"\">\n");
}

#[test]
fn blockquote_wraps_content() {
    let events = vec![
        MdEvent::Start(TagKind::BlockQuote),
        MdEvent::Start(TagKind::Paragraph),
        txt("q"),
        MdEvent::End(TagKind::Paragraph),
        MdEvent::End(TagKind::BlockQuote),
    ];
    assert_eq!(body_of(events), "<blockquote>\n<p>q</p>\n</blockquote>\n");
}

#[test]
fn unknown_events_are_ignored() {
    let events = vec![
        MdEvent::Start(TagKind::Other),
        MdEvent::Other,
        MdEvent::End(TagKind::Other),
        txt("x"),
    ];
    assert_eq!(body_of(events), "x");
}

#[test]
fn heading_without_anchor_gets_empty_fragment() {
    let events = vec![
        MdEvent::Start(TagKind::Heading { level: 1, anchor: None }),
        txt("T"),
        MdEvent::End(TagKind::Heading { level: 1, anchor: None }),
    ];
    let (_, headings) = render(&events, &None, &None);
    assert_eq!(headings[0].anchor, "");
    let toc = generate_toc(&headings);
    assert!(toc.contains("<li><a href=\"#\">T</a></li>\n"));
}

#[test]
fn toc_level_is_clamped_at_both_ends() {
    assert_eq!(next_level(1), 2);
    assert_eq!(next_level(6), 6);
    assert_eq!(prev_level(2), 1);
    assert_eq!(prev_level(1), 1);
    let headings = vec![HeadingRecord {
        level: 6,
        anchor: "deep".to_string(),
        text: "Deep".to_string(),
    }];
    let toc = generate_toc(&headings);
    let expected = "<nav>\n<h2>Table of Contents</h2>\n<ul>\n<ul>\n<ul>\n<ul>\n<ul>\n<ul>\n<li><a href=\"#deep\">Deep</a></li>\n</ul>\n</ul>\n</ul>\n</ul>\n</ul>\n</ul>\n</nav>\n";
    assert_eq!(toc, expected);
}

#[test]
fn document_puts_toc_before_body() {
    let events = vec![
        MdEvent::Start(heading(1, "h")),
        txt("H"),
        MdEvent::End(heading(1, "h")),
        MdEvent::Start(TagKind::Paragraph),
        txt("body"),
        MdEvent::End(TagKind::Paragraph),
    ];
    let out = render_document(&events, &None, &None);
    let expected = "<nav>\n<h2>Table of Contents</h2>\n<ul>\n<li><a href=\"#h\">H</a></li>\n</ul>\n</nav>\n<h1>H</h1>\n<p>body</p>\n";
    assert_eq!(out, expected);
}

#[test]
fn convert_markdown_fills_html_output() {
    let mut app = MyApp {
        events: vec![
            MdEvent::Start(TagKind::Paragraph),
            txt("hi"),
            MdEvent::End(TagKind::Paragraph),
        ],
        html_output: String::new(),
        heading_class: None,
        paragraph_class: None,
    };
    app.convert_markdown();
    let expected = "<nav>\n<h2>Table of Contents</h2>\n<ul>\n</ul>\n</nav>\n<p>hi</p>\n";
    assert_eq!(app.html_output, expected);
}

#[test]
fn heading_text_accumulates_over_several_text_events() {
    let events = vec![
        MdEvent::Start(heading(2, "ab")),
        txt("A"),
        txt("B"),
        MdEvent::End(heading(2, "ab")),
    ];
    let (body, headings) = render(&events, &None, &None);
    assert_eq!(body, "<h2>AB</h2>\n");
    assert_eq!(headings[0].text, "AB");
    assert_eq!(headings[0].level, 2);
}

#[test]
fn balanced_tags_in_well_formed_document() {
    let events = vec![
        MdEvent::Start(heading(1, "t")),
        txt("T"),
        MdEvent::End(heading(1, "t")),
        MdEvent::Start(TagKind::Paragraph),
        MdEvent::Start(TagKind::Strong),
        txt("x"),
        MdEvent::End(TagKind::Strong),
        MdEvent::End(TagKind::Paragraph),
        MdEvent::Start(TagKind::List { start: Some(1) }),
        MdEvent::Start(TagKind::ListItem),
        txt("a"),
        MdEvent::Start(TagKind::List { start: None }),
        MdEvent::Start(TagKind::ListItem),
        txt("b"),
        MdEvent::End(TagKind::ListItem),
        MdEvent::End(TagKind::List { start: None }),
        MdEvent::End(TagKind::ListItem),
        MdEvent::End(TagKind::List { start: Some(1) }),
        MdEvent::Start(TagKind::Table { alignments: vec![Alignment::Right] }),
        MdEvent::Start(TagKind::TableHead),
        MdEvent::Start(TagKind::TableCell),
        txt("h"),
        MdEvent::End(TagKind::TableCell),
        MdEvent::End(TagKind::TableHead),
        MdEvent::Start(TagKind::TableRow),
        MdEvent::Start(TagKind::TableCell),
        txt("v"),
        MdEvent::End(TagKind::TableCell),
        MdEvent::End(TagKind::TableRow),
        MdEvent::End(TagKind::Table { alignments: vec![] }),
    ];
    let body = body_of(events);
    let pairs = [
        ("<h1>", "</h1>"),
        ("<p>", "</p>"),
        ("<strong>", "</strong>"),
        ("<ol", "</ol>"),
        ("<ul>", "</ul>"),
        ("<li>", "</li>"),
        ("<table>", "</table>"),
        ("<thead>", "</thead>"),
        ("<tr>", "</tr>"),
        ("<th>", "</th>"),
    ];
    for (open, close) in pairs {
        assert_eq!(
            body.matches(open).count(),
            body.matches(close).count(),
            "unbalanced {}",
            open
        );
    }
}
