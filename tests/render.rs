use xmind_md::notes::{extract_plain_notes, strip_html};
use xmind_md::render::{escape_blockquote, escape_md_line, render_markdown, write_topic};
use xmind_md::topic::{root_title, topic_title, ChildrenWrapper, NotesContent, PlainContent, Topic};

fn leaf(title: &str) -> Topic {
    Topic { title: Some(title.to_string()), notes: None, children: None }
}

fn with_children(title: &str, kids: Vec<Topic>) -> Topic {
    Topic {
        title: Some(title.to_string()),
        notes: None,
        children: Some(ChildrenWrapper { attached: kids }),
    }
}

fn notes_of(text: &str) -> Option<NotesContent> {
    Some(NotesContent { plain: Some(PlainContent { content: Some(text.to_string()) }) })
}

#[test]
fn root_without_notes_renders_heading() {
    let root = leaf("Plan");
    let md = render_markdown(&root);
    assert_eq!(md, "# Plan\n");
    assert!(!md.contains('>'));
}

#[test]
fn root_with_children_has_no_quote_lines() {
    let root = with_children("Plan", vec![leaf("A"), leaf("B")]);
    assert_eq!(render_markdown(&root), "# Plan\n\n## A\n\n## B\n");
}

#[test]
fn depth_three_heading() {
    let root = with_children("R", vec![with_children("P", vec![leaf("Step A")])]);
    let md = render_markdown(&root);
    assert_eq!(md, "# R\n\n## P\n\n### Step A\n");
}

#[test]
fn depth_eight_list_item() {
    let mut t = leaf("Step Z");
    for d in (2..8).rev() {
        t = with_children(&format!("D{}", d), vec![t]);
    }
    let root = with_children("R", vec![t]);
    let md = render_markdown(&root);
    assert!(md.contains("\n###### D6\n"));
    assert!(md.contains("\n- D7\n"));
    assert!(md.ends_with("\n  - Step Z\n"));
}

#[test]
fn write_topic_at_depth_nine_indents_four() {
    let mut out = String::from("x");
    write_topic(&leaf("Deep"), 9, &mut out);
    assert_eq!(out, "x\n    - Deep\n");
}

#[test]
fn notes_markup_is_stripped() {
    assert_eq!(strip_html("<b>Hello</b>&nbsp;World"), "Hello World");
    let root = Topic { title: Some("T".to_string()), notes: notes_of("<b>Hello</b>&nbsp;World"), children: None };
    assert_eq!(render_markdown(&root), "# T\n\n> Hello World\n\n");
}

#[test]
fn notes_on_child_follow_its_heading() {
    let child = Topic { title: Some("C".to_string()), notes: notes_of("one\ntwo"), children: None };
    let root = with_children("R", vec![child]);
    assert_eq!(render_markdown(&root), "# R\n\n## C\n\n> one\n> two\n\n");
}

#[test]
fn title_newline_renders_on_one_line() {
    let root = leaf("Line1\nLine2");
    assert_eq!(render_markdown(&root), "# Line1 Line2\n");
    assert_eq!(escape_md_line("a\nb\nc"), "a b c");
}

#[test]
fn rendering_twice_is_identical() {
    let root = with_children(
        "R",
        vec![Topic { title: None, notes: notes_of("n &amp; m"), children: Some(ChildrenWrapper { attached: vec![leaf("x")] }) }],
    );
    let a = render_markdown(&root);
    let b = render_markdown(&root);
    assert_eq!(a, b);
    assert_eq!(a, "# R\n\n## \n\n> n & m\n\n\n### x\n");
}

#[test]
fn missing_title_is_empty() {
    let t = Topic { title: None, notes: None, children: None };
    assert_eq!(topic_title(&t), "");
    assert_eq!(root_title(&t), "");
    assert_eq!(render_markdown(&t), "# \n");
}

#[test]
fn blockquote_continues_each_line() {
    assert_eq!(escape_blockquote("a\nb\n\nc"), "a\n> b\n> \n> c");
}

#[test]
fn entities_are_decoded_once() {
    assert_eq!(strip_html("&lt;x&gt; &quot;q&quot;"), "<x> \"q\"");
    assert_eq!(strip_html("&amp;lt;"), "&lt;");
    assert_eq!(strip_html("&amp;quot;"), "&quot;");
    assert_eq!(strip_html("a &unknown; b"), "a &unknown; b");
}

#[test]
fn tags_do_not_nest() {
    assert_eq!(strip_html("a<b<c>d>e"), "ad>e");
    assert_eq!(strip_html("x > y"), "x > y");
    assert_eq!(strip_html("a>b"), "a>b");
    assert_eq!(strip_html("open <tag"), "open");
}

#[test]
fn blank_notes_are_absent() {
    assert_eq!(extract_plain_notes(&None), None);
    assert_eq!(extract_plain_notes(&notes_of("   \n ")), None);
    assert_eq!(extract_plain_notes(&notes_of("<br/>")), None);
    assert_eq!(extract_plain_notes(&notes_of(" &nbsp; ")), None);
    assert_eq!(extract_plain_notes(&Some(NotesContent { plain: None })), None);
    assert_eq!(extract_plain_notes(&notes_of("  hi  ")), Some("hi".to_string()));
}
