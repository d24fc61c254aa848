//! Rendering of a topic tree as Markdown: headings down to level six, then
//! indented list items, each followed by its notes as a blockquote.

use vstd::prelude::*;
use crate::notes::{extract_plain_notes, opt_view, plain_notes};
use crate::text::{chars_of, string_of};
use crate::topic::{
    children_of, height, lemma_forest_height_bounds, root_title, title_of,
    topic_title, Topic,
};

verus! {

/// `s` with each newline replaced by a space.
pub open spec fn one_line(s: Seq<char>) -> Seq<char> {
    Seq::new(s.len(), |i: int| if s[i] == '\n' { ' ' } else { s[i] })
}

/// `s` with each newline followed by the `> ` prefix.
pub open spec fn quote_lines(s: Seq<char>) -> Seq<char>
    decreases s.len(),
{
    if s.len() == 0 {
        Seq::empty()
    } else {
        quote_lines(s.drop_last()) + if s.last() == '\n' {
            seq!['\n', '>', ' ']
        } else {
            seq![s.last()]
        }
    }
}

/// The blockquote for notes: a blank line, the quoted text, a blank line.
pub open spec fn quote_block(notes: Option<Seq<char>>) -> Seq<char> {
    match notes {
        Some(q) => seq!['\n', '>', ' '] + quote_lines(q) + seq!['\n', '\n'],
        None => Seq::empty(),
    }
}

pub open spec fn repeat(c: char, n: nat) -> Seq<char> {
    Seq::new(n, |i: int| c)
}

/// The heading (level six or less) or list item line of a topic at `level`,
/// after a blank line.
pub open spec fn heading(level: nat, title: Seq<char>) -> Seq<char> {
    if level <= 6 {
        seq!['\n'] + repeat('#', level) + seq![' '] + one_line(title) + seq!['\n']
    } else {
        seq!['\n'] + repeat(' ', (2 * (level - 7)) as nat) + seq!['-', ' '] + one_line(title)
            + seq!['\n']
    }
}

/// The Markdown of a topic at `level` and of everything below it.
pub open spec fn render_topic(t: Topic, level: nat) -> Seq<char>
    decreases t,
{
    heading(level, title_of(t)) + quote_block(plain_notes(t.notes)) + match t.children {
        Some(w) => render_forest(w.attached@, level + 1),
        None => Seq::empty(),
    }
}

/// The Markdown of sibling topics at `level`, in order.
pub open spec fn render_forest(ts: Seq<Topic>, level: nat) -> Seq<char>
    decreases ts,
{
    if ts.len() == 0 {
        Seq::empty()
    } else {
        render_forest(ts.drop_last(), level) + render_topic(ts.last(), level)
    }
}

/// The Markdown document of a root topic.
pub open spec fn render_document(root: Topic) -> Seq<char> {
    seq!['#', ' '] + one_line(title_of(root)) + seq!['\n'] + quote_block(plain_notes(root.notes))
        + render_forest(children_of(root), 2)
}

/// A root without notes and with a title free of newlines renders as the
/// heading `# <title>` on the first line, followed directly by its children:
/// no blockquote lines stand between them.
pub proof fn lemma_root_heading(root: Topic)
    requires
        plain_notes(root.notes) is None,
        forall|i: int| 0 <= i < title_of(root).len() ==> title_of(root)[i] != '\n',
    ensures
        render_document(root) == seq!['#', ' '] + title_of(root) + seq!['\n'] + render_forest(
            children_of(root),
            2,
        ),
        render_document(root).subrange(0, title_of(root).len() + 3int) == seq!['#', ' '] + title_of(
            root,
        ) + seq!['\n'],
{
    assert(one_line(title_of(root)) =~= title_of(root));
    let head = seq!['#', ' '] + title_of(root) + seq!['\n'];
    assert(render_document(root) =~= head + render_forest(children_of(root), 2));
    assert((head + render_forest(children_of(root), 2)).subrange(0, head.len() as int) =~= head);
}

/// Whether no topic of the tree below and including `t` has notes to show.
pub open spec fn without_notes(t: Topic) -> bool
    decreases t,
{
    plain_notes(t.notes) is None && match t.children {
        Some(w) => forall|i: int|
            0 <= i < w.attached@.len() ==> without_notes(#[trigger] w.attached@[i]),
        None => true,
    }
}

/// Whether no line of `s` after its first starts with `>`.
pub open spec fn no_quote_line(s: Seq<char>) -> bool {
    forall|i: int| 0 <= i < s.len() - 1 && #[trigger] s[i] == '\n' ==> s[i + 1] != '>'
}

proof fn lemma_concat_no_quote(a: Seq<char>, b: Seq<char>)
    requires
        no_quote_line(a),
        no_quote_line(b),
        b.len() == 0 || b[0] != '>',
    ensures
        no_quote_line(a + b),
{
    assert forall|i: int| 0 <= i < (a + b).len() - 1 && #[trigger] (a + b)[i] == '\n' implies (a
        + b)[i + 1] != '>' by {
        if i < a.len() - 1 {
            assert((a + b)[i] == a[i]);
            assert((a + b)[i + 1] == a[i + 1]);
        } else if i == a.len() - 1 {
            assert((a + b)[i + 1] == b[0]);
        } else {
            assert((a + b)[i] == b[i - a.len()]);
            assert((a + b)[i + 1] == b[i + 1 - a.len()]);
        }
    }
}

proof fn lemma_heading_no_quote(level: nat, title: Seq<char>)
    ensures
        no_quote_line(heading(level, title)),
        heading(level, title).len() > 0,
        heading(level, title)[0] == '\n',
{
    let p = if level <= 6 {
        repeat('#', level) + seq![' ']
    } else {
        repeat(' ', (2 * (level - 7)) as nat) + seq!['-', ' ']
    };
    let b = p + one_line(title) + seq!['\n'];
    assert(heading(level, title) =~= seq!['\n'] + b);
    assert forall|i: int| 0 <= i < b.len() - 1 implies #[trigger] b[i] != '\n' by {
        if i < p.len() {
            assert(b[i] == p[i]);
        } else {
            assert(b[i] == one_line(title)[i - p.len()]);
        }
    }
    assert(b[0] != '>') by {
        assert(b[0] == p[0]);
    }
    lemma_concat_no_quote(seq!['\n'], b);
}

proof fn lemma_topic_no_quote(t: Topic, level: nat)
    requires
        without_notes(t),
    ensures
        no_quote_line(render_topic(t, level)),
        render_topic(t, level).len() > 0,
        render_topic(t, level)[0] == '\n',
    decreases t,
{
    let h = heading(level, title_of(t));
    lemma_heading_no_quote(level, title_of(t));
    match t.children {
        Some(w) => {
            assert forall|i: int| 0 <= i < w.attached@.len() implies without_notes(
                #[trigger] w.attached@[i],
            ) by {}
            lemma_forest_no_quote(w.attached@, level + 1);
            let f = render_forest(w.attached@, level + 1);
            assert(render_topic(t, level) =~= h + f);
            lemma_concat_no_quote(h, f);
        },
        None => {
            assert(render_topic(t, level) =~= h);
        },
    }
}

proof fn lemma_forest_no_quote(ts: Seq<Topic>, level: nat)
    requires
        forall|i: int| 0 <= i < ts.len() ==> without_notes(#[trigger] ts[i]),
    ensures
        no_quote_line(render_forest(ts, level)),
        render_forest(ts, level).len() == 0 || render_forest(ts, level)[0] == '\n',
    decreases ts,
{
    if ts.len() > 0 {
        let init = ts.drop_last();
        assert forall|i: int| 0 <= i < init.len() implies without_notes(#[trigger] init[i]) by {
            assert(init[i] == ts[i]);
        }
        lemma_forest_no_quote(init, level);
        lemma_topic_no_quote(ts.last(), level);
        let a = render_forest(init, level);
        let b = render_topic(ts.last(), level);
        lemma_concat_no_quote(a, b);
        if a.len() > 0 {
            assert((a + b)[0] == a[0]);
        } else {
            assert((a + b)[0] == b[0]);
        }
    }
}

/// A tree without notes renders with no blockquote at all: the output
/// starts with the root heading `# <title>`, and no line starts with `>`.
pub proof fn lemma_no_notes_no_quotes(root: Topic)
    requires
        without_notes(root),
    ensures
        render_document(root) == seq!['#', ' '] + one_line(title_of(root)) + seq!['\n']
            + render_forest(children_of(root), 2),
        render_document(root)[0] == '#',
        no_quote_line(render_document(root)),
{
    let head = seq!['#', ' '] + one_line(title_of(root)) + seq!['\n'];
    let kids = children_of(root);
    assert(render_document(root) =~= head + render_forest(kids, 2));
    assert forall|i: int| 0 <= i < kids.len() implies without_notes(#[trigger] kids[i]) by {}
    lemma_forest_no_quote(kids, 2);
    assert forall|i: int| 0 <= i < head.len() - 1 implies #[trigger] head[i] != '\n' by {
        if i >= 2 {
            assert(head[i] == one_line(title_of(root))[i - 2]);
        }
    }
    lemma_concat_no_quote(head, render_forest(kids, 2));
    assert((head + render_forest(kids, 2))[0] == '#');
}

/// A title renders on a single line: it holds no newline once escaped, and
/// keeps its length.
pub proof fn lemma_title_single_line(title: Seq<char>)
    ensures
        one_line(title).len() == title.len(),
        forall|i: int| 0 <= i < one_line(title).len() ==> one_line(title)[i] != '\n',
{
}

/// Rendering is deterministic: two renderings of the same tree are the same
/// text, character for character.
pub proof fn lemma_render_deterministic(first: Topic, second: Topic, a: String, b: String)
    requires
        first == second,
        a@ == render_document(first),
        b@ == render_document(second),
    ensures
        a@ == b@,
{
}

/// Replaces each newline of `s` by a space, so that it fits on one line.
pub fn escape_md_line(s: &str) -> (r: String)
    ensures
        r@ == one_line(s@),
{
    let v = chars_of(s);
    let mut out: Vec<char> = Vec::new();
    let mut i: usize = 0;
    while i < v.len()
        invariant
            i <= v@.len(),
            out@ =~= one_line(v@.subrange(0, i as int)),
        decreases v.len() - i,
    {
        out.push(if v[i] == '\n' { ' ' } else { v[i] });
        i = i + 1;
    }
    assert(v@.subrange(0, v@.len() as int) =~= v@);
    string_of(&out)
}

/// Continues the blockquote on each line of `s`.
pub fn escape_blockquote(s: &str) -> (r: String)
    ensures
        r@ == quote_lines(s@),
{
    let v = chars_of(s);
    let mut out: Vec<char> = Vec::new();
    let mut i: usize = 0;
    while i < v.len()
        invariant
            i <= v@.len(),
            out@ == quote_lines(v@.subrange(0, i as int)),
        decreases v.len() - i,
    {
        assert(v@.subrange(0, i + 1).drop_last() =~= v@.subrange(0, i as int));
        let ghost before = out@;
        if v[i] == '\n' {
            out.push('\n');
            out.push('>');
            out.push(' ');
            assert(out@ =~= before + seq!['\n', '>', ' ']);
        } else {
            out.push(v[i]);
            assert(out@ =~= before + seq![v@[i as int]]);
        }
        i = i + 1;
    }
    assert(v@.subrange(0, v@.len() as int) =~= v@);
    string_of(&out)
}

fn push_chars(buf: &mut Vec<char>, s: &Vec<char>)
    ensures
        final(buf)@ == old(buf)@ + s@,
{
    let mut i: usize = 0;
    while i < s.len()
        invariant
            i <= s@.len(),
            buf@ =~= old(buf)@ + s@.subrange(0, i as int),
        decreases s.len() - i,
    {
        buf.push(s[i]);
        i = i + 1;
    }
}

fn push_repeat(buf: &mut Vec<char>, c: char, n: u64)
    ensures
        final(buf)@ == old(buf)@ + repeat(c, n as nat),
{
    let mut i: u64 = 0;
    while i < n
        invariant
            i <= n,
            buf@ =~= old(buf)@ + repeat(c, i as nat),
        decreases n - i,
    {
        buf.push(c);
        i = i + 1;
    }
}

/// The heading or list line of a topic at `level`.
fn heading_chars(level: u32, title: &str) -> (r: Vec<char>)
    ensures
        r@ == heading(level as nat, title@),
{
    let mut buf: Vec<char> = Vec::new();
    buf.push('\n');
    if level <= 6 {
        push_repeat(&mut buf, '#', level as u64);
        buf.push(' ');
    } else {
        push_repeat(&mut buf, ' ', 2 * ((level - 7) as u64));
        buf.push('-');
        buf.push(' ');
    }
    let t = chars_of(escape_md_line(title).as_str());
    push_chars(&mut buf, &t);
    buf.push('\n');
    if level <= 6 {
        assert(buf@ =~= heading(level as nat, title@));
    } else {
        assert(buf@ =~= heading(level as nat, title@));
    }
    buf
}

/// The blockquote of `notes`, empty where there are none.
fn quote_chars(notes: &Option<String>) -> (r: Vec<char>)
    ensures
        r@ == quote_block(opt_view(*notes)),
{
    let mut buf: Vec<char> = Vec::new();
    match notes {
        Some(q) => {
            buf.push('\n');
            buf.push('>');
            buf.push(' ');
            let body = chars_of(escape_blockquote(q.as_str()).as_str());
            push_chars(&mut buf, &body);
            buf.push('\n');
            buf.push('\n');
            assert(buf@ =~= quote_block(opt_view(*notes)));
        },
        None => {
            assert(buf@ =~= quote_block(opt_view(*notes)));
        },
    }
    buf
}

/// Appends to `out` the Markdown of `topic` at `level` and of its descendants.
pub fn write_topic(topic: &Topic, level: u32, out: &mut String)
    requires
        level + height(*topic) <= u32::MAX,
    ensures
        final(out)@ == old(out)@ + render_topic(*topic, level as nat),
    decreases topic,
{
    let mut buf = heading_chars(level, topic_title(topic));
    let q = quote_chars(&extract_plain_notes(&topic.notes));
    push_chars(&mut buf, &q);
    out.append(string_of(&buf).as_str());
    let ghost head = buf@;
    match &topic.children {
        Some(w) => {
            let mut i: usize = 0;
            while i < w.attached.len()
                invariant
                    topic.children == Some(*w),
                    level + height(*topic) <= u32::MAX,
                    i <= w.attached@.len(),
                    out@ == old(out)@ + head + render_forest(
                        w.attached@.subrange(0, i as int),
                        level as nat + 1,
                    ),
                decreases w.attached.len() - i,
            {
                proof {
                    lemma_forest_height_bounds(w.attached@, i as int);
                }
                let ghost before = out@;
                write_topic(&w.attached[i], level + 1, out);
                assert(w.attached@.subrange(0, i + 1).drop_last() =~= w.attached@.subrange(
                    0,
                    i as int,
                ));
                assert(out@ =~= old(out)@ + head + render_forest(
                    w.attached@.subrange(0, i + 1),
                    level as nat + 1,
                ));
                i = i + 1;
            }
            assert(w.attached@.subrange(0, w.attached@.len() as int) =~= w.attached@);
            assert(out@ =~= old(out)@ + render_topic(*topic, level as nat));
        },
        None => {
            assert(out@ =~= old(out)@ + render_topic(*topic, level as nat));
        },
    }
}

/// Appends to `out` the Markdown document of the root topic `root`.
pub fn write_markdown_from_root(root: &Topic, out: &mut String)
    requires
        height(*root) < u32::MAX,
    ensures
        final(out)@ == old(out)@ + render_document(*root),
{
    let mut buf: Vec<char> = Vec::new();
    buf.push('#');
    buf.push(' ');
    let t = chars_of(escape_md_line(root_title(root)).as_str());
    push_chars(&mut buf, &t);
    buf.push('\n');
    let q = quote_chars(&extract_plain_notes(&root.notes));
    push_chars(&mut buf, &q);
    out.append(string_of(&buf).as_str());
    let ghost head = buf@;
    let ghost kids = children_of(*root);
    match &root.children {
        Some(w) => {
            let mut i: usize = 0;
            while i < w.attached.len()
                invariant
                    root.children == Some(*w),
                    kids == w.attached@,
                    height(*root) < u32::MAX,
                    i <= w.attached@.len(),
                    out@ == old(out)@ + head + render_forest(w.attached@.subrange(0, i as int), 2),
                decreases w.attached.len() - i,
            {
                proof {
                    lemma_forest_height_bounds(w.attached@, i as int);
                }
                write_topic(&w.attached[i], 2, out);
                assert(w.attached@.subrange(0, i + 1).drop_last() =~= w.attached@.subrange(
                    0,
                    i as int,
                ));
                assert(out@ =~= old(out)@ + head + render_forest(
                    w.attached@.subrange(0, i + 1),
                    2,
                ));
                i = i + 1;
            }
            assert(w.attached@.subrange(0, w.attached@.len() as int) =~= w.attached@);
        },
        None => {},
    }
    assert(out@ =~= old(out)@ + render_document(*root));
}

/// The Markdown document of the root topic `root`.
pub fn render_markdown(root: &Topic) -> (r: String)
    requires
        height(*root) < u32::MAX,
    ensures
        r@ == render_document(*root),
{
    let mut md = String::new();
    write_markdown_from_root(root, &mut md);
    md
}

} // verus!
