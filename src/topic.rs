//! The topic tree of a mind map, with every field optional as in the
//! document format.

use vstd::prelude::*;

verus! {

/// The plain-text variant of a topic's notes.
#[derive(Debug)]
pub struct PlainContent {
    pub content: Option<String>,
}

/// The notes of a topic; only the plain variant is read.
#[derive(Debug)]
pub struct NotesContent {
    pub plain: Option<PlainContent>,
}

/// The children of a topic: only the attached ones are rendered.
#[derive(Debug)]
pub struct ChildrenWrapper {
    pub attached: Vec<Topic>,
}

/// A node of the mind map. The root of a document is a topic too.
#[derive(Debug)]
pub struct Topic {
    pub title: Option<String>,
    pub notes: Option<NotesContent>,
    pub children: Option<ChildrenWrapper>,
}

/// The title of a topic; a missing title is empty.
pub open spec fn title_of(t: Topic) -> Seq<char> {
    match t.title {
        Some(s) => s@,
        None => Seq::empty(),
    }
}

/// The attached children of a topic, in order; none when the field is absent.
pub open spec fn children_of(t: Topic) -> Seq<Topic> {
    match t.children {
        Some(w) => w.attached@,
        None => Seq::empty(),
    }
}

/// The number of levels of the tree below and including `t`.
pub open spec fn height(t: Topic) -> nat
    decreases t,
{
    match t.children {
        Some(w) => 1 + forest_height(w.attached@),
        None => 1,
    }
}

/// The largest height among `ts`, or zero.
pub open spec fn forest_height(ts: Seq<Topic>) -> nat
    decreases ts,
{
    if ts.len() == 0 {
        0
    } else {
        let h = height(ts.last());
        let r = forest_height(ts.drop_last());
        if h > r {
            h
        } else {
            r
        }
    }
}

pub proof fn lemma_forest_height_bounds(ts: Seq<Topic>, i: int)
    requires
        0 <= i < ts.len(),
    ensures
        height(ts[i]) <= forest_height(ts),
        forest_height(ts.subrange(0, i)) <= forest_height(ts),
    decreases ts.len(),
{
    if i < ts.len() - 1 {
        lemma_forest_height_bounds(ts.drop_last(), i);
        assert(ts.drop_last()[i] == ts[i]);
        assert(ts.drop_last().subrange(0, i) =~= ts.subrange(0, i));
    } else {
        assert(ts.drop_last() =~= ts.subrange(0, i));
    }
}

pub proof fn lemma_forest_height_at_most(ts: Seq<Topic>, b: nat)
    requires
        forall|i: int| 0 <= i < ts.len() ==> height(#[trigger] ts[i]) <= b,
    ensures
        forest_height(ts) <= b,
    decreases ts.len(),
{
    if ts.len() > 0 {
        assert forall|i: int| 0 <= i < ts.drop_last().len() implies height(
            #[trigger] ts.drop_last()[i],
        ) <= b by {
            assert(ts.drop_last()[i] == ts[i]);
        }
        lemma_forest_height_at_most(ts.drop_last(), b);
        assert(height(ts[ts.len() - 1]) <= b);
    }
}

/// The title of a topic, empty where it has none.
pub fn topic_title(t: &Topic) -> (r: &str)
    ensures
        r@ == title_of(*t),
{
    match &t.title {
        Some(s) => s.as_str(),
        None => {
            proof {
                reveal_strlit("");
            }
            ""
        },
    }
}

/// The title of the root topic, empty where it has none.
pub fn root_title(r: &Topic) -> (s: &str)
    ensures
        s@ == title_of(*r),
{
    topic_title(r)
}

} // verus!
