//! Character-level text helpers: whitespace trimming, tag stripping and
//! entity decoding, each stated over `Seq<char>`.

use vstd::prelude::*;

verus! {

/// The characters with the Unicode `White_Space` property.
pub open spec fn is_white(c: char) -> bool {
    let n = c as u32;
    (0x9 <= n && n <= 0xd) || n == 0x20 || n == 0x85 || n == 0xa0 || n == 0x1680 || (0x2000 <= n
        && n <= 0x200a) || n == 0x2028 || n == 0x2029 || n == 0x202f || n == 0x205f || n == 0x3000
}

pub open spec fn trim_start(s: Seq<char>) -> Seq<char>
    decreases s.len(),
{
    if s.len() > 0 && is_white(s[0]) {
        trim_start(s.drop_first())
    } else {
        s
    }
}

pub open spec fn trim_end(s: Seq<char>) -> Seq<char>
    decreases s.len(),
{
    if s.len() > 0 && is_white(s.last()) {
        trim_end(s.drop_last())
    } else {
        s
    }
}

/// `s` without leading and trailing whitespace.
pub open spec fn trimmed(s: Seq<char>) -> Seq<char> {
    trim_end(trim_start(s))
}

/// Whether a tag is open after scanning `s` from its start.
pub open spec fn tag_open_after(s: Seq<char>) -> bool
    decreases s.len(),
{
    if s.len() == 0 {
        false
    } else if s.last() == '<' {
        true
    } else if s.last() == '>' {
        false
    } else {
        tag_open_after(s.drop_last())
    }
}

/// `s` without every run from a `<` up to the next `>`, both included; any
/// other character, a `>` that closes no tag among them, is kept.
pub open spec fn strip_tags(s: Seq<char>) -> Seq<char>
    decreases s.len(),
{
    if s.len() == 0 {
        Seq::empty()
    } else {
        let c = s.last();
        let p = s.drop_last();
        if c == '<' || tag_open_after(p) {
            strip_tags(p)
        } else {
            strip_tags(p).push(c)
        }
    }
}

pub open spec fn starts_with(s: Seq<char>, p: Seq<char>) -> bool {
    p.len() <= s.len() && s.subrange(0, p.len() as int) == p
}

pub open spec fn nbsp_entity() -> Seq<char> {
    seq!['&', 'n', 'b', 's', 'p', ';']
}

pub open spec fn lt_entity() -> Seq<char> {
    seq!['&', 'l', 't', ';']
}

pub open spec fn gt_entity() -> Seq<char> {
    seq!['&', 'g', 't', ';']
}

pub open spec fn amp_entity() -> Seq<char> {
    seq!['&', 'a', 'm', 'p', ';']
}

pub open spec fn quot_entity() -> Seq<char> {
    seq!['&', 'q', 'u', 'o', 't', ';']
}

/// One left-to-right pass that replaces the five entities `&nbsp;`, `&lt;`,
/// `&gt;`, `&amp;` and `&quot;`; what a replacement produces is not read again.
pub open spec fn decode_entities(s: Seq<char>) -> Seq<char>
    decreases s.len(),
{
    if s.len() == 0 {
        Seq::empty()
    } else if starts_with(s, nbsp_entity()) {
        seq![' '] + decode_entities(s.skip(6))
    } else if starts_with(s, lt_entity()) {
        seq!['<'] + decode_entities(s.skip(4))
    } else if starts_with(s, gt_entity()) {
        seq!['>'] + decode_entities(s.skip(4))
    } else if starts_with(s, amp_entity()) {
        seq!['&'] + decode_entities(s.skip(5))
    } else if starts_with(s, quot_entity()) {
        seq!['"'] + decode_entities(s.skip(6))
    } else {
        seq![s[0]] + decode_entities(s.skip(1))
    }
}

/// Relies on `str::chars`: the characters of `s`, in order.
#[verifier::external_body]
pub(crate) fn chars_of(s: &str) -> (r: Vec<char>)
    ensures
        r@ == s@,
{
    s.chars().collect()
}

/// Relies on `FromIterator<char>` for `String`: the string of the characters of `v`.
#[verifier::external_body]
pub(crate) fn string_of(v: &Vec<char>) -> (r: String)
    ensures
        r@ == v@,
{
    v.iter().collect()
}

pub fn is_white_char(c: char) -> (r: bool)
    ensures
        r == is_white(c),
{
    let n = c as u32;
    (0x9 <= n && n <= 0xd) || n == 0x20 || n == 0x85 || n == 0xa0 || n == 0x1680 || (0x2000 <= n
        && n <= 0x200a) || n == 0x2028 || n == 0x2029 || n == 0x202f || n == 0x205f || n == 0x3000
}

/// The characters of `v` without leading and trailing whitespace.
pub fn trim_chars(v: &Vec<char>) -> (r: Vec<char>)
    ensures
        r@ == trimmed(v@),
{
    let len = v.len();
    let mut lo: usize = 0;
    assert(v@.subrange(0, len as int) =~= v@);
    while lo < len && is_white_char(v[lo])
        invariant
            lo <= len == v@.len(),
            trim_start(v@) == trim_start(v@.subrange(lo as int, len as int)),
        decreases len - lo,
    {
        assert(v@.subrange(lo as int, len as int).drop_first() =~= v@.subrange(
            lo + 1,
            len as int,
        ));
        lo = lo + 1;
    }
    let ghost front = v@.subrange(lo as int, len as int);
    assert(trim_start(front) == front);
    let mut hi: usize = len;
    while hi > lo && is_white_char(v[hi - 1])
        invariant
            lo <= hi <= len == v@.len(),
            front == v@.subrange(lo as int, len as int),
            trim_end(front) == trim_end(v@.subrange(lo as int, hi as int)),
        decreases hi,
    {
        assert(v@.subrange(lo as int, hi as int).drop_last() =~= v@.subrange(
            lo as int,
            hi - 1,
        ));
        hi = hi - 1;
    }
    let mut r: Vec<char> = Vec::new();
    let mut i: usize = lo;
    while i < hi
        invariant
            lo <= i <= hi <= len == v@.len(),
            r@ == v@.subrange(lo as int, i as int),
        decreases hi - i,
    {
        r.push(v[i]);
        assert(r@ =~= v@.subrange(lo as int, i + 1));
        i = i + 1;
    }
    r
}

/// The characters of `v` with every tag (from `<` to the next `>`) removed.
pub fn strip_tag_chars(v: &Vec<char>) -> (r: Vec<char>)
    ensures
        r@ == strip_tags(v@),
{
    let mut r: Vec<char> = Vec::new();
    let mut in_tag = false;
    let mut i: usize = 0;
    while i < v.len()
        invariant
            i <= v@.len(),
            r@ == strip_tags(v@.subrange(0, i as int)),
            in_tag == tag_open_after(v@.subrange(0, i as int)),
        decreases v.len() - i,
    {
        let c = v[i];
        assert(v@.subrange(0, i + 1).drop_last() =~= v@.subrange(0, i as int));
        if c == '<' {
            in_tag = true;
        } else if in_tag {
            if c == '>' {
                in_tag = false;
            }
        } else {
            r.push(c);
        }
        i = i + 1;
    }
    assert(v@.subrange(0, v@.len() as int) =~= v@);
    r
}

/// Whether `pat` occurs in `v` at position `i`.
fn occurs_at(v: &Vec<char>, i: usize, pat: &Vec<char>) -> (r: bool)
    requires
        i <= v@.len(),
    ensures
        r == starts_with(v@.skip(i as int), pat@),
{
    if pat.len() > v.len() - i {
        return false;
    }
    let mut k: usize = 0;
    while k < pat.len()
        invariant
            k <= pat@.len(),
            i <= v@.len(),
            i + pat@.len() <= v@.len(),
            forall|j: int| 0 <= j < k ==> v@[i + j] == pat@[j],
        decreases pat.len() - k,
    {
        assert(i + k < v.len() <= usize::MAX);
        let j: usize = i + k;
        if v[j] != pat[k] {
            assert(v@.skip(i as int).subrange(0, pat@.len() as int)[k as int] != pat@[k as int]);
            return false;
        }
        k = k + 1;
    }
    assert(v@.skip(i as int).subrange(0, pat@.len() as int) =~= pat@);
    true
}

/// The characters of `v` with the five entities decoded in one pass.
pub fn decode_entity_chars(v: &Vec<char>) -> (r: Vec<char>)
    ensures
        r@ == decode_entities(v@),
{
    let nbsp = vec!['&', 'n', 'b', 's', 'p', ';'];
    let lt = vec!['&', 'l', 't', ';'];
    let gt = vec!['&', 'g', 't', ';'];
    let amp = vec!['&', 'a', 'm', 'p', ';'];
    let quot = vec!['&', 'q', 'u', 'o', 't', ';'];
    assert(nbsp@ =~= nbsp_entity());
    assert(lt@ =~= lt_entity());
    assert(gt@ =~= gt_entity());
    assert(amp@ =~= amp_entity());
    assert(quot@ =~= quot_entity());
    let mut r: Vec<char> = Vec::new();
    let mut i: usize = 0;
    assert(v@.skip(0) =~= v@);
    while i < v.len()
        invariant
            i <= v@.len(),
            nbsp@ == nbsp_entity(),
            lt@ == lt_entity(),
            gt@ == gt_entity(),
            amp@ == amp_entity(),
            quot@ == quot_entity(),
            r@ + decode_entities(v@.skip(i as int)) == decode_entities(v@),
        decreases v.len() - i,
    {
        let ghost rest = v@.skip(i as int);
        let (c, step): (char, usize) = if occurs_at(v, i, &nbsp) {
            (' ', 6)
        } else if occurs_at(v, i, &lt) {
            ('<', 4)
        } else if occurs_at(v, i, &gt) {
            ('>', 4)
        } else if occurs_at(v, i, &amp) {
            ('&', 5)
        } else if occurs_at(v, i, &quot) {
            ('"', 6)
        } else {
            (v[i], 1)
        };
        assert(rest.skip(step as int) =~= v@.skip(i + step));
        assert(decode_entities(rest) == seq![c] + decode_entities(v@.skip(i + step)));
        let ghost old_r = r@;
        r.push(c);
        assert(r@ =~= old_r + seq![c]);
        assert(old_r + (seq![c] + decode_entities(v@.skip(i + step))) =~= r@ + decode_entities(
            v@.skip(i + step),
        ));
        i = i + step;
    }
    assert(decode_entities(v@.skip(i as int)) =~= Seq::<char>::empty());
    assert(r@ + Seq::<char>::empty() =~= r@);
    r
}

} // verus!
