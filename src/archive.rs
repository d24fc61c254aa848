//! Entry names of the archive: normalisation, the search for the data entry
//! and for the legacy marker, and the listing shown when neither is found.

use vstd::prelude::*;
use crate::error::ConvertError;
use crate::text::{chars_of, string_of};

verus! {

/// `s` with each backslash turned into a forward slash.
pub open spec fn slashes_forward(s: Seq<char>) -> Seq<char> {
    Seq::new(s.len(), |i: int| if s[i] == '\\' { '/' } else { s[i] })
}

pub open spec fn trim_slash_start(s: Seq<char>) -> Seq<char>
    decreases s.len(),
{
    if s.len() > 0 && s[0] == '/' {
        trim_slash_start(s.drop_first())
    } else {
        s
    }
}

pub open spec fn trim_slash_end(s: Seq<char>) -> Seq<char>
    decreases s.len(),
{
    if s.len() > 0 && s.last() == '/' {
        trim_slash_end(s.drop_last())
    } else {
        s
    }
}

/// An entry name with forward slashes and no enclosing slashes.
pub open spec fn normalized(s: Seq<char>) -> Seq<char> {
    trim_slash_end(trim_slash_start(slashes_forward(s)))
}

pub open spec fn ends_with(s: Seq<char>, p: Seq<char>) -> bool {
    p.len() <= s.len() && s.subrange(s.len() - p.len(), s.len() as int) == p
}

pub open spec fn data_file() -> Seq<char> {
    seq!['c', 'o', 'n', 't', 'e', 'n', 't', '.', 'j', 's', 'o', 'n']
}

pub open spec fn legacy_file() -> Seq<char> {
    seq!['c', 'o', 'n', 't', 'e', 'n', 't', '.', 'x', 'm', 'l']
}

/// Whether entry `n` is the file `f` at the root of the archive.
pub open spec fn at_root(n: Seq<char>, f: Seq<char>) -> bool {
    normalized(n) == f
}

/// Whether entry `n` is the file `f`, at the root or in a directory.
pub open spec fn anywhere(n: Seq<char>, f: Seq<char>) -> bool {
    normalized(n) == f || ends_with(normalized(n), seq!['/'] + f)
}

pub open spec fn views(ns: Seq<String>) -> Seq<Seq<char>> {
    ns.map_values(|s: String| s@)
}

/// Whether `i` is the first index of `ns` naming the file `f` at the root.
pub open spec fn first_at_root(ns: Seq<Seq<char>>, i: int, f: Seq<char>) -> bool {
    &&& 0 <= i < ns.len()
    &&& at_root(ns[i], f)
    &&& forall|j: int| 0 <= j < i ==> !at_root(#[trigger] ns[j], f)
}

/// Whether `i` is the first index of `ns` naming the file `f` anywhere.
pub open spec fn first_anywhere(ns: Seq<Seq<char>>, i: int, f: Seq<char>) -> bool {
    &&& 0 <= i < ns.len()
    &&& anywhere(ns[i], f)
    &&& forall|j: int| 0 <= j < i ==> !anywhere(#[trigger] ns[j], f)
}

/// Whether some entry of `ns` is the file `f` at the root.
pub open spec fn some_at_root(ns: Seq<Seq<char>>, f: Seq<char>) -> bool {
    exists|j: int| 0 <= j < ns.len() && at_root(#[trigger] ns[j], f)
}

/// Whether some entry of `ns` is the file `f`, at the root or in a directory.
pub open spec fn some_anywhere(ns: Seq<Seq<char>>, f: Seq<char>) -> bool {
    exists|j: int| 0 <= j < ns.len() && anywhere(#[trigger] ns[j], f)
}

/// Whether entry `i` holds the data: the first at the root, else the first
/// in a directory.
pub open spec fn is_data_entry(ns: Seq<Seq<char>>, i: int) -> bool {
    if some_at_root(ns, data_file()) {
        first_at_root(ns, i, data_file())
    } else {
        first_anywhere(ns, i, data_file())
    }
}

/// Whether some entry is the legacy marker, at the root or in a directory.
pub open spec fn has_legacy(ns: Seq<Seq<char>>) -> bool {
    some_anywhere(ns, legacy_file())
}

/// The names joined by `, `.
pub open spec fn joined(ns: Seq<Seq<char>>) -> Seq<char>
    decreases ns.len(),
{
    if ns.len() == 0 {
        Seq::empty()
    } else if ns.len() == 1 {
        ns[0]
    } else {
        joined(ns.drop_last()) + seq![',', ' '] + ns.last()
    }
}

/// The first twenty names joined by `, `, followed by ` ...` when there are more.
pub open spec fn listing(ns: Seq<Seq<char>>) -> Seq<char> {
    if ns.len() > 20 {
        joined(ns.take(20)) + seq![' ', '.', '.', '.']
    } else {
        joined(ns)
    }
}

/// Normalizes an entry name: forward slashes, no leading or trailing slash.
pub fn normalize_zip_name(n: &str) -> (r: String)
    ensures
        r@ == normalized(n@),
{
    let v = chars_of(n);
    let mut w: Vec<char> = Vec::new();
    let mut i: usize = 0;
    while i < v.len()
        invariant
            i <= v@.len(),
            w@ =~= slashes_forward(v@.subrange(0, i as int)),
        decreases v.len() - i,
    {
        w.push(if v[i] == '\\' { '/' } else { v[i] });
        i = i + 1;
    }
    assert(v@.subrange(0, v@.len() as int) =~= v@);
    let len = w.len();
    let mut lo: usize = 0;
    assert(w@.subrange(0, len as int) =~= w@);
    while lo < len && w[lo] == '/'
        invariant
            lo <= len == w@.len(),
            trim_slash_start(w@) == trim_slash_start(w@.subrange(lo as int, len as int)),
        decreases len - lo,
    {
        assert(w@.subrange(lo as int, len as int).drop_first() =~= w@.subrange(
            lo + 1,
            len as int,
        ));
        lo = lo + 1;
    }
    let ghost front = w@.subrange(lo as int, len as int);
    let mut hi: usize = len;
    while hi > lo && w[hi - 1] == '/'
        invariant
            lo <= hi <= len == w@.len(),
            front == w@.subrange(lo as int, len as int),
            trim_slash_end(front) == trim_slash_end(w@.subrange(lo as int, hi as int)),
        decreases hi,
    {
        assert(w@.subrange(lo as int, hi as int).drop_last() =~= w@.subrange(
            lo as int,
            hi - 1,
        ));
        hi = hi - 1;
    }
    let mut r: Vec<char> = Vec::new();
    let mut k: usize = lo;
    while k < hi
        invariant
            lo <= k <= hi <= len == w@.len(),
            r@ == w@.subrange(lo as int, k as int),
        decreases hi - k,
    {
        r.push(w[k]);
        assert(r@ =~= w@.subrange(lo as int, k + 1));
        k = k + 1;
    }
    string_of(&r)
}

fn same_chars(a: &Vec<char>, b: &Vec<char>) -> (r: bool)
    ensures
        r == (a@ == b@),
{
    if a.len() != b.len() {
        return false;
    }
    let mut i: usize = 0;
    while i < a.len()
        invariant
            i <= a@.len() == b@.len(),
            forall|j: int| 0 <= j < i ==> a@[j] == b@[j],
        decreases a.len() - i,
    {
        if a[i] != b[i] {
            return false;
        }
        i = i + 1;
    }
    assert(a@ =~= b@);
    true
}

fn ends_with_chars(a: &Vec<char>, p: &Vec<char>) -> (r: bool)
    ensures
        r == ends_with(a@, p@),
{
    if p.len() > a.len() {
        return false;
    }
    let off = a.len() - p.len();
    let mut i: usize = 0;
    while i < p.len()
        invariant
            off + p@.len() == a@.len(),
            i <= p@.len(),
            forall|j: int| 0 <= j < i ==> a@[off + j] == p@[j],
        decreases p.len() - i,
    {
        assert(off + i < a.len() <= usize::MAX);
        let k: usize = off + i;
        if a[k] != p[i] {
            assert(a@.subrange(off as int, a@.len() as int)[i as int] != p@[i as int]);
            return false;
        }
        i = i + 1;
    }
    assert(a@.subrange(off as int, a@.len() as int) =~= p@);
    true
}

/// Whether the entry `n` is the file `f` at the root, and whether it is the
/// file `f` at the root or in a directory.
fn entry_matches(n: &String, f: &Vec<char>) -> (r: (bool, bool))
    ensures
        r.0 == at_root(n@, f@),
        r.1 == anywhere(n@, f@),
{
    let norm = chars_of(normalize_zip_name(n.as_str()).as_str());
    let mut nested: Vec<char> = Vec::new();
    nested.push('/');
    let mut i: usize = 0;
    while i < f.len()
        invariant
            i <= f@.len(),
            nested@ =~= seq!['/'] + f@.subrange(0, i as int),
        decreases f.len() - i,
    {
        nested.push(f[i]);
        i = i + 1;
    }
    assert(f@.subrange(0, f@.len() as int) =~= f@);
    let root = same_chars(&norm, f);
    (root, root || ends_with_chars(&norm, &nested))
}

/// The index of the first name that is the file `f` at the root (when `root`
/// holds) or anywhere (when it does not).
fn first_entry(names: &[String], f: &Vec<char>, root: bool) -> (r: Option<usize>)
    ensures
        root ==> match r {
            Some(i) => first_at_root(views(names@), i as int, f@),
            None => !some_at_root(views(names@), f@),
        },
        !root ==> match r {
            Some(i) => first_anywhere(views(names@), i as int, f@),
            None => !some_anywhere(views(names@), f@),
        },
{
    let ghost ns = views(names@);
    let mut i: usize = 0;
    while i < names.len()
        invariant
            i <= names@.len(),
            ns == views(names@),
            root ==> forall|j: int| 0 <= j < i ==> !at_root(#[trigger] ns[j], f@),
            !root ==> forall|j: int| 0 <= j < i ==> !anywhere(#[trigger] ns[j], f@),
        decreases names.len() - i,
    {
        let (at, any) = entry_matches(&names[i], f);
        assert(ns[i as int] == names@[i as int]@);
        if (root && at) || (!root && any) {
            return Some(i);
        }
        i = i + 1;
    }
    None
}

fn data_file_chars() -> (r: Vec<char>)
    ensures
        r@ == data_file(),
{
    let r = vec!['c', 'o', 'n', 't', 'e', 'n', 't', '.', 'j', 's', 'o', 'n'];
    assert(r@ =~= data_file());
    r
}

fn legacy_file_chars() -> (r: Vec<char>)
    ensures
        r@ == legacy_file(),
{
    let r = vec!['c', 'o', 'n', 't', 'e', 'n', 't', '.', 'x', 'm', 'l'];
    assert(r@ =~= legacy_file());
    r
}

/// The index of the data entry among `names`: the first `content.json` at
/// the root, else the first one in a directory.
pub fn data_entry_index(names: &[String]) -> (r: Option<usize>)
    ensures
        match r {
            Some(i) => is_data_entry(views(names@), i as int),
            None => !some_anywhere(views(names@), data_file()),
        },
{
    let f = data_file_chars();
    let ghost ns = views(names@);
    match first_entry(names, &f, true) {
        Some(i) => Some(i),
        None => {
            let r = first_entry(names, &f, false);
            proof {
                if r is None && some_anywhere(ns, data_file()) {
                    let j = choose|j: int| 0 <= j < ns.len() && anywhere(#[trigger] ns[j], data_file());
                    assert(anywhere(ns[j], data_file()));
                }
            }
            r
        },
    }
}

/// The name of the data entry among `names`, as `data_entry_index` picks it.
pub fn find_content_json(names: &[String]) -> (r: Option<&str>)
    ensures
        match r {
            Some(s) => exists|i: int| is_data_entry(views(names@), i) && s@ == names@[i]@,
            None => !some_anywhere(views(names@), data_file()),
        },
{
    match data_entry_index(names) {
        Some(i) => Some(names[i].as_str()),
        None => None,
    }
}

/// The first twenty names joined by `, `, then ` ...` where there are more.
pub fn entry_listing(names: &[String]) -> (r: String)
    ensures
        r@ == listing(views(names@)),
{
    let ghost ns = views(names@);
    let n: usize = if names.len() > 20 {
        20
    } else {
        names.len()
    };
    let mut out: Vec<char> = Vec::new();
    let mut i: usize = 0;
    while i < n
        invariant
            n <= names@.len(),
            ns == views(names@),
            i <= n,
            out@ == joined(ns.take(i as int)),
        decreases n - i,
    {
        let ghost before = out@;
        assert(ns.take(i + 1).drop_last() =~= ns.take(i as int));
        assert(ns.take(i + 1).last() == names@[i as int]@);
        let name = chars_of(names[i].as_str());
        if i > 0 {
            out.push(',');
            out.push(' ');
        }
        let mut k: usize = 0;
        let ghost mid = out@;
        while k < name.len()
            invariant
                k <= name@.len(),
                out@ =~= mid + name@.subrange(0, k as int),
            decreases name.len() - k,
        {
            out.push(name[k]);
            k = k + 1;
        }
        assert(name@.subrange(0, name@.len() as int) =~= name@);
        if i > 0 {
            assert(out@ =~= before + seq![',', ' '] + name@);
        } else {
            assert(before =~= Seq::<char>::empty());
            assert(out@ =~= name@);
        }
        i = i + 1;
    }
    if names.len() > 20 {
        out.push(' ');
        out.push('.');
        out.push('.');
        out.push('.');
        assert(out@ =~= listing(ns));
    } else {
        assert(ns.take(i as int) =~= ns);
    }
    string_of(&out)
}

/// Picks the data entry of an archive from its entry names, or says why
/// there is none: the legacy layout, or no entry at all of either kind.
pub fn select_data_entry(names: &[String]) -> (r: Result<usize, ConvertError>)
    ensures
        match r {
            Ok(i) => is_data_entry(views(names@), i as int),
            Err(ConvertError::UnsupportedLegacyFormat) => !some_anywhere(
                views(names@),
                data_file(),
            ) && has_legacy(views(names@)),
            Err(ConvertError::DataEntryNotFound(l)) => !some_anywhere(views(names@), data_file())
                && !has_legacy(views(names@)) && l@ == listing(views(names@)),
            Err(_) => false,
        },
{
    match data_entry_index(names) {
        Some(i) => Ok(i),
        None => {
            let x = legacy_file_chars();
            match first_entry(names, &x, false) {
                Some(_) => Err(ConvertError::UnsupportedLegacyFormat),
                None => Err(ConvertError::DataEntryNotFound(entry_listing(names))),
            }
        },
    }
}

} // verus!
