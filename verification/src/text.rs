//! String helpers: character-level prefix/suffix tests and the byte order
//! that Rust uses to compare `String`s.
use vstd::prelude::*;
use vstd::string::*;

verus! {

/// `p` is a prefix of `s`.
pub open spec fn has_prefix(s: Seq<char>, p: Seq<char>) -> bool {
    p.len() <= s.len() && s.subrange(0, p.len() as int) == p
}

/// `p` is a suffix of `s`.
pub open spec fn has_suffix(s: Seq<char>, p: Seq<char>) -> bool {
    p.len() <= s.len() && s.subrange(s.len() - p.len(), s.len() as int) == p
}

/// Lexicographic order on character sequences by code point. It agrees with
/// `Ord for str`, which compares UTF-8 encodings byte by byte.
pub open spec fn text_le(a: Seq<char>, b: Seq<char>) -> bool
    decreases a.len(),
{
    if a.len() == 0 {
        true
    } else if b.len() == 0 {
        false
    } else if a[0] < b[0] {
        true
    } else if a[0] > b[0] {
        false
    } else {
        text_le(a.drop_first(), b.drop_first())
    }
}

pub proof fn lemma_text_le_total(a: Seq<char>, b: Seq<char>)
    ensures
        text_le(a, b) || text_le(b, a),
    decreases a.len(),
{
    if a.len() > 0 && b.len() > 0 && a[0] == b[0] {
        lemma_text_le_total(a.drop_first(), b.drop_first());
    }
}

pub proof fn lemma_text_le_trans(a: Seq<char>, b: Seq<char>, c: Seq<char>)
    requires
        text_le(a, b),
        text_le(b, c),
    ensures
        text_le(a, c),
    decreases a.len(),
{
    if a.len() > 0 && b.len() > 0 && c.len() > 0 && a[0] == b[0] && b[0] == c[0] {
        lemma_text_le_trans(a.drop_first(), b.drop_first(), c.drop_first());
    }
}

pub proof fn lemma_text_le_antisym(a: Seq<char>, b: Seq<char>)
    requires
        text_le(a, b),
        text_le(b, a),
    ensures
        a == b,
    decreases a.len(),
{
    if a.len() > 0 && b.len() > 0 {
        assert(a[0] == b[0]);
        lemma_text_le_antisym(a.drop_first(), b.drop_first());
        assert(a =~= seq![a[0]] + a.drop_first());
        assert(b =~= seq![b[0]] + b.drop_first());
    } else {
        assert(a =~= b);
    }
}

pub proof fn lemma_text_le_refl(a: Seq<char>)
    ensures
        text_le(a, a),
    decreases a.len(),
{
    if a.len() > 0 {
        lemma_text_le_refl(a.drop_first());
    }
}

/// Compares two character sequences in lexicographic order.
pub fn chars_le(a: &Vec<char>, b: &Vec<char>) -> (r: bool)
    ensures
        r == text_le(a@, b@),
{
    let mut i: usize = 0;
    assert(a@.skip(0) =~= a@);
    assert(b@.skip(0) =~= b@);
    while i < a.len() && i < b.len()
        invariant
            i <= a@.len(),
            i <= b@.len(),
            text_le(a@, b@) == text_le(a@.skip(i as int), b@.skip(i as int)),
        decreases a.len() - i,
    {
        let x = a[i];
        let y = b[i];
        if x < y {
            return true;
        }
        if x > y {
            return false;
        }
        assert(a@.skip(i as int).drop_first() =~= a@.skip(i + 1));
        assert(b@.skip(i as int).drop_first() =~= b@.skip(i + 1));
        i = i + 1;
    }
    i == a.len()
}

/// `a <= b` in the order that `Ord for str` uses.
pub fn str_le(a: &str, b: &str) -> (r: bool)
    ensures
        r == text_le(a@, b@),
{
    let x = chars_of(a);
    let y = chars_of(b);
    chars_le(&x, &y)
}

/// The characters of `s`.
pub fn chars_of(s: &str) -> (v: Vec<char>)
    ensures
        v@ == s@,
{
    broadcast use vstd::string::group_string_axioms;
    let mut v: Vec<char> = Vec::new();
    for c in it: s.chars()
        invariant
            it.seq() == s@,
            v@ == s@.take(it.index() as int),
    {
        v.push(c);
    }
    assert(v@ =~= s@);
    v
}

/// Character-wise equality of two strings.
pub fn str_eq(a: &str, b: &str) -> (r: bool)
    ensures
        r == (a@ == b@),
{
    let x = chars_of(a);
    let y = chars_of(b);
    if x.len() != y.len() {
        return false;
    }
    let mut i: usize = 0;
    while i < x.len()
        invariant
            x@ == a@,
            y@ == b@,
            x.len() == y.len(),
            i <= x.len(),
            forall|j: int| 0 <= j < i ==> x@[j] == y@[j],
        decreases x.len() - i,
    {
        if x[i] != y[i] {
            return false;
        }
        i = i + 1;
    }
    assert(x@ =~= y@);
    true
}

/// Whether `p` is a prefix of `s`.
pub fn starts_with(s: &str, p: &str) -> (r: bool)
    ensures
        r == has_prefix(s@, p@),
{
    let x = chars_of(s);
    let y = chars_of(p);
    if y.len() > x.len() {
        return false;
    }
    let mut i: usize = 0;
    while i < y.len()
        invariant
            x@ == s@,
            y@ == p@,
            y.len() <= x.len(),
            i <= y.len(),
            forall|j: int| 0 <= j < i ==> x@[j] == y@[j],
        decreases y.len() - i,
    {
        if x[i] != y[i] {
            assert(s@.subrange(0, p@.len() as int)[i as int] != p@[i as int]);
            return false;
        }
        i = i + 1;
    }
    assert(s@.subrange(0, p@.len() as int) =~= p@);
    true
}

/// Whether `p` is a suffix of `s`.
pub fn ends_with(s: &str, p: &str) -> (r: bool)
    ensures
        r == has_suffix(s@, p@),
{
    let x = chars_of(s);
    let y = chars_of(p);
    if y.len() > x.len() {
        return false;
    }
    let off = x.len() - y.len();
    let mut i: usize = 0;
    while i < y.len()
        invariant
            x@ == s@,
            y@ == p@,
            y.len() <= x.len(),
            off == x.len() - y.len(),
            i <= y.len(),
            forall|j: int| 0 <= j < i ==> x@[off + j] == y@[j],
        decreases y.len() - i,
    {
        if x[off + i] != y[i] {
            assert(s@.subrange(s@.len() - p@.len(), s@.len() as int)[i as int] != p@[i as int]);
            return false;
        }
        i = i + 1;
    }
    assert(s@.subrange(s@.len() - p@.len(), s@.len() as int) =~= p@);
    true
}

/// `s` with the prefix `p` removed, when `s` starts with `p`.
pub fn strip_prefix(s: &str, p: &str) -> (r: Option<String>)
    ensures
        r is Some <==> has_prefix(s@, p@),
        r matches Some(t) ==> t@ == s@.subrange(p@.len() as int, s@.len() as int),
{
    if starts_with(s, p) {
        let n = s.unicode_len();
        let k = p.unicode_len();
        let t = s.substring_char(k, n);
        Some(t.to_owned())
    } else {
        None
    }
}

/// `s` with the suffix `p` removed, when `s` ends with `p`.
pub fn strip_suffix(s: &str, p: &str) -> (r: Option<String>)
    ensures
        r is Some <==> has_suffix(s@, p@),
        r matches Some(t) ==> t@ == s@.subrange(0, s@.len() - p@.len()),
{
    if ends_with(s, p) {
        let n = s.unicode_len();
        let k = p.unicode_len();
        let t = s.substring_char(0, n - k);
        Some(t.to_owned())
    } else {
        None
    }
}

/// An owned copy of a string.
pub fn own(s: &str) -> (r: String)
    ensures
        r@ == s@,
{
    s.to_owned()
}

} // verus!

verus! {

/// The set of texts of a sequence of strings.
pub open spec fn text_set(s: Seq<String>) -> Set<Seq<char>> {
    Set::new(|t: Seq<char>| exists|i: int| 0 <= i < s.len() && (#[trigger] s[i])@ == t)
}

/// Strictly increasing in the text order: sorted, with no text twice.
pub open spec fn sorted_unique(s: Seq<String>) -> bool {
    forall|i: int, j: int|
        0 <= i < j < s.len() ==> text_le((#[trigger] s[i])@, (#[trigger] s[j])@) && s[i]@ != s[j]@
}

/// Whether some element of `v` has the text of `x`.
pub fn contains_text(v: &[String], x: &String) -> (r: bool)
    ensures
        r == text_set(v@).contains(x@),
{
    let mut i: usize = 0;
    while i < v.len()
        invariant
            i <= v@.len(),
            forall|j: int| 0 <= j < i ==> (#[trigger] v@[j])@ != x@,
        decreases v.len() - i,
    {
        if v[i] == *x {
            assert(text_set(v@).contains(x@));
            return true;
        }
        i = i + 1;
    }
    false
}

/// Adds `x` to a strictly increasing vector, keeping it strictly increasing.
pub fn insert_sorted(v: &mut Vec<String>, x: String)
    requires
        sorted_unique(old(v)@),
    ensures
        sorted_unique(final(v)@),
        text_set(final(v)@) == text_set(old(v)@).insert(x@),
{
    let ghost xv = x@;
    let mut i: usize = 0;
    let mut at_end = true;
    while i < v.len()
        invariant_except_break
            at_end,
            v@ == old(v)@,
            sorted_unique(v@),
            i <= v@.len(),
            x@ == xv,
            forall|j: int| 0 <= j < i ==> text_le((#[trigger] v@[j])@, xv) && v@[j]@ != xv,
        ensures
            v@ == old(v)@,
            i <= v@.len(),
            x@ == xv,
            forall|j: int| 0 <= j < i ==> text_le((#[trigger] v@[j])@, xv) && v@[j]@ != xv,
            at_end ==> i == v@.len(),
            !at_end ==> i < v@.len() && (v@[i as int]@ == xv || !text_le(v@[i as int]@, xv)),
        decreases v.len() - i,
    {
        if v[i] == x || !str_le(v[i].as_str(), x.as_str()) {
            at_end = false;
            break;
        }
        i = i + 1;
    }
    if !at_end && v[i] == x {
        assert(text_set(old(v)@).contains(xv));
        assert(text_set(v@) =~= text_set(old(v)@).insert(xv));
        return;
    }
    proof {
        if !at_end {
            lemma_text_le_total(v@[i as int]@, xv);
            assert forall|k: int| i <= k < v@.len() implies text_le(xv, (#[trigger] v@[k])@) && v@[k]@ != xv by {
                if k > i {
                    lemma_text_le_trans(xv, v@[i as int]@, v@[k]@);
                    if v@[k]@ == xv {
                        lemma_text_le_antisym(v@[i as int]@, xv);
                    }
                }
            }
        }
    }
    let ghost pre = v@;
    v.insert(i, x);
    assert(v@ =~= pre.insert(i as int, x));
    assert forall|a: int, b: int| 0 <= a < b < v@.len() implies text_le((#[trigger] v@[a])@, (#[trigger] v@[b])@) && v@[a]@ != v@[b]@ by {
        if a < i && b > i {
            assert(v@[a] == pre[a]);
            assert(v@[b] == pre[b - 1]);
            lemma_text_le_trans(pre[a]@, xv, pre[b - 1]@);
        } else if a < i && b == i {
        } else if a == i {
            assert(v@[b] == pre[b - 1]);
        } else if b < i {
            assert(v@[a] == pre[a] && v@[b] == pre[b]);
        } else {
            assert(v@[a] == pre[a - 1] && v@[b] == pre[b - 1]);
        }
    }
    assert forall|t: Seq<char>| text_set(v@).contains(t) <==> text_set(pre).insert(xv).contains(t) by {
        if text_set(v@).contains(t) {
            let k = choose|k: int| 0 <= k < v@.len() && (#[trigger] v@[k])@ == t;
            if k < i {
                assert(pre[k]@ == t);
            } else if k > i {
                assert(pre[k - 1]@ == t);
            }
        }
        if text_set(pre).contains(t) {
            let k = choose|k: int| 0 <= k < pre.len() && (#[trigger] pre[k])@ == t;
            if k < i {
                assert(v@[k]@ == t);
            } else {
                assert(v@[k + 1]@ == t);
            }
        }
        if t == xv {
            assert(v@[i as int]@ == t);
        }
    }
    assert(text_set(v@) =~= text_set(pre).insert(xv));
}

/// Extending a prefix by one element adds that element's text.
pub proof fn lemma_text_set_extend(s: Seq<String>, i: int)
    requires
        0 <= i < s.len(),
    ensures
        text_set(s.subrange(0, i + 1)) == text_set(s.subrange(0, i)).insert(s[i]@),
{
    assert forall|t: Seq<char>| text_set(s.subrange(0, i + 1)).contains(t) implies text_set(s.subrange(0, i)).insert(s[i]@).contains(t) by {
        let k = choose|k: int| 0 <= k < i + 1 && (#[trigger] s.subrange(0, i + 1)[k])@ == t;
        if k < i {
            assert(s.subrange(0, i)[k]@ == t);
        }
    }
    assert forall|t: Seq<char>| text_set(s.subrange(0, i)).insert(s[i]@).contains(t) implies text_set(s.subrange(0, i + 1)).contains(t) by {
        if t == s[i]@ {
            assert(s.subrange(0, i + 1)[i]@ == t);
        } else {
            let k = choose|k: int| 0 <= k < i && (#[trigger] s.subrange(0, i)[k])@ == t;
            assert(s.subrange(0, i + 1)[k]@ == t);
        }
    }
    assert(text_set(s.subrange(0, i + 1)) =~= text_set(s.subrange(0, i)).insert(s[i]@));
}

/// The texts of `items`, sorted, each once.
pub fn sorted_texts(items: &[String]) -> (r: Vec<String>)
    ensures
        sorted_unique(r@),
        text_set(r@) == text_set(items@),
{
    let mut r: Vec<String> = Vec::new();
    let mut i: usize = 0;
    assert(text_set(r@) =~= text_set(items@.subrange(0, 0)));
    while i < items.len()
        invariant
            i <= items@.len(),
            sorted_unique(r@),
            text_set(r@) == text_set(items@.subrange(0, i as int)),
        decreases items.len() - i,
    {
        insert_sorted(&mut r, items[i].clone());
        proof {
            lemma_text_set_extend(items@, i as int);
        }
        i = i + 1;
    }
    assert(items@.subrange(0, items@.len() as int) =~= items@);
    r
}

/// The texts in `a` that are not in `b`, sorted, each once.
pub fn text_difference(a: &[String], b: &[String]) -> (r: Vec<String>)
    ensures
        sorted_unique(r@),
        text_set(r@) == text_set(a@).difference(text_set(b@)),
{
    let mut r: Vec<String> = Vec::new();
    let mut i: usize = 0;
    assert(text_set(r@) =~= text_set(a@.subrange(0, 0)).difference(text_set(b@)));
    while i < a.len()
        invariant
            i <= a@.len(),
            sorted_unique(r@),
            text_set(r@) == text_set(a@.subrange(0, i as int)).difference(text_set(b@)),
        decreases a.len() - i,
    {
        if !contains_text(b, &a[i]) {
            insert_sorted(&mut r, a[i].clone());
        }
        proof {
            lemma_text_set_extend(a@, i as int);
            assert(text_set(r@) =~= text_set(a@.subrange(0, i + 1)).difference(text_set(b@)));
        }
        i = i + 1;
    }
    assert(a@.subrange(0, a@.len() as int) =~= a@);
    r
}

} // verus!
