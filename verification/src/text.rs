//! Text helpers over `str` and `String` whose behaviour is stated over
//! their character sequences.

use vstd::prelude::*;

verus! {

/// Character-wise equality of two string slices.
pub fn text_eq(a: &str, b: &str) -> (r: bool)
    ensures
        r == (a@ == b@),
{
    let n = a.unicode_len();
    if n != b.unicode_len() {
        return false;
    }
    let mut i: usize = 0;
    while i < n
        invariant
            n == a@.len(),
            n == b@.len(),
            i <= n,
            forall|j: int| 0 <= j < i ==> a@[j] == b@[j],
        decreases n - i,
    {
        if a.get_char(i) != b.get_char(i) {
            return false;
        }
        i = i + 1;
    }
    assert(a@ =~= b@);
    true
}

/// A copy of a list of strings with the same contents.
pub fn clone_strings(v: &Vec<String>) -> (r: Vec<String>)
    ensures
        r.deep_view() == v.deep_view(),
{
    let mut r: Vec<String> = Vec::new();
    let n = v.len();
    let mut i: usize = 0;
    while i < n
        invariant
            n == v.len(),
            i <= n,
            r@.len() == i,
            r.deep_view() =~= v.deep_view().take(i as int),
        decreases n - i,
    {
        let ghost before = r@;
        let s = v[i].clone();
        assert(s@ == v.deep_view()[i as int]);
        r.push(s);
        assert(r@ == before.push(s));
        assert(r@[i as int]@ == s@);
        assert(r.deep_view() =~= v.deep_view().take(i + 1));
        i = i + 1;
    }
    assert(v.deep_view().take(n as int) =~= v.deep_view());
    r
}

/// Element-wise equality of two lists of strings.
pub fn strings_eq(a: &Vec<String>, b: &Vec<String>) -> (r: bool)
    ensures
        r == (a.deep_view() == b.deep_view()),
{
    let n = a.len();
    if n != b.len() {
        assert(a.deep_view().len() != b.deep_view().len());
        return false;
    }
    let mut i: usize = 0;
    while i < n
        invariant
            n == a.len(),
            n == b.len(),
            i <= n,
            forall|j: int| 0 <= j < i ==> a.deep_view()[j] == b.deep_view()[j],
        decreases n - i,
    {
        if a[i] != b[i] {
            assert(a.deep_view()[i as int] != b.deep_view()[i as int]);
            return false;
        }
        i = i + 1;
    }
    assert(a.deep_view() =~= b.deep_view());
    true
}

/// A copy of an optional string.
pub fn clone_opt(o: &Option<String>) -> (r: Option<String>)
    ensures
        r.deep_view() == o.deep_view(),
{
    match o {
        Some(s) => Some(s.clone()),
        None => None,
    }
}

/// Equality of two optional strings by their contents.
pub fn opt_eq(a: &Option<String>, b: &Option<String>) -> (r: bool)
    ensures
        r == (a.deep_view() == b.deep_view()),
{
    match (a, b) {
        (Some(x), Some(y)) => *x == *y,
        (None, None) => true,
        _ => false,
    }
}

} // verus!

verus! {

/// Whether `s` ends with `suffix`.
pub open spec fn ends_with(s: Seq<char>, suffix: Seq<char>) -> bool {
    suffix.len() <= s.len() && s.subrange(s.len() - suffix.len(), s.len() as int) == suffix
}

/// Whether `s` ends with `suffix`, compared character by character.
pub fn text_ends_with(s: &str, suffix: &str) -> (r: bool)
    ensures
        r == ends_with(s@, suffix@),
{
    let n = s.unicode_len();
    let m = suffix.unicode_len();
    if m > n {
        return false;
    }
    let off = n - m;
    let mut i: usize = 0;
    while i < m
        invariant
            n == s@.len(),
            m == suffix@.len(),
            off == n - m,
            i <= m,
            forall|j: int| 0 <= j < i ==> s@[off + j] == suffix@[j],
        decreases m - i,
    {
        if s.get_char(off + i) != suffix.get_char(i) {
            assert(s@.subrange(off as int, n as int)[i as int] != suffix@[i as int]);
            return false;
        }
        i = i + 1;
    }
    assert(s@.subrange(off as int, n as int) =~= suffix@);
    true
}

/// The characters with the Unicode `White_Space` property.
pub open spec fn is_space(c: char) -> bool {
    let v = c as u32;
    ||| 0x09 <= v <= 0x0d
    ||| v == 0x20
    ||| v == 0x85
    ||| v == 0xa0
    ||| v == 0x1680
    ||| 0x2000 <= v <= 0x200a
    ||| v == 0x2028
    ||| v == 0x2029
    ||| v == 0x202f
    ||| v == 0x205f
    ||| v == 0x3000
}

/// Whether a character is white space.
pub fn char_is_space(c: char) -> (r: bool)
    ensures
        r == is_space(c),
{
    let v = c as u32;
    (0x09 <= v && v <= 0x0d) || v == 0x20 || v == 0x85 || v == 0xa0 || v == 0x1680 || (0x2000
        <= v && v <= 0x200a) || v == 0x2028 || v == 0x2029 || v == 0x202f || v == 0x205f || v
        == 0x3000
}

/// `s` without its leading white space.
pub open spec fn trim_start(s: Seq<char>) -> Seq<char>
    decreases s.len(),
{
    if s.len() > 0 && is_space(s[0]) {
        trim_start(s.subrange(1, s.len() as int))
    } else {
        s
    }
}

/// `s` without its trailing white space.
pub open spec fn trim_end(s: Seq<char>) -> Seq<char>
    decreases s.len(),
{
    if s.len() > 0 && is_space(s.last()) {
        trim_end(s.drop_last())
    } else {
        s
    }
}

/// `s` without leading and trailing white space.
pub open spec fn trim(s: Seq<char>) -> Seq<char> {
    trim_end(trim_start(s))
}

/// `s` without leading and trailing white space.
pub fn trim_text(s: &str) -> (r: &str)
    ensures
        r@ == trim(s@),
{
    let n = s.unicode_len();
    let mut i: usize = 0;
    assert(s@.subrange(0, n as int) =~= s@);
    while i < n && char_is_space(s.get_char(i))
        invariant
            n == s@.len(),
            i <= n,
            trim_start(s@) == trim_start(s@.subrange(i as int, n as int)),
        decreases n - i,
    {
        assert(s@.subrange(i as int, n as int).subrange(1, n - i) =~= s@.subrange(
            i + 1,
            n as int,
        ));
        i = i + 1;
    }
    assert(trim_start(s@) == s@.subrange(i as int, n as int));
    let mut j: usize = n;
    while j > i && char_is_space(s.get_char(j - 1))
        invariant
            n == s@.len(),
            i <= j <= n,
            trim(s@) == trim_end(s@.subrange(i as int, j as int)),
        decreases j,
    {
        assert(s@.subrange(i as int, j as int).drop_last() =~= s@.subrange(i as int, j - 1));
        j = j - 1;
    }
    s.substring_char(i, j)
}

/// The pieces of `s` between occurrences of `sep`, in order; a text
/// without `sep` is one piece, so there is always at least one.
pub open spec fn split(s: Seq<char>, sep: char) -> Seq<Seq<char>>
    decreases s.len(),
{
    if s.len() == 0 {
        seq![Seq::empty()]
    } else {
        let rest = split(s.drop_last(), sep);
        if s.last() == sep {
            rest.push(Seq::empty())
        } else {
            rest.update(rest.len() - 1, rest.last().push(s.last()))
        }
    }
}

/// The comma-separated items of `s`, each without surrounding white space.
pub open spec fn comma_list(s: Seq<char>) -> Seq<Seq<char>> {
    split(s, ',').map_values(|p: Seq<char>| trim(p))
}

/// The comma-separated items of `s`, each without surrounding white space.
pub fn split_comma_list(s: &str) -> (r: Vec<String>)
    ensures
        r.deep_view() == comma_list(s@),
{
    let n = s.unicode_len();
    let mut done: Vec<String> = Vec::new();
    let ghost mut pieces: Seq<Seq<char>> = Seq::empty();
    let mut start: usize = 0;
    let mut i: usize = 0;
    assert(s@.take(0) =~= Seq::<char>::empty());
    assert(s@.subrange(0, 0) =~= Seq::<char>::empty());
    assert(pieces.push(Seq::<char>::empty()) =~= seq![Seq::<char>::empty()]);
    assert(done.deep_view() =~= pieces.map_values(|p: Seq<char>| trim(p)));
    while i < n
        invariant
            n == s@.len(),
            start <= i <= n,
            split(s@.take(i as int), ',') == pieces.push(s@.subrange(start as int, i as int)),
            done.deep_view() == pieces.map_values(|p: Seq<char>| trim(p)),
        decreases n - i,
    {
        let c = s.get_char(i);
        assert(s@.take(i + 1).drop_last() =~= s@.take(i as int));
        assert(s@.take(i + 1).last() == c);
        if c == ',' {
            let piece = trim_text(s.substring_char(start, i));
            let owned = piece.to_owned();
            let ghost before = done@;
            let ghost before_dv = done.deep_view();
            let ghost ov = owned@;
            done.push(owned);
            proof {
                assert(done@ == before.push(owned));
                assert(done.deep_view() =~= before_dv.push(ov));
                pieces = pieces.push(s@.subrange(start as int, i as int));
                assert(done.deep_view() =~= pieces.map_values(|p: Seq<char>| trim(p)));
                assert(s@.subrange(i + 1, i + 1) =~= Seq::<char>::empty());
            }
            start = i + 1;
        } else {
            assert(s@.subrange(start as int, i + 1) =~= s@.subrange(start as int, i as int).push(c));
        }
        i = i + 1;
    }
    assert(s@.take(n as int) =~= s@);
    let piece = trim_text(s.substring_char(start, n));
    let owned = piece.to_owned();
    let ghost before = done@;
    let ghost before_dv = done.deep_view();
    let ghost ov = owned@;
    done.push(owned);
    proof {
        assert(done@ == before.push(owned));
        assert(done.deep_view() =~= before_dv.push(ov));
        pieces = pieces.push(s@.subrange(start as int, n as int));
        assert(done.deep_view() =~= pieces.map_values(|p: Seq<char>| trim(p)));
    }
    done
}

} // verus!

verus! {

/// The pieces written one after the other with `sep` between each two.
pub open spec fn join(pieces: Seq<Seq<char>>, sep: char) -> Seq<char>
    decreases pieces.len(),
{
    if pieces.len() == 0 {
        Seq::empty()
    } else if pieces.len() == 1 {
        pieces[0]
    } else {
        join(pieces.drop_last(), sep).push(sep) + pieces.last()
    }
}

/// Splitting gives at least one piece, no piece holds the separator, and
/// joining the pieces with the separator gives the text back.
pub proof fn lemma_split_join(s: Seq<char>, sep: char)
    ensures
        split(s, sep).len() >= 1,
        join(split(s, sep), sep) == s,
        forall|i: int| 0 <= i < split(s, sep).len() ==> !(#[trigger] split(s, sep)[i]).contains(sep),
    decreases s.len(),
{
    if s.len() == 0 {
        assert(join(split(s, sep), sep) =~= s);
    } else {
        let p = s.drop_last();
        let c = s.last();
        lemma_split_join(p, sep);
        let r = split(p, sep);
        let n = r.len();
        if c == sep {
            let q = r.push(Seq::<char>::empty());
            assert(q.drop_last() =~= r);
            assert(join(q, sep) =~= p.push(sep));
            assert(p.push(sep) =~= s);
            assert forall|i: int| 0 <= i < q.len() implies !(#[trigger] q[i]).contains(sep) by {
                if i < n {
                    assert(q[i] == r[i]);
                }
            }
        } else {
            let q = r.update(n - 1, r.last().push(c));
            if n == 1 {
                assert(join(q, sep) =~= s);
            } else {
                assert(q.drop_last() =~= r.drop_last());
                assert(join(q, sep) =~= (join(r.drop_last(), sep).push(sep) + r.last()).push(c));
                assert(p.push(c) =~= s);
            }
            assert forall|i: int| 0 <= i < q.len() implies !(#[trigger] q[i]).contains(sep) by {
                if i < n - 1 {
                    assert(q[i] == r[i]);
                } else {
                    let x = r.last();
                    assert(!x.contains(sep));
                    if q[i].contains(sep) {
                        let w = choose|w: int| 0 <= w < q[i].len() && q[i][w] == sep;
                        if w < x.len() {
                            assert(x[w] == sep);
                        }
                    }
                }
            }
        }
    }
}

proof fn lemma_trim_start_bound(s: Seq<char>) -> (a: int)
    ensures
        0 <= a <= s.len(),
        trim_start(s) == s.subrange(a, s.len() as int),
        forall|i: int| 0 <= i < a ==> is_space(s[i]),
        a < s.len() ==> !is_space(s[a]),
    decreases s.len(),
{
    if s.len() > 0 && is_space(s[0]) {
        let t = s.subrange(1, s.len() as int);
        let a1 = lemma_trim_start_bound(t);
        assert(t.subrange(a1, t.len() as int) =~= s.subrange(a1 + 1, s.len() as int));
        assert forall|i: int| 0 <= i < a1 + 1 implies is_space(s[i]) by {
            if i > 0 {
                assert(t[i - 1] == s[i]);
            }
        }
        if a1 + 1 < s.len() {
            assert(t[a1] == s[a1 + 1]);
        }
        a1 + 1
    } else {
        assert(s.subrange(0, s.len() as int) =~= s);
        0
    }
}

proof fn lemma_trim_end_bound(s: Seq<char>) -> (b: int)
    ensures
        0 <= b <= s.len(),
        trim_end(s) == s.subrange(0, b),
        forall|i: int| b <= i < s.len() ==> is_space(s[i]),
        b > 0 ==> !is_space(s[b - 1]),
    decreases s.len(),
{
    if s.len() > 0 && is_space(s.last()) {
        let t = s.drop_last();
        let b1 = lemma_trim_end_bound(t);
        assert(t.subrange(0, b1) =~= s.subrange(0, b1));
        assert forall|i: int| b1 <= i < s.len() implies is_space(s[i]) by {
            if i < t.len() {
                assert(t[i] == s[i]);
            }
        }
        if b1 > 0 {
            assert(t[b1 - 1] == s[b1 - 1]);
        }
        b1
    } else {
        assert(s.subrange(0, s.len() as int) =~= s);
        s.len() as int
    }
}

/// Trimming keeps exactly a contiguous middle part of the text: everything
/// cut from either end is white space, and the part kept neither starts nor
/// ends with white space.
pub proof fn lemma_trim_bounds(s: Seq<char>) -> (ab: (int, int))
    ensures
        0 <= ab.0 <= ab.1 <= s.len(),
        trim(s) == s.subrange(ab.0, ab.1),
        forall|i: int| 0 <= i < ab.0 ==> is_space(s[i]),
        forall|i: int| ab.1 <= i < s.len() ==> is_space(s[i]),
        ab.0 < ab.1 ==> !is_space(s[ab.0]) && !is_space(s[ab.1 - 1]),
{
    let a = lemma_trim_start_bound(s);
    let t = s.subrange(a, s.len() as int);
    let b = lemma_trim_end_bound(t);
    assert(t.subrange(0, b) =~= s.subrange(a, a + b));
    assert forall|i: int| a + b <= i < s.len() implies is_space(s[i]) by {
        assert(t[i - a] == s[i]);
    }
    if b > 0 {
        assert(t[0] == s[a]);
        assert(t[b - 1] == s[a + b - 1]);
    }
    (a, a + b)
}

} // verus!
