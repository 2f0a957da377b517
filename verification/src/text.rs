//! Character-level string helpers with exact specifications: equality,
//! prefixes, substring search, Unicode whitespace, trimming and splitting on
//! whitespace.

use vstd::prelude::*;

verus! {

/// The Unicode `White_Space` property, the set that `char::is_whitespace`
/// answers for: U+0009..U+000D, U+0020, U+0085, U+00A0, U+1680,
/// U+2000..U+200A, U+2028, U+2029, U+202F, U+205F and U+3000.
pub open spec fn is_unicode_whitespace(c: char) -> bool {
    let n: u32 = c as u32;
    ||| 0x9 <= n <= 0xD
    ||| n == 0x20
    ||| n == 0x85
    ||| n == 0xA0
    ||| n == 0x1680
    ||| 0x2000 <= n <= 0x200A
    ||| n == 0x2028
    ||| n == 0x2029
    ||| n == 0x202F
    ||| n == 0x205F
    ||| n == 0x3000
}

/// Every character of `s` is whitespace (so `s` trims to nothing).
pub open spec fn is_blank_seq(s: Seq<char>) -> bool {
    forall|i: int| 0 <= i < s.len() ==> is_unicode_whitespace(#[trigger] s[i])
}

/// `needle` occurs in `hay` as a contiguous run (the empty needle occurs in
/// every string).
pub open spec fn contains_seq(hay: Seq<char>, needle: Seq<char>) -> bool {
    exists|i: int|
        0 <= i && i + needle.len() <= hay.len() && #[trigger] hay.subrange(i, i + needle.len())
            == needle
}

/// `s` begins with `prefix`.
pub open spec fn starts_with_seq(s: Seq<char>, prefix: Seq<char>) -> bool {
    prefix.len() <= s.len() && s.subrange(0, prefix.len() as int) == prefix
}

/// One step of the whitespace splitter: the tokens finished so far and the
/// token being read, after reading `c`.
pub open spec fn split_step(st: (Seq<Seq<char>>, Seq<char>), c: char) -> (
    Seq<Seq<char>>,
    Seq<char>,
) {
    if is_unicode_whitespace(c) {
        if st.1.len() > 0 {
            (st.0.push(st.1), Seq::empty())
        } else {
            (st.0, Seq::empty())
        }
    } else {
        (st.0, st.1.push(c))
    }
}

/// The splitter's state after reading all of `s` from the left.
pub open spec fn split_scan(s: Seq<char>) -> (Seq<Seq<char>>, Seq<char>)
    decreases s.len(),
{
    if s.len() == 0 {
        (Seq::empty(), Seq::empty())
    } else {
        split_step(split_scan(s.drop_last()), s.last())
    }
}

/// The maximal runs of non-whitespace characters of `s`, left to right:
/// what `str::split_whitespace` yields.
pub open spec fn split_whitespace_seq(s: Seq<char>) -> Seq<Seq<char>> {
    let st = split_scan(s);
    if st.1.len() > 0 {
        st.0.push(st.1)
    } else {
        st.0
    }
}

/// Lexicographic order of character sequences by code point: the order of
/// `str`'s `<` (UTF-8 byte order is code point order).
pub open spec fn seq_lt(a: Seq<char>, b: Seq<char>) -> bool
    decreases a.len(),
{
    if b.len() == 0 {
        false
    } else if a.len() == 0 {
        true
    } else if (a[0] as int) < (b[0] as int) {
        true
    } else if a[0] == b[0] {
        seq_lt(a.drop_first(), b.drop_first())
    } else {
        false
    }
}

/// `a` is a proper prefix of `b`.
pub open spec fn is_proper_prefix(a: Seq<char>, b: Seq<char>) -> bool {
    a.len() < b.len() && b.subrange(0, a.len() as int) == a
}

/// At some position both `a` and `b` have a character, they agree before
/// it, and `a`'s character there has the smaller code point.
pub open spec fn first_difference_smaller(a: Seq<char>, b: Seq<char>) -> bool {
    exists|i: int|
        0 <= i < a.len() && i < b.len() && a.subrange(0, i) == b.subrange(0, i) && (#[trigger] a[i]
            as int) < (b[i] as int)
}

/// The order is lexicographic by code point, whatever the lengths: `a`
/// comes before `b` exactly when `a` is a proper prefix of `b`, or when at
/// the first position where they differ `a` has the smaller code point.
pub proof fn lemma_seq_lt_lexicographic(a: Seq<char>, b: Seq<char>)
    ensures
        seq_lt(a, b) <==> (is_proper_prefix(a, b) || first_difference_smaller(a, b)),
    decreases a.len(),
{
    if b.len() == 0 {
    } else if a.len() == 0 {
        assert(b.subrange(0, 0) =~= a);
    } else {
        let a2 = a.drop_first();
        let b2 = b.drop_first();
        if (a[0] as int) < (b[0] as int) {
            assert(a.subrange(0, 0) =~= b.subrange(0, 0));
            assert(first_difference_smaller(a, b));
        } else if a[0] == b[0] {
            lemma_seq_lt_lexicographic(a2, b2);
            if is_proper_prefix(a2, b2) {
                assert forall|j: int| 0 <= j < a.len() implies b.subrange(0, a.len() as int)[j]
                    == a[j] by {
                    if j > 0 {
                        assert(b2.subrange(0, a2.len() as int)[j - 1] == a2[j - 1]);
                    }
                }
                assert(b.subrange(0, a.len() as int) =~= a);
            }
            if is_proper_prefix(a, b) {
                assert forall|j: int| 0 <= j < a2.len() implies b2.subrange(0, a2.len() as int)[j]
                    == a2[j] by {
                    assert(b.subrange(0, a.len() as int)[j + 1] == a[j + 1]);
                }
                assert(b2.subrange(0, a2.len() as int) =~= a2);
            }
            if first_difference_smaller(a2, b2) {
                let i = choose|i: int|
                    0 <= i < a2.len() && i < b2.len() && a2.subrange(0, i) == b2.subrange(0, i)
                        && (#[trigger] a2[i] as int) < (b2[i] as int);
                let ai = a.subrange(0, i + 1);
                let bi = b.subrange(0, i + 1);
                assert forall|j: int| 0 <= j < i + 1 implies #[trigger] ai[j] == bi[j] by {
                    if j > 0 {
                        assert(a2.subrange(0, i)[j - 1] == b2.subrange(0, i)[j - 1]);
                    }
                }
                assert(a.subrange(0, i + 1) =~= b.subrange(0, i + 1));
                assert((a[i + 1] as int) < (b[i + 1] as int));
                assert(first_difference_smaller(a, b));
            }
            if first_difference_smaller(a, b) {
                let i = choose|i: int|
                    0 <= i < a.len() && i < b.len() && a.subrange(0, i) == b.subrange(0, i) && (
                    #[trigger] a[i] as int) < (b[i] as int);
                assert(i != 0);
                let ai = a2.subrange(0, i - 1);
                let bi = b2.subrange(0, i - 1);
                assert forall|j: int| 0 <= j < i - 1 implies #[trigger] ai[j] == bi[j] by {
                    assert(a.subrange(0, i)[j + 1] == b.subrange(0, i)[j + 1]);
                }
                assert(a2.subrange(0, i - 1) =~= b2.subrange(0, i - 1));
                assert((a2[i - 1] as int) < (b2[i - 1] as int));
                assert(first_difference_smaller(a2, b2));
            }
        } else {
            if is_proper_prefix(a, b) {
                assert(b.subrange(0, a.len() as int)[0] == b[0]);
            }
            if first_difference_smaller(a, b) {
                let i = choose|i: int|
                    0 <= i < a.len() && i < b.len() && a.subrange(0, i) == b.subrange(0, i) && (
                    #[trigger] a[i] as int) < (b[i] as int);
                if i > 0 {
                    assert(a.subrange(0, i)[0] == b.subrange(0, i)[0]);
                }
            }
        }
    }
}

/// No sequence precedes itself.
pub proof fn lemma_seq_lt_irreflexive(a: Seq<char>)
    ensures
        !seq_lt(a, a),
    decreases a.len(),
{
    if a.len() > 0 {
        lemma_seq_lt_irreflexive(a.drop_first());
    }
}

/// The order is transitive.
pub proof fn lemma_seq_lt_transitive(a: Seq<char>, b: Seq<char>, c: Seq<char>)
    requires
        seq_lt(a, b),
        seq_lt(b, c),
    ensures
        seq_lt(a, c),
    decreases a.len(),
{
    if a.len() > 0 && a[0] == b[0] && b[0] == c[0] {
        lemma_seq_lt_transitive(a.drop_first(), b.drop_first(), c.drop_first());
    }
}

/// Of two different sequences, one precedes the other.
pub proof fn lemma_seq_lt_total(a: Seq<char>, b: Seq<char>)
    requires
        a != b,
    ensures
        seq_lt(a, b) || seq_lt(b, a),
    decreases a.len(),
{
    if a.len() == 0 {
        assert(b.len() > 0) by {
            if b.len() == 0 {
                assert(a =~= b);
            }
        }
    } else if b.len() == 0 {
    } else if a[0] == b[0] {
        assert(a.drop_first() != b.drop_first()) by {
            if a.drop_first() == b.drop_first() {
                assert(a =~= seq![a[0]] + a.drop_first());
                assert(b =~= seq![b[0]] + b.drop_first());
            }
        }
        lemma_seq_lt_total(a.drop_first(), b.drop_first());
    } else {
        assert((a[0] as int) != (b[0] as int));
    }
}

/// Every token that the splitter yields is non-empty and holds no
/// whitespace.
pub proof fn lemma_split_tokens_are_words(s: Seq<char>)
    ensures
        forall|i: int|
            0 <= i < split_whitespace_seq(s).len() ==> #[trigger] split_whitespace_seq(s)[i].len()
                > 0 && !contains_whitespace(split_whitespace_seq(s)[i]),
{
    lemma_split_scan_words(s);
}

/// Whether some character of `s` is whitespace.
pub open spec fn contains_whitespace(s: Seq<char>) -> bool {
    exists|j: int| 0 <= j < s.len() && is_unicode_whitespace(#[trigger] s[j])
}

/// The finished tokens and the token being read are words.
proof fn lemma_split_scan_words(s: Seq<char>)
    ensures
        forall|i: int|
            0 <= i < split_scan(s).0.len() ==> #[trigger] split_scan(s).0[i].len() > 0
                && !contains_whitespace(split_scan(s).0[i]),
        !contains_whitespace(split_scan(s).1),
    decreases s.len(),
{
    if s.len() > 0 {
        lemma_split_scan_words(s.drop_last());
        let st = split_scan(s.drop_last());
        let c = s.last();
        if !is_unicode_whitespace(c) {
            assert forall|j: int| 0 <= j < st.1.push(c).len() implies !is_unicode_whitespace(
                #[trigger] st.1.push(c)[j],
            ) by {
                if j < st.1.len() {
                    assert(st.1.push(c)[j] == st.1[j]);
                }
            }
        }
    }
}

/// The splitter's state after reading `s` from the state `st`.
pub open spec fn split_scan_from(st: (Seq<Seq<char>>, Seq<char>), s: Seq<char>) -> (
    Seq<Seq<char>>,
    Seq<char>,
)
    decreases s.len(),
{
    if s.len() == 0 {
        st
    } else {
        split_step(split_scan_from(st, s.drop_last()), s.last())
    }
}

/// Reading `a + b` is reading `a`, then `b`.
proof fn lemma_split_scan_append(a: Seq<char>, b: Seq<char>)
    ensures
        split_scan(a + b) == split_scan_from(split_scan(a), b),
    decreases b.len(),
{
    if b.len() == 0 {
        assert(a + b =~= a);
    } else {
        assert((a + b).drop_last() =~= a + b.drop_last());
        assert((a + b).last() == b.last());
        lemma_split_scan_append(a, b.drop_last());
    }
}

/// Reading `b` after finished tokens `done`, with no token being read,
/// only appends what reading `b` alone finishes.
proof fn lemma_split_scan_from_done(done: Seq<Seq<char>>, b: Seq<char>)
    ensures
        split_scan_from((done, Seq::empty()), b) == (done + split_scan(b).0, split_scan(b).1),
    decreases b.len(),
{
    if b.len() == 0 {
        assert(done + Seq::<Seq<char>>::empty() =~= done);
    } else {
        lemma_split_scan_from_done(done, b.drop_last());
        let st = split_scan(b.drop_last());
        if is_unicode_whitespace(b.last()) && st.1.len() > 0 {
            assert((done + st.0).push(st.1) =~= done + st.0.push(st.1));
        }
    }
}

/// A whitespace character separates: splitting `a`, whitespace, `b` gives
/// the tokens of `a` followed by those of `b`.
pub proof fn lemma_split_whitespace_separates(a: Seq<char>, c: char, b: Seq<char>)
    requires
        is_unicode_whitespace(c),
    ensures
        split_whitespace_seq(a + seq![c] + b) == split_whitespace_seq(a) + split_whitespace_seq(b),
{
    lemma_split_scan_append(a + seq![c], b);
    lemma_split_scan_append(a, seq![c]);
    assert(seq![c].drop_last() =~= Seq::<char>::empty());
    let sa = split_scan(a);
    let after_c = split_scan(a + seq![c]);
    assert(split_scan_from(sa, seq![c].drop_last()) == sa);
    assert(split_scan_from(sa, seq![c]) == split_step(sa, c));
    assert(after_c == (split_whitespace_seq(a), Seq::<char>::empty()));
    lemma_split_scan_from_done(split_whitespace_seq(a), b);
    let sb = split_scan(b);
    if sb.1.len() > 0 {
        assert((split_whitespace_seq(a) + sb.0).push(sb.1) =~= split_whitespace_seq(a) + sb.0.push(
            sb.1,
        ));
    }
}

/// A word is one token: a non-empty run without whitespace splits into
/// itself.
pub proof fn lemma_split_word(w: Seq<char>)
    requires
        w.len() > 0,
        !contains_whitespace(w),
    ensures
        split_whitespace_seq(w) == seq![w],
{
    lemma_split_scan_word(w);
}

/// Reading a run without whitespace finishes nothing and reads it all into
/// the current token.
proof fn lemma_split_scan_word(w: Seq<char>)
    requires
        !contains_whitespace(w),
    ensures
        split_scan(w) == (Seq::<Seq<char>>::empty(), w),
    decreases w.len(),
{
    if w.len() > 0 {
        let p = w.drop_last();
        assert(!contains_whitespace(p)) by {
            if contains_whitespace(p) {
                let j = choose|j: int| 0 <= j < p.len() && is_unicode_whitespace(#[trigger] p[j]);
                assert(w[j] == p[j]);
            }
        }
        lemma_split_scan_word(p);
        assert(!is_unicode_whitespace(w[w.len() - 1]));
        assert(p.push(w.last()) =~= w);
    }
}

/// Whitespace alone holds no token.
pub proof fn lemma_split_blank(g: Seq<char>)
    requires
        is_blank_seq(g),
    ensures
        split_whitespace_seq(g) == Seq::<Seq<char>>::empty(),
    decreases g.len(),
{
    lemma_split_scan_blank(g);
}

/// Reading only whitespace finishes nothing and leaves no token being read.
proof fn lemma_split_scan_blank(g: Seq<char>)
    requires
        is_blank_seq(g),
    ensures
        split_scan(g) == (Seq::<Seq<char>>::empty(), Seq::<char>::empty()),
    decreases g.len(),
{
    if g.len() > 0 {
        let p = g.drop_last();
        assert(is_blank_seq(p)) by {
            assert forall|j: int| 0 <= j < p.len() implies is_unicode_whitespace(#[trigger] p[j]) by {
                assert(g[j] == p[j]);
            }
        }
        lemma_split_scan_blank(p);
        assert(is_unicode_whitespace(g[g.len() - 1]));
    }
}

/// Leading or trailing whitespace adds no token.
pub proof fn lemma_split_blank_ends(g: Seq<char>, x: Seq<char>)
    requires
        is_blank_seq(g),
    ensures
        split_whitespace_seq(g + x) == split_whitespace_seq(x),
        split_whitespace_seq(x + g) == split_whitespace_seq(x),
{
    lemma_split_blank(g);
    if g.len() > 0 {
        let g1 = g.drop_last();
        assert(is_blank_seq(g1)) by {
            assert forall|j: int| 0 <= j < g1.len() implies is_unicode_whitespace(#[trigger] g1[j]) by {
                assert(g[j] == g1[j]);
            }
        }
        lemma_split_blank(g1);
        assert(g + x =~= g1 + seq![g.last()] + x);
        assert(is_unicode_whitespace(g[g.len() - 1]));
        lemma_split_whitespace_separates(g1, g.last(), x);
        assert(Seq::<Seq<char>>::empty() + split_whitespace_seq(x) =~= split_whitespace_seq(x));
        let g2 = g.drop_first();
        assert(is_blank_seq(g2)) by {
            assert forall|j: int| 0 <= j < g2.len() implies is_unicode_whitespace(#[trigger] g2[j]) by {
                assert(g[j + 1] == g2[j]);
            }
        }
        lemma_split_blank(g2);
        assert(x + g =~= x + seq![g[0]] + g2);
        assert(is_unicode_whitespace(g[0]));
        lemma_split_whitespace_separates(x, g[0], g2);
        assert(split_whitespace_seq(x) + Seq::<Seq<char>>::empty() =~= split_whitespace_seq(x));
    } else {
        assert(g + x =~= x);
        assert(x + g =~= x);
    }
}

/// The views of a vector of strings.
pub open spec fn string_views(v: Seq<String>) -> Seq<Seq<char>> {
    v.map_values(|s: String| s@)
}

/// The characters of `s`, in order.
pub fn chars_of(s: &str) -> (v: Vec<char>)
    ensures
        v@ == s@,
{
    let mut v: Vec<char> = Vec::new();
    for c in it: s.chars()
        invariant
            v@ == it.seq().take(it.index() as int),
    {
        v.push(c);
    }
    v
}

/// Whether `c` is Unicode whitespace.
pub fn is_whitespace(c: char) -> (b: bool)
    ensures
        b == is_unicode_whitespace(c),
{
    let n: u32 = c as u32;
    (0x9 <= n && n <= 0xD) || n == 0x20 || n == 0x85 || n == 0xA0 || n == 0x1680 || (0x2000 <= n
        && n <= 0x200A) || n == 0x2028 || n == 0x2029 || n == 0x202F || n == 0x205F || n == 0x3000
}

/// Whether `s` is empty once leading and trailing whitespace are trimmed.
pub fn is_blank(s: &str) -> (b: bool)
    ensures
        b == is_blank_seq(s@),
{
    let v = chars_of(s);
    let mut i: usize = 0;
    while i < v.len()
        invariant
            v@ == s@,
            i <= v.len(),
            is_blank_seq(s@.take(i as int)),
        decreases v.len() - i,
    {
        if !is_whitespace(v[i]) {
            assert(!is_unicode_whitespace(s@[i as int]));
            return false;
        }
        i = i + 1;
        assert(is_blank_seq(s@.take(i as int))) by {
            assert forall|j: int| 0 <= j < i implies is_unicode_whitespace(
                #[trigger] s@.take(i as int)[j],
            ) by {
                if j < i - 1 {
                    assert(s@.take(i as int)[j] == s@.take(i - 1)[j]);
                }
            }
        }
    }
    assert(s@.take(i as int) == s@);
    true
}

/// Whether the two character sequences are equal.
fn chars_eq(a: &Vec<char>, b: &Vec<char>) -> (r: bool)
    ensures
        r == (a@ == b@),
{
    if a.len() != b.len() {
        return false;
    }
    let mut i: usize = 0;
    while i < a.len()
        invariant
            a.len() == b.len(),
            i <= a.len(),
            forall|j: int| 0 <= j < i ==> a@[j] == b@[j],
        decreases a.len() - i,
    {
        if a[i] != b[i] {
            return false;
        }
        i = i + 1;
    }
    assert(a@ =~= b@);
    true
}

/// Whether two strings hold the same characters.
pub fn str_eq(a: &str, b: &str) -> (r: bool)
    ensures
        r == (a@ == b@),
{
    let va = chars_of(a);
    let vb = chars_of(b);
    chars_eq(&va, &vb)
}

/// Whether `needle` occurs at position `at` of `hay`.
fn occurs_at(hay: &Vec<char>, needle: &Vec<char>, at: usize) -> (r: bool)
    requires
        at + needle.len() <= hay.len(),
    ensures
        r == (hay@.subrange(at as int, at + needle.len()) == needle@),
{
    let mut j: usize = 0;
    while j < needle.len()
        invariant
            at + needle.len() <= hay.len(),
            j <= needle.len(),
            forall|k: int| 0 <= k < j ==> hay@[at + k] == needle@[k],
        decreases needle.len() - j,
    {
        if hay[at + j] != needle[j] {
            assert(hay@.subrange(at as int, at + needle.len())[j as int] != needle@[j as int]);
            return false;
        }
        j = j + 1;
    }
    assert(hay@.subrange(at as int, at + needle.len()) =~= needle@);
    true
}

/// Whether `needle` occurs in `hay`.
pub fn contains_str(hay: &str, needle: &str) -> (r: bool)
    ensures
        r == contains_seq(hay@, needle@),
{
    let h = chars_of(hay);
    let n = chars_of(needle);
    if n.len() > h.len() {
        return false;
    }
    let last: usize = h.len() - n.len();
    let mut i: usize = 0;
    while i < last
        invariant
            h@ == hay@,
            n@ == needle@,
            last + n.len() == h.len(),
            i <= last,
            forall|k: int|
                0 <= k < i ==> #[trigger] hay@.subrange(k, k + needle@.len()) != needle@,
        decreases last - i,
    {
        if occurs_at(&h, &n, i) {
            return true;
        }
        i = i + 1;
    }
    if occurs_at(&h, &n, last) {
        return true;
    }
    assert forall|k: int|
        0 <= k && k + needle@.len() <= hay@.len() implies #[trigger] hay@.subrange(
        k,
        k + needle@.len(),
    ) != needle@ by {}
    false
}

/// Whether `s` begins with `prefix`.
pub fn starts_with(s: &str, prefix: &str) -> (r: bool)
    ensures
        r == starts_with_seq(s@, prefix@),
{
    let vs = chars_of(s);
    let vp = chars_of(prefix);
    if vp.len() > vs.len() {
        return false;
    }
    occurs_at(&vs, &vp, 0)
}

/// The tokens of `s`: its maximal runs of non-whitespace characters.
pub fn split_whitespace(s: &str) -> (tokens: Vec<String>)
    ensures
        string_views(tokens@) == split_whitespace_seq(s@),
{
    let v = chars_of(s);
    let mut tokens: Vec<String> = Vec::new();
    let mut start: usize = 0;
    let mut i: usize = 0;
    while i < v.len()
        invariant
            v@ == s@,
            start <= i <= v.len(),
            split_scan(s@.take(i as int)) == (string_views(tokens@), s@.subrange(
                start as int,
                i as int,
            )),
        decreases v.len() - i,
    {
        let c = v[i];
        assert(s@.take(i + 1).drop_last() == s@.take(i as int));
        assert(s@.take(i + 1).last() == c);
        if is_whitespace(c) {
            if start < i {
                let tok = s.substring_char(start, i).to_owned();
                tokens.push(tok);
                assert(string_views(tokens@) == string_views(tokens@.drop_last()).push(tok@));
            }
            i = i + 1;
            start = i;
            assert(s@.subrange(start as int, i as int) =~= Seq::<char>::empty());
        } else {
            assert(s@.subrange(start as int, i + 1) =~= s@.subrange(start as int, i as int).push(
                c,
            ));
            i = i + 1;
        }
    }
    assert(s@.take(i as int) == s@);
    if start < i {
        let tok = s.substring_char(start, i).to_owned();
        tokens.push(tok);
        assert(string_views(tokens@) == string_views(tokens@.drop_last()).push(tok@));
    }
    tokens
}

/// Whether `c` occurs in `s`.
pub fn has_char(s: &str, c: char) -> (r: bool)
    ensures
        r == s@.contains(c),
{
    let v = chars_of(s);
    let mut i: usize = 0;
    while i < v.len()
        invariant
            v@ == s@,
            i <= v.len(),
            forall|j: int| 0 <= j < i ==> s@[j] != c,
        decreases v.len() - i,
    {
        if v[i] == c {
            return true;
        }
        i = i + 1;
    }
    false
}

/// Whether `a` comes strictly before `b` in lexicographic order.
pub fn str_lt(a: &str, b: &str) -> (r: bool)
    ensures
        r == seq_lt(a@, b@),
{
    let va = chars_of(a);
    let vb = chars_of(b);
    let mut i: usize = 0;
    assert(a@.skip(0) == a@);
    assert(b@.skip(0) == b@);
    loop
        invariant
            va@ == a@,
            vb@ == b@,
            i <= va.len(),
            i <= vb.len(),
            seq_lt(a@, b@) == seq_lt(a@.skip(i as int), b@.skip(i as int)),
        decreases va.len() - i,
    {
        if i == vb.len() {
            return false;
        }
        if i == va.len() {
            return true;
        }
        let ca = va[i];
        let cb = vb[i];
        assert(a@.skip(i as int)[0] == ca);
        assert(b@.skip(i as int)[0] == cb);
        if ca < cb {
            return true;
        }
        if ca != cb {
            return false;
        }
        assert(a@.skip(i as int).drop_first() == a@.skip(i + 1));
        assert(b@.skip(i as int).drop_first() == b@.skip(i + 1));
        i = i + 1;
    }
}

/// `s` with its first `n` characters removed.
pub fn skip_chars(s: &str, n: usize) -> (r: String)
    requires
        n <= s@.len(),
    ensures
        r@ == s@.skip(n as int),
{
    let len: usize = s.unicode_len();
    s.substring_char(n, len).to_owned()
}

} // verus!
