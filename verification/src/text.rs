//! Character-level helpers on which the text handling of the client rests.

use vstd::prelude::*;
use vstd::utf8::{encode_scalar, encode_utf8};
use vstd::std_specs::iter::IteratorSpec;

verus! {

/// The characters of a string slice, in order.
pub(crate) fn chars_of(s: &str) -> (v: Vec<char>)
    ensures
        v@ == s@,
{
    broadcast use {vstd::string::axiom_spec_iter, vstd::string::next_postcondition};
    let mut v: Vec<char> = Vec::new();
    let mut it = s.chars();
    loop
        invariant
            v@ + it.remaining() == s@,
            it.decrease() is Some,
        ensures
            v@ == s@,
        decreases it.decrease()->0,
    {
        let ghost before = it.remaining();
        match it.next() {
            Some(c) => {
                assert(v@.push(c) + it.remaining() =~= v@ + before);
                v.push(c);
            },
            None => {
                assert(v@ =~= s@);
                break;
            },
        }
    }
    v
}

/// A string made of the given characters, in order.
#[verifier::external_body]
pub(crate) fn string_of(v: &[char]) -> (s: String)
    ensures
        s@ == v@,
{
    String::from_iter(v.iter())
}

/// The characters with the Unicode `White_Space` property.
pub open spec fn spec_is_whitespace(c: char) -> bool {
    let u = c as u32;
    ||| 0x09 <= u <= 0x0D
    ||| u == 0x20
    ||| u == 0x85
    ||| u == 0xA0
    ||| u == 0x1680
    ||| 0x2000 <= u <= 0x200A
    ||| u == 0x2028
    ||| u == 0x2029
    ||| u == 0x202F
    ||| u == 0x205F
    ||| u == 0x3000
}

/// Whether a character has the Unicode `White_Space` property (what
/// `char::is_whitespace` answers).
pub(crate) fn is_whitespace(c: char) -> (b: bool)
    ensures
        b == spec_is_whitespace(c),
{
    let u = c as u32;
    (0x09 <= u && u <= 0x0D) || u == 0x20 || u == 0x85 || u == 0xA0 || u == 0x1680
        || (0x2000 <= u && u <= 0x200A) || u == 0x2028 || u == 0x2029 || u == 0x202F
        || u == 0x205F || u == 0x3000
}

} // verus!

verus! {

/// What `char::is_alphanumeric` answers for a character (the Unicode
/// `Alphabetic` or `Numeric` property).
pub uninterp spec fn char_alphanumeric(c: char) -> bool;

/// What `char::is_alphabetic` answers for a character (the Unicode
/// `Alphabetic` property).
pub uninterp spec fn char_alphabetic(c: char) -> bool;

/// What `str::to_lowercase` returns for a string.
pub uninterp spec fn lowercase(s: Seq<char>) -> Seq<char>;

/// `char::is_alphanumeric`; its answer is named, not spelled out: the
/// Unicode tables behind it take pages.
#[verifier::external_body]
pub(crate) fn is_alphanumeric(c: char) -> (b: bool)
    ensures
        b == char_alphanumeric(c),
{
    c.is_alphanumeric()
}

/// `char::is_alphabetic`; its answer is named, not spelled out.
#[verifier::external_body]
pub(crate) fn is_alphabetic(c: char) -> (b: bool)
    ensures
        b == char_alphabetic(c),
{
    c.is_alphabetic()
}

/// `str::to_lowercase`: the full Unicode lower-case mapping of the string,
/// named rather than spelled out.
#[verifier::external_body]
pub(crate) fn to_lowercase(s: &str) -> (r: String)
    ensures
        r@ == lowercase(s@),
{
    s.to_lowercase()
}

/// The string with leading `White_Space` characters removed.
pub open spec fn trim_start(s: Seq<char>) -> Seq<char>
    decreases s.len(),
{
    if s.len() > 0 && spec_is_whitespace(s[0]) {
        trim_start(s.drop_first())
    } else {
        s
    }
}

/// The string with trailing `White_Space` characters removed.
pub open spec fn trim_end(s: Seq<char>) -> Seq<char>
    decreases s.len(),
{
    if s.len() > 0 && spec_is_whitespace(s.last()) {
        trim_end(s.drop_last())
    } else {
        s
    }
}

/// What `str::trim` returns: leading and trailing white space removed.
pub open spec fn trim(s: Seq<char>) -> Seq<char> {
    trim_end(trim_start(s))
}

/// `p` is a prefix of `s`.
pub open spec fn has_prefix(s: Seq<char>, p: Seq<char>) -> bool {
    p.len() <= s.len() && s.subrange(0, p.len() as int) == p
}

/// The last position at which `c` occurs in `s`, if any.
pub open spec fn last_index_of(s: Seq<char>, c: char) -> Option<int>
    decreases s.len(),
{
    if s.len() == 0 {
        None
    } else if s.last() == c {
        Some(s.len() - 1)
    } else {
        last_index_of(s.drop_last(), c)
    }
}

/// `a` sorts strictly before `b` when both are compared character by
/// character by code point, a proper prefix first; this is the order of
/// `String`, whose UTF-8 bytes compare in the same order as the code points.
pub open spec fn lex_lt(a: Seq<char>, b: Seq<char>) -> bool
    decreases a.len(),
{
    if a.len() == 0 {
        b.len() > 0
    } else if b.len() == 0 {
        false
    } else if a[0] != b[0] {
        (a[0] as u32) < (b[0] as u32)
    } else {
        lex_lt(a.drop_first(), b.drop_first())
    }
}

/// `a` sorts before `b` or equals it.
pub open spec fn lex_le(a: Seq<char>, b: Seq<char>) -> bool {
    lex_lt(a, b) || a == b
}

/// Inserts `x` into `s` before the first element that `x` sorts before.
pub open spec fn insert_sorted(x: Seq<char>, s: Seq<Seq<char>>) -> Seq<Seq<char>>
    decreases s.len(),
{
    if s.len() == 0 {
        seq![x]
    } else if lex_le(x, s[0]) {
        seq![x] + s
    } else {
        seq![s[0]] + insert_sorted(x, s.drop_first())
    }
}

/// The elements of `s` in ascending order.
pub open spec fn sort_strings(s: Seq<Seq<char>>) -> Seq<Seq<char>>
    decreases s.len(),
{
    if s.len() == 0 {
        s
    } else {
        insert_sorted(s.last(), sort_strings(s.drop_last()))
    }
}

/// `s` with every run of equal neighbours reduced to one element.
pub open spec fn dedup_strings(s: Seq<Seq<char>>) -> Seq<Seq<char>>
    decreases s.len(),
{
    if s.len() <= 1 {
        s
    } else if s[s.len() - 2] == s.last() {
        dedup_strings(s.drop_last())
    } else {
        dedup_strings(s.drop_last()).push(s.last())
    }
}

/// The views of a vector of strings.
pub open spec fn views(v: Seq<String>) -> Seq<Seq<char>> {
    v.map_values(|s: String| s@)
}

/// The sub-vector `v[a..b]`.
pub fn slice_chars(v: &Vec<char>, a: usize, b: usize) -> (r: Vec<char>)
    requires
        a <= b <= v.len(),
    ensures
        r@ == v@.subrange(a as int, b as int),
{
    let mut r: Vec<char> = Vec::new();
    let mut i = a;
    while i < b
        invariant
            a <= i <= b <= v.len(),
            r@ == v@.subrange(a as int, i as int),
        decreases b - i,
    {
        r.push(v[i]);
        i = i + 1;
        assert(r@ =~= v@.subrange(a as int, i as int));
    }
    r
}

/// Appends the characters of `src` to `dst`.
pub fn push_all(dst: &mut Vec<char>, src: &[char])
    ensures
        final(dst)@ == old(dst)@ + src@,
{
    let mut i: usize = 0;
    while i < src.len()
        invariant
            i <= src.len(),
            dst@ == old(dst)@ + src@.subrange(0, i as int),
        decreases src.len() - i,
    {
        dst.push(src[i]);
        i = i + 1;
        assert(dst@ =~= old(dst)@ + src@.subrange(0, i as int));
    }
    assert(src@.subrange(0, src@.len() as int) =~= src@);
}

proof fn lemma_trim_start_step(s: Seq<char>, i: int)
    requires
        0 <= i < s.len(),
        spec_is_whitespace(s[i]),
    ensures
        trim_start(s.subrange(i, s.len() as int)) == trim_start(s.subrange(i + 1, s.len() as int)),
{
    assert(s.subrange(i, s.len() as int).drop_first() =~= s.subrange(i + 1, s.len() as int));
}

proof fn lemma_trim_end_step(s: Seq<char>, j: int)
    requires
        0 < j <= s.len(),
        spec_is_whitespace(s[j - 1]),
    ensures
        trim_end(s.subrange(0, j)) == trim_end(s.subrange(0, j - 1)),
{
    assert(s.subrange(0, j).drop_last() =~= s.subrange(0, j - 1));
}

/// `str::trim` over characters: the characters between the first and the
/// last that are not white space.
pub fn trim_chars(v: &Vec<char>) -> (r: Vec<char>)
    ensures
        r@ == trim(v@),
{
    let n = v.len();
    let mut i: usize = 0;
    assert(v@.subrange(0, n as int) =~= v@);
    while i < n && is_whitespace(v[i])
        invariant
            i <= n == v.len(),
            trim_start(v@) == trim_start(v@.subrange(i as int, n as int)),
        decreases n - i,
    {
        proof {
            lemma_trim_start_step(v@, i as int);
        }
        i = i + 1;
    }
    assert(v@.subrange(0, n as int) =~= v@);
    let ghost t = v@.subrange(i as int, n as int);
    assert(trim_start(t) == t);
    let mut j: usize = n;
    assert(t.subrange(0, (n - i) as int) =~= t);
    while j > i && is_whitespace(v[j - 1])
        invariant
            i <= j <= n == v.len(),
            t == v@.subrange(i as int, n as int),
            trim_end(t) == trim_end(t.subrange(0, j - i)),
        decreases j - i,
    {
        proof {
            assert(t[j - i - 1] == v@[j - 1]);
            lemma_trim_end_step(t, (j - i) as int);
        }
        j = j - 1;
    }
    assert(t.subrange(0, (n - i) as int) =~= t);
    let r = slice_chars(v, i, j);
    assert(r@ =~= t.subrange(0, j - i));
    r
}

/// Appends a character to the string.
pub fn push_char(s: &mut String, c: char)
    ensures
        final(s)@ == old(s)@.push(c),
{
    let mut v = chars_of(s.as_str());
    v.push(c);
    *s = string_of(v.as_slice());
}

/// Removes the last character of the string, if any.
pub fn pop_char(s: &mut String)
    ensures
        old(s)@.len() > 0 ==> final(s)@ == old(s)@.drop_last(),
        old(s)@.len() == 0 ==> final(s)@ == old(s)@,
{
    let v = chars_of(s.as_str());
    if v.len() > 0 {
        let w = slice_chars(&v, 0, v.len() - 1);
        assert(w@ =~= old(s)@.drop_last());
        *s = string_of(w.as_slice());
    }
}

/// The text of `a` followed by that of `b`.
pub fn concat_str(a: &str, b: &str) -> (r: String)
    ensures
        r@ == a@ + b@,
{
    let mut v = chars_of(a);
    let w = chars_of(b);
    push_all(&mut v, w.as_slice());
    string_of(v.as_slice())
}

/// Whether `p` is a prefix of `s`.
pub fn starts_with(s: &[char], p: &[char]) -> (b: bool)
    ensures
        b == has_prefix(s@, p@),
{
    if p.len() > s.len() {
        return false;
    }
    let mut i: usize = 0;
    while i < p.len()
        invariant
            i <= p.len() <= s.len(),
            s@.subrange(0, i as int) == p@.subrange(0, i as int),
        decreases p.len() - i,
    {
        if s[i] != p[i] {
            assert(s@.subrange(0, p.len() as int)[i as int] != p@[i as int]);
            return false;
        }
        i = i + 1;
        assert(s@.subrange(0, i as int) =~= p@.subrange(0, i as int));
    }
    assert(p@.subrange(0, p.len() as int) =~= p@);
    true
}

/// The last position of `c` in `s`, if any.
pub fn rfind_char(s: &[char], c: char) -> (r: Option<usize>)
    ensures
        r matches Some(i) ==> last_index_of(s@, c) == Some(i as int),
        r is None ==> last_index_of(s@, c) is None,
{
    let mut j: usize = s.len();
    assert(s@.subrange(0, s@.len() as int) =~= s@);
    while j > 0
        invariant
            j <= s.len(),
            last_index_of(s@, c) == last_index_of(s@.subrange(0, j as int), c),
        decreases j,
    {
        if s[j - 1] == c {
            assert(s@.subrange(0, j as int).last() == c);
            return Some(j - 1);
        }
        assert(s@.subrange(0, j as int).drop_last() =~= s@.subrange(0, j - 1));
        j = j - 1;
    }
    assert(s@.subrange(0, s@.len() as int) =~= s@);
    None
}

/// Whether `a` sorts strictly before `b`.
pub fn chars_lt(a: &[char], b: &[char]) -> (r: bool)
    ensures
        r == lex_lt(a@, b@),
{
    let mut i: usize = 0;
    assert(a@.subrange(0, a@.len() as int) =~= a@);
    assert(b@.subrange(0, b@.len() as int) =~= b@);
    while i < a.len() && i < b.len() && a[i] == b[i]
        invariant
            i <= a.len(),
            i <= b.len(),
            lex_lt(a@, b@) == lex_lt(a@.subrange(i as int, a@.len() as int), b@.subrange(i as int, b@.len() as int)),
        decreases a.len() - i,
    {
        assert(a@.subrange(i as int, a@.len() as int).drop_first() =~= a@.subrange(i + 1, a@.len() as int));
        assert(b@.subrange(i as int, b@.len() as int).drop_first() =~= b@.subrange(i + 1, b@.len() as int));
        i = i + 1;
    }
    proof {
        assert(a@.subrange(0, a@.len() as int) =~= a@);
        assert(b@.subrange(0, b@.len() as int) =~= b@);
    }
    if i == a.len() {
        i < b.len()
    } else if i == b.len() {
        false
    } else {
        (a[i] as u32) < (b[i] as u32)
    }
}

/// Whether two strings hold the same characters.
pub fn chars_eq(a: &[char], b: &[char]) -> (r: bool)
    ensures
        r == (a@ == b@),
{
    if a.len() != b.len() {
        return false;
    }
    let mut i: usize = 0;
    while i < a.len()
        invariant
            i <= a.len() == b.len(),
            a@.subrange(0, i as int) == b@.subrange(0, i as int),
        decreases a.len() - i,
    {
        if a[i] != b[i] {
            return false;
        }
        i = i + 1;
        assert(a@.subrange(0, i as int) =~= b@.subrange(0, i as int));
    }
    assert(a@ =~= a@.subrange(0, i as int));
    assert(b@ =~= b@.subrange(0, i as int));
    true
}

} // verus!

verus! {

proof fn lemma_insert_sorted_at(x: Seq<char>, s: Seq<Seq<char>>, k: int)
    requires
        0 <= k <= s.len(),
        forall|j: int| 0 <= j < k ==> !lex_le(x, #[trigger] s[j]),
        k == s.len() || lex_le(x, s[k]),
    ensures
        insert_sorted(x, s) == s.take(k) + seq![x] + s.skip(k),
    decreases s.len(),
{
    if s.len() == 0 {
        assert(s.take(k) + seq![x] + s.skip(k) =~= seq![x]);
    } else if k == 0 {
        assert(s.take(k) + seq![x] + s.skip(k) =~= seq![x] + s);
    } else {
        let t = s.drop_first();
        assert forall|j: int| 0 <= j < k - 1 implies !lex_le(x, #[trigger] t[j]) by {
            assert(t[j] == s[j + 1]);
        }
        if k - 1 < t.len() {
            assert(t[k - 1] == s[k]);
        }
        lemma_insert_sorted_at(x, t, k - 1);
        assert(s.take(k) + seq![x] + s.skip(k) =~= seq![s[0]] + (t.take(k - 1) + seq![x] + t.skip(k - 1)));
    }
}

/// The strings of `v` in ascending order (the order of `String`).
pub fn sort_string_vec(v: &Vec<String>) -> (r: Vec<String>)
    ensures
        views(r@) == sort_strings(views(v@)),
{
    let mut r: Vec<String> = Vec::new();
    let mut i: usize = 0;
    while i < v.len()
        invariant
            i <= v.len(),
            views(r@) == sort_strings(views(v@).take(i as int)),
        decreases v.len() - i,
    {
        let x = v[i].clone();
        let xc = chars_of(x.as_str());
        let mut k: usize = 0;
        let mut found = false;
        while k < r.len() && !found
            invariant
                k <= r.len(),
                forall|j: int| 0 <= j < k ==> !lex_le(xc@, #[trigger] views(r@)[j]),
                found ==> k < r.len() && lex_le(xc@, views(r@)[k as int]),
            decreases r.len() - k + (if found { 0int } else { 1int }),
        {
            let rc = chars_of(r[k].as_str());
            if chars_lt(&xc, &rc) || chars_eq(&xc, &rc) {
                found = true;
            } else {
                k = k + 1;
            }
        }
        proof {
            lemma_insert_sorted_at(xc@, views(r@), k as int);
            let s = views(v@).take(i as int + 1);
            assert(s.drop_last() =~= views(v@).take(i as int));
            assert(s.last() == x@);
        }
        let ghost old_r = views(r@);
        r.insert(k, x);
        assert(views(r@) =~= old_r.take(k as int) + seq![xc@] + old_r.skip(k as int));
        i = i + 1;
    }
    assert(views(v@).take(v.len() as int) =~= views(v@));
    r
}

/// `v` with every run of equal neighbours reduced to one element.
pub fn dedup_string_vec(v: &Vec<String>) -> (r: Vec<String>)
    ensures
        views(r@) == dedup_strings(views(v@)),
{
    let mut r: Vec<String> = Vec::new();
    let mut i: usize = 0;
    while i < v.len()
        invariant
            i <= v.len(),
            views(r@) == dedup_strings(views(v@).take(i as int)),
            i > 0 ==> r@.len() > 0 && r@.last()@ == v@[i - 1]@,
        decreases v.len() - i,
    {
        let ghost s = views(v@).take(i as int + 1);
        proof {
            assert(s.drop_last() =~= views(v@).take(i as int));
            reveal_with_fuel(dedup_strings, 2);
        }
        if i > 0 && chars_eq(&chars_of(v[i - 1].as_str()), &chars_of(v[i].as_str())) {
            assert(s[s.len() - 2] == s.last());
        } else {
            if i > 0 {
                assert(s[s.len() - 2] != s.last());
            } else {
                assert(s =~= seq![v@[0]@]);
                assert(dedup_strings(views(v@).take(0)) =~= Seq::<Seq<char>>::empty());
            }
            r.push(v[i].clone());
            assert(views(r@) =~= dedup_strings(s));
        }
        i = i + 1;
    }
    assert(views(v@).take(v.len() as int) =~= views(v@));
    r
}

} // verus!

verus! {

/// The end of the run of non-white-space characters that starts at `i`.
pub open spec fn word_end(s: Seq<char>, i: int) -> int
    decreases s.len() - i,
{
    if i < 0 || i >= s.len() || spec_is_whitespace(s[i]) {
        i
    } else {
        word_end(s, i + 1)
    }
}

/// The end of a word lies between its start and the end of the text.
pub proof fn lemma_word_end_bounds(s: Seq<char>, i: int)
    requires
        0 <= i <= s.len(),
    ensures
        i <= word_end(s, i) <= s.len(),
        i < s.len() && !spec_is_whitespace(s[i]) ==> word_end(s, i) > i,
        forall|k: int| i <= k < word_end(s, i) ==> !spec_is_whitespace(#[trigger] s[k]),
        word_end(s, i) < s.len() ==> spec_is_whitespace(s[word_end(s, i)]),
    decreases s.len() - i,
{
    if i < s.len() && !spec_is_whitespace(s[i]) {
        lemma_word_end_bounds(s, i + 1);
    }
}

/// The white-space separated words of `s` from position `i` on: what
/// `str::split_whitespace` yields.
pub open spec fn words_from(s: Seq<char>, i: int) -> Seq<Seq<char>>
    decreases s.len() - i,
{
    if i < 0 || i >= s.len() {
        seq![]
    } else if spec_is_whitespace(s[i]) {
        words_from(s, i + 1)
    } else {
        proof {
            lemma_word_end_bounds(s, i);
        }
        seq![s.subrange(i, word_end(s, i))] + words_from(s, word_end(s, i))
    }
}

/// The white-space separated words of `s`.
pub open spec fn words(s: Seq<char>) -> Seq<Seq<char>> {
    words_from(s, 0)
}

/// The views of a vector of character vectors.
pub open spec fn char_views(v: Seq<Vec<char>>) -> Seq<Seq<char>> {
    v.map_values(|w: Vec<char>| w@)
}

/// `str::split_whitespace` over characters.
pub fn split_whitespace_chars(v: &Vec<char>) -> (r: Vec<Vec<char>>)
    ensures
        char_views(r@) == words(v@),
{
    let mut r: Vec<Vec<char>> = Vec::new();
    let mut i: usize = 0;
    while i < v.len()
        invariant
            i <= v.len(),
            words(v@) == char_views(r@) + words_from(v@, i as int),
        decreases v.len() - i,
    {
        if is_whitespace(v[i]) {
            i = i + 1;
        } else {
            let start = i;
            proof {
                lemma_word_end_bounds(v@, i as int);
            }
            while i < v.len() && !is_whitespace(v[i])
                invariant
                    start <= i <= v.len(),
                    word_end(v@, start as int) == word_end(v@, i as int),
                decreases v.len() - i,
            {
                i = i + 1;
            }
            let w = slice_chars(v, start, i);
            let ghost old_r = char_views(r@);
            r.push(w);
            assert(char_views(r@) =~= old_r.push(w@));
            assert(old_r.push(w@) + words_from(v@, i as int) =~= old_r + (seq![w@] + words_from(v@, i as int)));
        }
    }
    assert(words_from(v@, i as int) =~= Seq::<Seq<char>>::empty());
    assert(char_views(r@) + Seq::<Seq<char>>::empty() =~= char_views(r@));
    r
}

/// The characters allowed in a user name mention: ASCII letters, digits
/// and `_`.
pub open spec fn is_mention_char(c: char) -> bool {
    ('a' <= c && c <= 'z') || ('A' <= c && c <= 'Z') || ('0' <= c && c <= '9') || c == '_'
}

/// The end of the run of mention characters that starts at `i`.
pub open spec fn mention_end(s: Seq<char>, i: int) -> int
    decreases s.len() - i,
{
    if i < 0 || i >= s.len() || !is_mention_char(s[i]) {
        i
    } else {
        mention_end(s, i + 1)
    }
}

/// The end of a mention lies between its start and the end of the text.
pub proof fn lemma_mention_end_bounds(s: Seq<char>, i: int)
    requires
        0 <= i <= s.len(),
    ensures
        i <= mention_end(s, i) <= s.len(),
        i < s.len() && is_mention_char(s[i]) ==> mention_end(s, i) > i,
        forall|k: int| i <= k < mention_end(s, i) ==> is_mention_char(#[trigger] s[k]),
        mention_end(s, i) < s.len() ==> !is_mention_char(s[mention_end(s, i)]),
    decreases s.len() - i,
{
    if i < s.len() && is_mention_char(s[i]) {
        lemma_mention_end_bounds(s, i + 1);
    }
}

/// The names mentioned in `s` from position `i` on: each `@` followed by
/// one or more mention characters, taken as long as they go, left to right
/// and without overlap; the matches of the pattern `@([a-zA-Z0-9_]+)`.
pub open spec fn mentions_from(s: Seq<char>, i: int) -> Seq<Seq<char>>
    decreases s.len() - i,
{
    if i < 0 || i >= s.len() {
        seq![]
    } else if s[i] == '@' && i + 1 < s.len() && is_mention_char(s[i + 1]) {
        proof {
            lemma_mention_end_bounds(s, i + 1);
        }
        seq![s.subrange(i + 1, mention_end(s, i + 1))] + mentions_from(s, mention_end(s, i + 1))
    } else {
        mentions_from(s, i + 1)
    }
}

/// The names mentioned in `s`.
pub open spec fn mentions(s: Seq<char>) -> Seq<Seq<char>> {
    mentions_from(s, 0)
}

} // verus!

verus! {

/// The number of bytes of the UTF-8 encoding of `c`.
pub open spec fn utf8_width(c: char) -> int {
    encode_scalar(c as u32).len() as int
}

/// The encoding of two texts is the encoding of the first followed by
/// that of the second.
pub(crate) proof fn lemma_encode_utf8_concat(a: Seq<char>, b: Seq<char>)
    ensures
        encode_utf8(a + b) == encode_utf8(a) + encode_utf8(b),
    decreases a.len(),
{
    if a.len() == 0 {
        assert(a + b =~= b);
        assert(encode_utf8(a) =~= Seq::<u8>::empty());
        assert(encode_utf8(a) + encode_utf8(b) =~= encode_utf8(b));
    } else {
        assert((a + b).drop_first() =~= a.drop_first() + b);
        lemma_encode_utf8_concat(a.drop_first(), b);
        assert(encode_utf8(a + b) =~= encode_scalar(a[0] as u32) + encode_utf8(a.drop_first() + b));
    }
}

/// One more character adds its width to the encoded length.
pub(crate) proof fn lemma_encode_utf8_take_step(s: Seq<char>, i: int)
    requires
        0 <= i < s.len(),
    ensures
        encode_utf8(s.take(i + 1)).len() == encode_utf8(s.take(i)).len() + utf8_width(s[i]),
{
    assert(s.take(i + 1) =~= s.take(i) + seq![s[i]]);
    lemma_encode_utf8_concat(s.take(i), seq![s[i]]);
    assert(seq![s[i]].drop_first() =~= Seq::<char>::empty());
    assert(encode_utf8(seq![s[i]]) =~= encode_scalar(s[i] as u32) + encode_utf8(Seq::<char>::empty()));
}

/// The width in bytes of the UTF-8 encoding of a character.
pub fn char_utf8_width(c: char) -> (w: usize)
    ensures
        w == utf8_width(c),
        1 <= w <= 4,
{
    let u = c as u32;
    if u <= 0x7F {
        1
    } else if u <= 0x7FF {
        2
    } else if u <= 0xFFFF {
        3
    } else {
        4
    }
}

/// Whether the UTF-8 encoding of `v` is longer than `limit` bytes.
pub fn utf8_len_exceeds(v: &[char], limit: usize) -> (r: bool)
    ensures
        r == (encode_utf8(v@).len() > limit),
{
    let mut total: usize = 0;
    let mut i: usize = 0;
    assert(v@.take(0) =~= Seq::<char>::empty());
    while i < v.len()
        invariant
            i <= v.len(),
            total == encode_utf8(v@.take(i as int)).len(),
            total <= limit,
        decreases v.len() - i,
    {
        proof {
            lemma_encode_utf8_take_step(v@, i as int);
        }
        let w = char_utf8_width(v[i]);
        if w > limit - total {
            proof {
                lemma_encode_utf8_concat(v@.take(i as int + 1), v@.skip(i as int + 1));
                assert(v@.take(i as int + 1) + v@.skip(i as int + 1) =~= v@);
            }
            return true;
        }
        total = total + w;
        i = i + 1;
    }
    assert(v@.take(v.len() as int) =~= v@);
    false
}

} // verus!

verus! {

/// The first position at which `c` occurs in `s`, if any.
pub open spec fn first_index_of(s: Seq<char>, c: char) -> Option<int>
    decreases s.len(),
{
    if s.len() == 0 {
        None
    } else if s[0] == c {
        Some(0)
    } else {
        match first_index_of(s.drop_first(), c) {
            Some(i) => Some(i + 1),
            None => None,
        }
    }
}

/// `p` occurs in `s` as a contiguous part.
pub open spec fn contains_seq(s: Seq<char>, p: Seq<char>) -> bool {
    exists|i: int| 0 <= i && i + p.len() <= s.len() && #[trigger] s.subrange(i, i + p.len()) == p
}

proof fn lemma_first_index_step(s: Seq<char>, i: int, c: char)
    requires
        0 <= i < s.len(),
        s[i] != c,
    ensures
        first_index_of(s.skip(i), c) == match first_index_of(s.skip(i + 1), c) {
            Some(k) => Some(k + 1),
            None => None::<int>,
        },
{
    assert(s.skip(i).drop_first() =~= s.skip(i + 1));
}

/// The first position of `c` in `s`, if any.
pub fn find_char(s: &[char], c: char) -> (r: Option<usize>)
    ensures
        r matches Some(i) ==> first_index_of(s@, c) == Some(i as int),
        r is None ==> first_index_of(s@, c) is None,
{
    let mut i: usize = 0;
    assert(s@.skip(0) =~= s@);
    while i < s.len()
        invariant
            i <= s.len(),
            first_index_of(s@, c) == match first_index_of(s@.skip(i as int), c) {
                Some(k) => Some(k + i),
                None => None::<int>,
            },
        decreases s.len() - i,
    {
        if s[i] == c {
            assert(s@.skip(i as int)[0] == c);
            return Some(i);
        }
        proof {
            lemma_first_index_step(s@, i as int, c);
        }
        i = i + 1;
    }
    assert(s@.skip(i as int) =~= Seq::<char>::empty());
    None
}

/// What the first position of a character says about the text.
pub(crate) proof fn lemma_first_index_facts(s: Seq<char>, c: char)
    ensures
        first_index_of(s, c) matches Some(i) ==> 0 <= i < s.len() && s[i] == c
            && forall|j: int| 0 <= j < i ==> s[j] != c,
        first_index_of(s, c) is None ==> forall|j: int| 0 <= j < s.len() ==> s[j] != c,
    decreases s.len(),
{
    if s.len() > 0 {
        lemma_first_index_facts(s.drop_first(), c);
        if s[0] != c {
            assert forall|j: int| 1 <= j < s.len() implies s[j] == s.drop_first()[j - 1] by {}
        }
    }
}

/// Whether `p` occurs in `s`.
pub fn contains_chars(s: &[char], p: &[char]) -> (r: bool)
    ensures
        r == contains_seq(s@, p@),
{
    if p.len() > s.len() {
        return false;
    }
    let limit = s.len() - p.len();
    let mut i: usize = 0;
    loop
        invariant
            p.len() <= s.len(),
            limit == s.len() - p.len(),
            i <= limit,
            forall|k: int| 0 <= k < i ==> #[trigger] s@.subrange(k, k + p@.len()) != p@,
        decreases limit - i,
    {
        let mut j: usize = 0;
        let mut same = true;
        while j < p.len() && same
            invariant
                i + p.len() <= s.len(),
                j <= p.len(),
                same ==> s@.subrange(i as int, i + j) == p@.subrange(0, j as int),
                !same ==> s@.subrange(i as int, i + p@.len()) != p@,
            decreases p.len() - j + (if same { 1int } else { 0int }),
        {
            if s[i + j] != p[j] {
                assert(s@.subrange(i as int, i + p@.len())[j as int] != p@[j as int]);
                same = false;
            } else {
                j = j + 1;
                assert(s@.subrange(i as int, i + j) =~= p@.subrange(0, j as int));
            }
        }
        if same {
            assert(p@.subrange(0, p@.len() as int) =~= p@);
            return true;
        }
        if i == limit {
            assert forall|k: int| 0 <= k && k + p@.len() <= s@.len() implies #[trigger] s@.subrange(k, k + p@.len()) != p@ by {
                assert(k <= i);
            }
            return false;
        }
        i = i + 1;
    }
}

} // verus!
