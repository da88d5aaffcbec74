//! Characters, white space and tokens: the ground the text measures stand on.

use vstd::prelude::*;
use vstd::string::StringSliceAdditionalSpecFns;
use vstd::utf8::*;

verus! {

/// Whether `c` is one of the code points that Unicode marks as white space.
pub open spec fn is_whitespace(c: char) -> bool {
    let u = c as u32;
    ||| 0x09 <= u <= 0x0d
    ||| u == 0x20
    ||| u == 0x85
    ||| u == 0xa0
    ||| u == 0x1680
    ||| 0x2000 <= u <= 0x200a
    ||| u == 0x2028
    ||| u == 0x2029
    ||| u == 0x202f
    ||| u == 0x205f
    ||| u == 0x3000
}

/// Whether every character of `s` is white space; so for the empty text.
pub open spec fn is_blank(s: Seq<char>) -> bool {
    forall|i: int| 0 <= i < s.len() ==> is_whitespace(#[trigger] s[i])
}

/// Tells white space from the rest.
pub fn char_is_whitespace(c: char) -> (b: bool)
    ensures
        b == is_whitespace(c),
{
    let u: u32 = c as u32;
    (0x09 <= u && u <= 0x0d) || u == 0x20 || u == 0x85 || u == 0xa0 || u == 0x1680 || (0x2000 <= u
        && u <= 0x200a) || u == 0x2028 || u == 0x2029 || u == 0x202f || u == 0x205f || u == 0x3000
}

/// The characters of `s`, in order.
pub fn chars_of(s: &str) -> (chars: Vec<char>)
    ensures
        chars@ == s@,
{
    let mut chars: Vec<char> = Vec::new();
    for c in it: s.chars()
        invariant
            chars@ == it.seq().take(it.index() as int),
            it.seq() == s@,
    {
        chars.push(c);
    }
    chars
}

/// The length of the run of characters other than white space that `s` starts
/// with.
pub open spec fn word_len(s: Seq<char>) -> nat
    decreases s.len(),
{
    if s.len() == 0 || is_whitespace(s[0]) {
        0
    } else {
        1 + word_len(s.drop_first())
    }
}

/// The words of `s`: its maximal runs of characters other than white space,
/// in order. None of them is empty.
pub open spec fn words(s: Seq<char>) -> Seq<Seq<char>>
    decreases s.len(),
{
    if s.len() == 0 {
        Seq::empty()
    } else if is_whitespace(s[0]) {
        words(s.drop_first())
    } else {
        let n = word_len(s) as int;
        if 0 < n <= s.len() {
            seq![s.take(n)] + words(s.skip(n))
        } else {
            Seq::empty()
        }
    }
}

/// The views of a vector of character vectors.
pub open spec fn views(v: Seq<Vec<char>>) -> Seq<Seq<char>> {
    v.map_values(|w: Vec<char>| w@)
}

/// A run of characters without white space, ended by white space or by the
/// end of the text, is the word that the text starts with there.
pub proof fn word_len_of_run(s: Seq<char>, from: int, to: int)
    requires
        0 <= from <= to <= s.len(),
        forall|k: int| from <= k < to ==> !is_whitespace(#[trigger] s[k]),
        to == s.len() || is_whitespace(s[to]),
    ensures
        word_len(s.skip(from)) == to - from,
    decreases to - from,
{
    let rest = s.skip(from);
    if from == to {
        if to < s.len() {
            assert(rest[0] == s[to]);
        }
    } else {
        assert(rest[0] == s[from]);
        assert(rest.drop_first() =~= s.skip(from + 1));
        word_len_of_run(s, from + 1, to);
    }
}

/// Splits `chars` at white space, as `words` says.
pub fn split_whitespace(chars: &Vec<char>) -> (out: Vec<Vec<char>>)
    ensures
        views(out@) == words(chars@),
{
    let mut out: Vec<Vec<char>> = Vec::new();
    let n = chars.len();
    let mut i: usize = 0;
    proof {
        assert(chars@.skip(0) =~= chars@);
        assert(views(out@) =~= Seq::<Seq<char>>::empty());
    }
    while i < n
        invariant
            n == chars.len(),
            i <= n,
            words(chars@) == views(out@) + words(chars@.skip(i as int)),
        decreases n - i,
    {
        let ghost rest = chars@.skip(i as int);
        proof {
            assert(rest[0] == chars@[i as int]);
        }
        if char_is_whitespace(chars[i]) {
            proof {
                assert(rest.drop_first() =~= chars@.skip(i + 1));
            }
            i += 1;
        } else {
            let mut j: usize = i + 1;
            let mut word: Vec<char> = Vec::new();
            word.push(chars[i]);
            while j < n && !char_is_whitespace(chars[j])
                invariant
                    n == chars.len(),
                    i < j <= n,
                    word@ == chars@.subrange(i as int, j as int),
                    forall|k: int| i <= k < j ==> !is_whitespace(#[trigger] chars@[k]),
                decreases n - j,
            {
                word.push(chars[j]);
                j += 1;
                proof {
                    assert(word@ =~= chars@.subrange(i as int, j as int));
                }
            }
            proof {
                word_len_of_run(chars@, i as int, j as int);
                assert(rest.take(j - i) =~= word@);
                assert(rest.skip(j - i) =~= chars@.skip(j as int));
                assert(views(out@.push(word)) =~= views(out@) + seq![word@]);
            }
            out.push(word);
            i = j;
        }
    }
    proof {
        assert(chars@.skip(i as int) =~= Seq::<char>::empty());
    }
    out
}

/// Whether `needle` stands in `hay` from position `at` on.
pub open spec fn occurs_at(hay: Seq<char>, needle: Seq<char>, at: int) -> bool {
    &&& 0 <= at
    &&& at + needle.len() <= hay.len()
    &&& hay.subrange(at, at + needle.len()) == needle
}

/// Whether `needle` occurs somewhere in `hay` as a run of neighbouring
/// characters. The empty text occurs in every text.
pub open spec fn contains_text(hay: Seq<char>, needle: Seq<char>) -> bool {
    exists|at: int| occurs_at(hay, needle, at)
}

/// Whether `needle` stands in `hay` from position `at` on.
fn matches_at(hay: &Vec<char>, needle: &Vec<char>, at: usize) -> (b: bool)
    requires
        at + needle.len() <= hay.len(),
    ensures
        b == occurs_at(hay@, needle@, at as int),
{
    let m = needle.len();
    let mut k: usize = 0;
    while k < m
        invariant
            m == needle.len(),
            at + m <= hay.len(),
            k <= m,
            forall|x: int| 0 <= x < k ==> hay@[at + x] == needle@[x],
        decreases m - k,
    {
        if hay[at + k] != needle[k] {
            proof {
                assert(hay@.subrange(at as int, at + m)[k as int] == hay@[at + k]);
            }
            return false;
        }
        k += 1;
    }
    proof {
        assert(hay@.subrange(at as int, at + m) =~= needle@);
    }
    true
}

/// Looks for `needle` in `hay`.
pub fn contains(hay: &Vec<char>, needle: &Vec<char>) -> (b: bool)
    ensures
        b == contains_text(hay@, needle@),
{
    let n = hay.len();
    let m = needle.len();
    if m > n {
        return false;
    }
    let last = n - m;
    let mut at: usize = 0;
    loop
        invariant
            n == hay.len(),
            m == needle.len(),
            last == n - m,
            at <= last,
            forall|x: int| 0 <= x < at ==> !occurs_at(hay@, needle@, x),
        decreases last - at,
    {
        if matches_at(hay, needle, at) {
            return true;
        }
        if at == last {
            return false;
        }
        at += 1;
    }
}

/// Whether `chars` holds white space only.
pub fn is_blank_text(chars: &Vec<char>) -> (b: bool)
    ensures
        b == is_blank(chars@),
{
    let n = chars.len();
    let mut i: usize = 0;
    while i < n
        invariant
            n == chars.len(),
            i <= n,
            forall|k: int| 0 <= k < i ==> is_whitespace(#[trigger] chars@[k]),
        decreases n - i,
    {
        if !char_is_whitespace(chars[i]) {
            return false;
        }
        i += 1;
    }
    true
}

/// Whether two texts are the same, decided on their UTF-8 bytes.
pub fn same_text(a: &str, b: &str) -> (same: bool)
    ensures
        same == (a@ == b@),
{
    let x = a.as_bytes();
    let y = b.as_bytes();
    proof {
        encode_utf8_decode_utf8(a@);
        encode_utf8_decode_utf8(b@);
    }
    if x.len() != y.len() {
        return false;
    }
    let n = x.len();
    let mut i: usize = 0;
    while i < n
        invariant
            n == x@.len(),
            n == y@.len(),
            x@ == a.spec_bytes(),
            y@ == b.spec_bytes(),
            i <= n,
            forall|k: int| 0 <= k < i ==> x@[k] == y@[k],
        decreases n - i,
    {
        if x[i] != y[i] {
            proof {
                assert(x@[i as int] != y@[i as int]);
            }
            return false;
        }
        i += 1;
    }
    proof {
        assert(x@ =~= y@);
    }
    true
}

/// Whether `a` does not come after `b` in the order of texts: the texts are
/// compared character by character, by code point, and a text comes before
/// every text that it begins. This is the order in which `str` compares.
pub open spec fn text_le(a: Seq<char>, b: Seq<char>) -> bool
    decreases a.len(),
{
    if a.len() == 0 {
        true
    } else if b.len() == 0 {
        false
    } else if a[0] != b[0] {
        (a[0] as u32) < (b[0] as u32)
    } else {
        text_le(a.drop_first(), b.drop_first())
    }
}

/// Of two texts one does not come after the other, and two texts of which
/// neither comes after the other are the same.
pub proof fn text_le_total(a: Seq<char>, b: Seq<char>)
    ensures
        text_le(a, b) || text_le(b, a),
        text_le(a, b) && text_le(b, a) ==> a == b,
        text_le(a, a),
    decreases a.len(),
{
    if a.len() > 0 {
        text_le_total(a.drop_first(), a.drop_first());
    }
    if a.len() > 0 && b.len() > 0 && a[0] == b[0] {
        text_le_total(a.drop_first(), b.drop_first());
        if text_le(a, b) && text_le(b, a) {
            assert(a =~= seq![a[0]] + a.drop_first());
            assert(b =~= seq![b[0]] + b.drop_first());
        }
    }
    if a.len() > 0 && b.len() > 0 && a[0] != b[0] {
        char_u32_cast(a[0], a[0] as u32);
        char_u32_cast(b[0], b[0] as u32);
    }
    if a.len() == 0 && b.len() == 0 {
        assert(a =~= b);
    }
}

/// What does not come after a text does not come after any text that the
/// text itself does not come after.
pub proof fn text_le_transitive(a: Seq<char>, b: Seq<char>, c: Seq<char>)
    requires
        text_le(a, b),
        text_le(b, c),
    ensures
        text_le(a, c),
    decreases a.len(),
{
    if a.len() > 0 && b.len() > 0 && c.len() > 0 && a[0] == b[0] && b[0] == c[0] {
        text_le_transitive(a.drop_first(), b.drop_first(), c.drop_first());
    }
}

/// Whether `a` does not come after `b` in the order of texts.
pub fn text_not_after(a: &str, b: &str) -> (first: bool)
    ensures
        first == text_le(a@, b@),
{
    let x = chars_of(a);
    let y = chars_of(b);
    let mut i: usize = 0;
    proof {
        assert(x@.skip(0) =~= x@);
        assert(y@.skip(0) =~= y@);
    }
    loop
        invariant
            x@ == a@,
            y@ == b@,
            i <= x@.len(),
            i <= y@.len(),
            text_le(a@, b@) == text_le(x@.skip(i as int), y@.skip(i as int)),
        decreases x@.len() - i,
    {
        if i == x.len() {
            return true;
        }
        if i == y.len() {
            return false;
        }
        proof {
            assert(x@.skip(i as int)[0] == x@[i as int]);
            assert(y@.skip(i as int)[0] == y@[i as int]);
            assert(x@.skip(i as int).drop_first() =~= x@.skip(i + 1));
            assert(y@.skip(i as int).drop_first() =~= y@.skip(i + 1));
        }
        if x[i] != y[i] {
            return (x[i] as u32) < (y[i] as u32);
        }
        i += 1;
    }
}

/// The lower-case form that the standard library gives a text, by Unicode's
/// case mapping.
pub uninterp spec fn lowercase(s: Seq<char>) -> Seq<char>;

/// `str::to_lowercase` of the standard library. The contract only gives its
/// result a name: the same text always folds to the same text.
#[verifier::external_body]
pub(crate) fn to_lowercase(s: &str) -> (folded: String)
    ensures
        folded@ == lowercase(s@),
{
    s.to_lowercase()
}

/// `String::from_iter` of the standard library, on the characters of
/// `chars`: the text that holds them in the same order.
#[verifier::external_body]
pub(crate) fn string_of(chars: &Vec<char>) -> (s: String)
    ensures
        s@ == chars@,
{
    String::from_iter(chars.iter())
}

} // verus!
