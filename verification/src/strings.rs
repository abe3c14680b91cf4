//! Character-level string utilities shared by the translator and the
//! session-labelling helpers.  Everything here works over `Seq<char>` views.

use vstd::prelude::*;
use vstd::string::StrSliceExecFns;

verus! {

/// Collect the characters of a string slice into a vector.
pub fn str_to_chars(s: &str) -> (v: Vec<char>)
    ensures
        v@ == s@,
{
    let n = s.unicode_len();
    let mut v: Vec<char> = Vec::new();
    let mut i: usize = 0;
    while i < n
        invariant
            n == s@.len(),
            i <= n,
            v@ == s@.take(i as int),
        decreases n - i,
    {
        v.push(s.get_char(i));
        proof {
            assert(v@ =~= s@.take(i + 1));
        }
        i = i + 1;
    }
    proof {
        assert(s@.take(n as int) =~= s@);
    }
    v
}

/// Whether two string slices hold the same characters.
pub fn str_eq(a: &str, b: &str) -> (r: bool)
    ensures
        r == (a@ == b@),
{
    let na = a.unicode_len();
    let nb = b.unicode_len();
    if na != nb {
        return false;
    }
    let mut i: usize = 0;
    while i < na
        invariant
            na == a@.len(),
            na == b@.len(),
            i <= na,
            forall|k: int| 0 <= k < i ==> a@[k] == b@[k],
        decreases na - i,
    {
        if a.get_char(i) != b.get_char(i) {
            return false;
        }
        i = i + 1;
    }
    proof {
        assert(a@ =~= b@);
    }
    true
}

/// Whether a character counts as whitespace, as the standard library's
/// Unicode `White_Space` test decides it.
pub uninterp spec fn is_whitespace_char(c: char) -> bool;

/// Relies on `char::is_whitespace`: a pure test of the one character; the
/// ASCII space, tab, line feed and carriage return are whitespace.
#[verifier::external_body]
pub(crate) fn char_is_whitespace(c: char) -> (r: bool)
    ensures
        r == is_whitespace_char(c),
        (c == ' ' || c == '\t' || c == '\n' || c == '\r') ==> r,
{
    c.is_whitespace()
}

/// The lowercase form of a character sequence, as the standard library's
/// Unicode lowercasing produces it.
pub uninterp spec fn lower_of(s: Seq<char>) -> Seq<char>;

/// Relies on `str::to_lowercase`: the result depends on the characters
/// alone, and an empty string stays empty.
#[verifier::external_body]
pub(crate) fn str_lowercase(s: &str) -> (r: String)
    ensures
        r@ == lower_of(s@),
        s@.len() == 0 ==> r@.len() == 0,
{
    s.to_lowercase()
}

/// The whitespace-separated words of a sequence, with a word being built.
pub open spec fn spec_words_acc(s: Seq<char>, cur: Seq<char>) -> Seq<Seq<char>>
    decreases s.len(),
{
    if s.len() == 0 {
        if cur.len() == 0 {
            Seq::empty()
        } else {
            seq![cur]
        }
    } else if is_whitespace_char(s[0]) {
        (if cur.len() == 0 {
            Seq::empty()
        } else {
            seq![cur]
        }) + spec_words_acc(s.drop_first(), Seq::empty())
    } else {
        spec_words_acc(s.drop_first(), cur.push(s[0]))
    }
}

/// The whitespace-separated words of a sequence.
pub open spec fn spec_words(s: Seq<char>) -> Seq<Seq<char>> {
    spec_words_acc(s, Seq::empty())
}

/// Split a string into its whitespace-separated words.
#[verifier::loop_isolation(false)]
pub fn split_words(s: &str) -> (words: Vec<String>)
    ensures
        words@.map_values(|w: String| w@) == spec_words(s@),
{
    let n = s.unicode_len();
    let mut words: Vec<String> = Vec::new();
    let mut cur: Vec<char> = Vec::new();
    let mut i: usize = 0;
    proof {
        assert(s@.skip(0) =~= s@);
        assert(words@.map_values(|w: String| w@) + spec_words_acc(s@.skip(0), cur@)
            =~= spec_words(s@));
    }
    while i < n
        invariant
            i <= n,
            n == s@.len(),
            spec_words(s@) == words@.map_values(|w: String| w@) + spec_words_acc(
                s@.skip(i as int),
                cur@,
            ),
        decreases n - i,
    {
        proof {
            assert(s@.skip(i as int)[0] == s@[i as int]);
            assert(s@.skip(i as int).drop_first() =~= s@.skip(i + 1));
        }
        let c = s.get_char(i);
        let ghost prev_cur = cur@;
        if char_is_whitespace(c) {
            if cur.len() > 0 {
                let w = chars_to_string(&cur);
                words.push(w);
                cur = Vec::new();
                proof {
                    assert(words@.map_values(|w2: String| w2@) =~= words@.drop_last().map_values(
                        |w2: String| w2@,
                    ).push(words@.last()@));
                    assert(spec_words(s@) =~= words@.map_values(|w2: String| w2@)
                        + spec_words_acc(s@.skip(i + 1), cur@));
                }
            } else {
                proof {
                    assert(cur@ =~= Seq::<char>::empty());
                    assert(spec_words(s@) =~= words@.map_values(|w2: String| w2@)
                        + spec_words_acc(s@.skip(i + 1), cur@));
                }
            }
        } else {
            cur.push(c);
            proof {
                assert(cur@ == prev_cur.push(s@[i as int]));
                assert(spec_words_acc(s@.skip(i as int), prev_cur) == spec_words_acc(
                    s@.skip(i + 1),
                    cur@,
                ));
            }
        }
        i = i + 1;
    }
    if cur.len() > 0 {
        let w = chars_to_string(&cur);
        words.push(w);
        proof {
            assert(words@.map_values(|w2: String| w2@) =~= words@.drop_last().map_values(
                |w2: String| w2@,
            ).push(words@.last()@));
            assert(s@.skip(n as int).len() == 0);
            assert(spec_words(s@) =~= words@.map_values(|w2: String| w2@));
        }
    } else {
        proof {
            assert(s@.skip(n as int).len() == 0);
            assert(spec_words(s@) =~= words@.map_values(|w2: String| w2@));
        }
    }
    words
}

/// The character sequences of a sequence of strings.
pub open spec fn views_of(v: Seq<String>) -> Seq<Seq<char>> {
    v.map_values(|x: String| x@)
}

/// `needle` occurs contiguously in `hay`.
pub open spec fn spec_contains(hay: Seq<char>, needle: Seq<char>) -> bool {
    exists|i: int|
        0 <= i && i + needle.len() <= hay.len() && #[trigger] hay.subrange(i, i + needle.len())
            == needle
}

/// Whether one string occurs inside another.
#[verifier::loop_isolation(false)]
pub fn str_contains(hay: &str, needle: &str) -> (r: bool)
    ensures
        r == spec_contains(hay@, needle@),
{
    let h = str_to_chars(hay);
    let m = str_to_chars(needle);
    let hn = h.len();
    let mn = m.len();
    if mn > hn {
        proof {
            assert forall|i: int| !(0 <= i && i + needle@.len() <= hay@.len() && #[trigger]
            hay@.subrange(i, i + needle@.len()) == needle@) by {}
        }
        return false;
    }
    if mn == 0 {
        proof {
            assert(spec_contains(hay@, needle@)) by {
                assert(hay@.subrange(0, 0 + needle@.len() as int) =~= needle@);
            }
        }
        return true;
    }
    let mut i: usize = 0;
    while i <= hn - mn
        invariant
            mn >= 1,
            i <= hn - mn + 1,
            forall|k: int|
                0 <= k < i ==> #[trigger] hay@.subrange(k, k + needle@.len()) != needle@,
        decreases hn + 1 - mn - i,
    {
        let mut j: usize = 0;
        let mut hit = true;
        while j < mn
            invariant
                j <= mn,
                i + mn <= hn,
                hit ==> forall|t: int| 0 <= t < j ==> hay@[i + t] == needle@[t],
                !hit ==> hay@.subrange(i as int, i + needle@.len()) != needle@,
            decreases mn - j,
        {
            if h[i + j] != m[j] {
                hit = false;
                proof {
                    assert(hay@.subrange(i as int, i + needle@.len())[j as int] != needle@[
                        j as int]);
                }
                break ;
            }
            j = j + 1;
        }
        if hit {
            proof {
                assert(hay@.subrange(i as int, i + needle@.len()) =~= needle@);
            }
            return true;
        }
        proof {
            assert(hay@.subrange(i as int, i + needle@.len()) != needle@);
        }
        i = i + 1;
    }
    proof {
        assert forall|k: int| !(0 <= k && k + needle@.len() <= hay@.len() && #[trigger]
        hay@.subrange(k, k + needle@.len()) == needle@) by {
            if 0 <= k && k + needle@.len() <= hay@.len() {
                assert(k < i);
            }
        }
    }
    false
}

/// The sequence with leading whitespace dropped.
pub open spec fn spec_trim_start(s: Seq<char>) -> Seq<char>
    decreases s.len(),
{
    if s.len() == 0 {
        s
    } else if is_whitespace_char(s[0]) {
        spec_trim_start(s.drop_first())
    } else {
        s
    }
}

/// The sequence with trailing whitespace dropped.
pub open spec fn spec_trim_end(s: Seq<char>) -> Seq<char>
    decreases s.len(),
{
    if s.len() == 0 {
        s
    } else if is_whitespace_char(s.last()) {
        spec_trim_end(s.drop_last())
    } else {
        s
    }
}

pub open spec fn spec_trim(s: Seq<char>) -> Seq<char> {
    spec_trim_end(spec_trim_start(s))
}

/// Trim whitespace from both ends.
#[verifier::loop_isolation(false)]
pub fn str_trim_chars(s: &Vec<char>) -> (r: Vec<char>)
    ensures
        r@ == spec_trim(s@),
{
    let n = s.len();
    let mut a: usize = 0;
    proof {
        assert(s@.skip(0) =~= s@);
    }
    while a < n && char_is_whitespace(s[a])
        invariant
            a <= n,
            spec_trim_start(s@) == spec_trim_start(s@.skip(a as int)),
        decreases n - a,
    {
        proof {
            assert(s@.skip(a as int)[0] == s@[a as int]);
            assert(s@.skip(a as int).drop_first() =~= s@.skip(a + 1));
        }
        a = a + 1;
    }
    proof {
        if a < n {
            assert(s@.skip(a as int)[0] == s@[a as int]);
        }
        assert(spec_trim_start(s@) == s@.skip(a as int));
    }
    let mut b: usize = n;
    proof {
        assert(s@.skip(a as int).take(n - a) =~= s@.skip(a as int));
    }
    while b > a && char_is_whitespace(s[b - 1])
        invariant
            a <= b <= n,
            spec_trim_end(s@.skip(a as int)) == spec_trim_end(
                s@.skip(a as int).take(b - a),
            ),
        decreases b,
    {
        proof {
            let pre = s@.skip(a as int).take(b - a);
            assert(pre.last() == s@[b - 1]);
            assert(pre.drop_last() =~= s@.skip(a as int).take(b - 1 - a));
        }
        b = b - 1;
    }
    proof {
        let pre = s@.skip(a as int).take(b - a);
        if b > a {
            assert(pre.last() == s@[b - 1]);
        }
        assert(spec_trim_end(pre) == pre);
    }
    let mut r: Vec<char> = Vec::new();
    let mut i = a;
    while i < b
        invariant
            a <= i <= b <= n,
            n == s@.len(),
            r@ == s@.subrange(a as int, i as int),
        decreases b - i,
    {
        r.push(s[i]);
        proof {
            assert(r@ =~= s@.subrange(a as int, i + 1));
        }
        i = i + 1;
    }
    proof {
        assert(r@ =~= s@.skip(a as int).take(b - a));
    }
    r
}

/// Trim whitespace from both ends of a string.
pub fn str_trim(s: &str) -> (r: String)
    ensures
        r@ == spec_trim(s@),
{
    let cs = str_to_chars(s);
    let t = str_trim_chars(&cs);
    chars_to_string(&t)
}

/// Index of the first occurrence of a character, if any.
pub open spec fn spec_find_char(s: Seq<char>, c: char) -> Option<int>
    decreases s.len(),
{
    if s.len() == 0 {
        None
    } else if s[0] == c {
        Some(0)
    } else {
        match spec_find_char(s.drop_first(), c) {
            Some(i) => Some(i + 1),
            None => None,
        }
    }
}

pub proof fn lemma_find_char_props(s: Seq<char>, c: char)
    ensures
        match spec_find_char(s, c) {
            Some(i) => 0 <= i < s.len() && s[i] == c && (forall|k: int|
                0 <= k < i ==> s[k] != c),
            None => forall|k: int| 0 <= k < s.len() ==> s[k] != c,
        },
    decreases s.len(),
{
    if s.len() == 0 {
    } else if s[0] == c {
    } else {
        lemma_find_char_props(s.drop_first(), c);
        assert(forall|k: int| 0 <= k < s.drop_first().len() ==> s.drop_first()[k] == s[k + 1]);
        match spec_find_char(s.drop_first(), c) {
            Some(i) => {
                assert(s[i + 1] == s.drop_first()[i]);
                assert forall|k: int| 0 <= k < i + 1 implies s[k] != c by {
                    if k > 0 {
                        assert(s.drop_first()[k - 1] != c);
                    }
                }
            },
            None => {
                assert forall|k: int| 0 <= k < s.len() implies s[k] != c by {
                    if k > 0 {
                        assert(s.drop_first()[k - 1] != c);
                    }
                }
            },
        }
    }
}

proof fn lemma_find_char_first(s: Seq<char>, c: char, i: int)
    requires
        0 <= i < s.len(),
        s[i] == c,
        forall|k: int| 0 <= k < i ==> s[k] != c,
    ensures
        spec_find_char(s, c) == Some(i),
    decreases s.len(),
{
    if i > 0 {
        lemma_find_char_first(s.drop_first(), c, i - 1);
    }
}

/// Find the first occurrence of a character.
#[verifier::loop_isolation(false)]
pub fn find_char(s: &Vec<char>, c: char) -> (r: Option<usize>)
    ensures
        match r {
            Some(i) => spec_find_char(s@, c) == Some(i as int),
            None => spec_find_char(s@, c) is None,
        },
{
    let n = s.len();
    let mut i: usize = 0;
    while i < n
        invariant
            i <= n,
            forall|k: int| 0 <= k < i ==> s@[k] != c,
        decreases n - i,
    {
        if s[i] == c {
            proof {
                lemma_find_char_first(s@, c, i as int);
            }
            return Some(i);
        }
        i = i + 1;
    }
    proof {
        lemma_find_char_props(s@, c);
        if spec_find_char(s@, c) is Some {
            assert(s@[spec_find_char(s@, c).unwrap()] == c);
        }
    }
    None
}

/// Whether `pre` is a prefix of `s`.
pub fn starts_with_lit(s: &Vec<char>, pre: &str) -> (r: bool)
    ensures
        r == (s@.len() >= pre@.len() && s@.take(pre@.len() as int) == pre@),
{
    let pc = str_to_chars(pre);
    let pn = pc.len();
    if s.len() < pn {
        return false;
    }
    let mut i: usize = 0;
    while i < pn
        invariant
            i <= pn,
            pn == pre@.len(),
            s@.len() >= pn,
            pc@ == pre@,
            forall|k: int| 0 <= k < i ==> s@[k] == pre@[k],
        decreases pn - i,
    {
        if s[i] != pc[i] {
            proof {
                assert(s@.take(pre@.len() as int)[i as int] != pre@[i as int]);
            }
            return false;
        }
        i = i + 1;
    }
    proof {
        assert(s@.take(pre@.len() as int) =~= pre@);
    }
    true
}

/// Whether `suf` is a suffix of `s`.
pub fn ends_with_lit(s: &Vec<char>, suf: &str) -> (r: bool)
    ensures
        r == (s@.len() >= suf@.len() && s@.skip(s@.len() - suf@.len()) == suf@),
{
    let sc = str_to_chars(suf);
    let sn = sc.len();
    let n = s.len();
    if n < sn {
        return false;
    }
    let off = n - sn;
    let mut i: usize = 0;
    while i < sn
        invariant
            i <= sn,
            sn == suf@.len(),
            n == s@.len(),
            n >= sn,
            off == n - sn,
            sc@ == suf@,
            forall|k: int| 0 <= k < i ==> s@[off + k] == suf@[k],
        decreases sn - i,
    {
        if s[off + i] != sc[i] {
            proof {
                assert(s@.skip(s@.len() - suf@.len())[i as int] != suf@[i as int]);
            }
            return false;
        }
        i = i + 1;
    }
    proof {
        assert(s@.skip(s@.len() - suf@.len()) =~= suf@);
    }
    true
}

/// Relies on `String: FromIterator<char>`: collecting characters yields a
/// string holding exactly those characters, in order.
#[verifier::external_body]
pub(crate) fn chars_to_string(v: &Vec<char>) -> (s: String)
    ensures
        s@ == v@,
{
    v.iter().collect()
}

} // verus!
