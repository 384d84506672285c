//! Text primitives: scanning, splitting, trimming and decimal numerals, each
//! stated over the sequence of characters that a string holds.

use vstd::prelude::*;
use vstd::utf8::*;

verus! {

/// `String::push` appends one character.
pub assume_specification[ String::push ](s: &mut String, c: char)
    ensures
        final(s)@ == old(s)@.push(c),
;

/// The characters of a string, as a vector.
pub fn to_chars(s: &str) -> (r: Vec<char>)
    ensures
        r@ == s@,
{
    let mut out: Vec<char> = Vec::new();
    for c in it: s.chars()
        invariant
            it.seq() == s@,
            out@ == s@.take(it.index() as int),
    {
        out.push(c);
        assert(s@.take(it.index() + 1) =~= s@.take(it.index() as int).push(s@[it.index() as int]));
    }
    assert(s@.take(s@.len() as int) =~= s@);
    out
}

/// Equality of two strings, character by character.
pub fn str_eq(a: &str, b: &str) -> (r: bool)
    ensures
        r == (a@ == b@),
{
    a.to_owned() == b.to_owned()
}

/// An optional string as an optional sequence of characters.
pub open spec fn opt_view(o: Option<String>) -> Option<Seq<char>> {
    match o {
        Some(s) => Some(s@),
        None => None,
    }
}

/// An optional borrowed string as an optional sequence of characters.
pub open spec fn opt_str_view(o: Option<&str>) -> Option<Seq<char>> {
    match o {
        Some(s) => Some(s@),
        None => None,
    }
}

/// The character sequences held by a sequence of strings.
pub open spec fn views(v: Seq<String>) -> Seq<Seq<char>> {
    v.map_values(|s: String| s@)
}

/// The character sequences held by a sequence of borrowed strings.
pub open spec fn str_views(v: Seq<&str>) -> Seq<Seq<char>> {
    v.map_values(|s: &str| s@)
}

/// A copy of an optional string.
pub fn clone_opt(o: &Option<String>) -> (r: Option<String>)
    ensures
        r == *o,
{
    match o {
        Some(s) => Some(s.clone()),
        None => None,
    }
}

/// A copy of a vector of strings.
pub fn clone_strings(v: &Vec<String>) -> (r: Vec<String>)
    ensures
        r@ == v@,
{
    let mut out: Vec<String> = Vec::new();
    let mut i: usize = 0;
    while i < v.len()
        invariant
            i <= v@.len(),
            out@ == v@.take(i as int),
        decreases v@.len() - i,
    {
        out.push(v[i].clone());
        assert(v@.take(i + 1) =~= v@.take(i as int).push(v@[i as int]));
        i = i + 1;
    }
    assert(v@.take(v@.len() as int) =~= v@);
    out
}

// ---------------------------------------------------------------------------
// Searching

/// Whether some character of `s` is `c`.
pub open spec fn has_char(s: Seq<char>, c: char) -> bool {
    exists|i: int| 0 <= i < s.len() && s[i] == c
}

/// The position of the first `c` in `s`; the length of `s` where there is none.
pub open spec fn first_index(s: Seq<char>, c: char) -> int
    decreases s.len(),
{
    if s.len() == 0 || s[0] == c {
        0
    } else {
        1 + first_index(s.skip(1), c)
    }
}

/// The first occurrence is the only position that has `c` and no `c` before it.
pub proof fn lemma_first_index(s: Seq<char>, c: char)
    ensures
        0 <= first_index(s, c) <= s.len(),
        first_index(s, c) < s.len() ==> s[first_index(s, c)] == c,
        forall|j: int| 0 <= j < first_index(s, c) ==> s[j] != c,
    decreases s.len(),
{
    if s.len() == 0 || s[0] == c {
    } else {
        let t = s.skip(1);
        lemma_first_index(t, c);
        assert forall|j: int| 0 <= j < first_index(s, c) implies s[j] != c by {
            if j > 0 {
                assert(s[j] == t[j - 1]);
            }
        }
    }
}

pub proof fn lemma_first_index_at(s: Seq<char>, c: char, i: int)
    requires
        0 <= i <= s.len(),
        forall|j: int| 0 <= j < i ==> s[j] != c,
        i < s.len() ==> s[i] == c,
    ensures
        first_index(s, c) == i,
{
    lemma_first_index(s, c);
    let k = first_index(s, c);
    if k < i {
        assert(s[k] != c);
    }
    if i < k {
        assert(s[i] != c);
    }
}

/// The position (counted in characters) of the first `c` in `s`.
pub fn find_char(s: &str, c: char) -> (r: Option<usize>)
    ensures
        match r {
            Some(i) => i < s@.len() <= usize::MAX && first_index(s@, c) == i,
            None => first_index(s@, c) == s@.len(),
        },
{
    let chars = to_chars(s);
    let mut i: usize = 0;
    while i < chars.len()
        invariant
            i <= chars.len(),
            chars@ == s@,
            forall|j: int| 0 <= j < i ==> s@[j] != c,
        decreases chars@.len() - i,
    {
        if chars[i] == c {
            proof {
                lemma_first_index_at(s@, c, i as int);
            }
            return Some(i);
        }
        i = i + 1;
    }
    proof {
        lemma_first_index_at(s@, c, i as int);
    }
    None
}

/// Whether `s` begins with `prefix`.
pub open spec fn begins(s: Seq<char>, prefix: Seq<char>) -> bool {
    prefix.len() <= s.len() && s.take(prefix.len() as int) == prefix
}

/// Whether `s` ends with `suffix`.
pub open spec fn ends(s: Seq<char>, suffix: Seq<char>) -> bool {
    suffix.len() <= s.len() && s.skip(s.len() - suffix.len()) == suffix
}

/// Whether `pattern` occurs in `s`.
pub open spec fn occurs(s: Seq<char>, pattern: Seq<char>) -> bool {
    exists|i: int| 0 <= i <= s.len() && #[trigger] begins(s.skip(i), pattern)
}

/// Whether `chars[at..]` begins with `prefix`.
fn matches_at(chars: &Vec<char>, at: usize, prefix: &Vec<char>) -> (r: bool)
    requires
        at <= chars@.len(),
    ensures
        r == begins(chars@.skip(at as int), prefix@),
{
    if prefix.len() > chars.len() - at {
        return false;
    }
    let mut i: usize = 0;
    while i < prefix.len()
        invariant
            i <= prefix@.len(),
            at + prefix.len() <= chars.len(),
            forall|j: int| 0 <= j < i ==> chars@[at + j] == prefix@[j],
        decreases prefix@.len() - i,
    {
        if chars[at + i] != prefix[i] {
            proof {
                let t = chars@.skip(at as int);
                assert(t.take(prefix@.len() as int)[i as int] != prefix@[i as int]);
            }
            return false;
        }
        i = i + 1;
    }
    assert(chars@.skip(at as int).take(prefix@.len() as int) =~= prefix@);
    true
}

pub fn starts_with(s: &str, prefix: &str) -> (r: bool)
    ensures
        r == begins(s@, prefix@),
{
    let chars = to_chars(s);
    assert(chars@.skip(0) =~= s@);
    matches_at(&chars, 0, &to_chars(prefix))
}

pub fn ends_with(s: &str, suffix: &str) -> (r: bool)
    ensures
        r == ends(s@, suffix@),
{
    let chars = to_chars(s);
    let tail = to_chars(suffix);
    if tail.len() > chars.len() {
        return false;
    }
    let at: usize = chars.len() - tail.len();
    proof {
        let t = chars@.skip(at as int);
        assert(t.take(tail@.len() as int) =~= t);
    }
    matches_at(&chars, at, &tail)
}

/// Whether `pattern` occurs anywhere in `s`.
pub fn contains_str(s: &str, pattern: &str) -> (r: bool)
    ensures
        r == occurs(s@, pattern@),
{
    let chars = to_chars(s);
    let pat = to_chars(pattern);
    let mut i: usize = 0;
    loop
        invariant
            i <= chars@.len(),
            chars@ == s@,
            pat@ == pattern@,
            forall|j: int| 0 <= j < i ==> !#[trigger] begins(s@.skip(j), pattern@),
        decreases chars@.len() - i,
    {
        if matches_at(&chars, i, &pat) {
            return true;
        }
        if i == chars.len() {
            return false;
        }
        i = i + 1;
    }
}

/// The position of the first occurrence of `pattern` in `s`.
pub open spec fn position_of(s: Seq<char>, pattern: Seq<char>) -> Option<int>
    decreases s.len(),
{
    if begins(s, pattern) {
        Some(0)
    } else if s.len() == 0 {
        None
    } else {
        match position_of(s.skip(1), pattern) {
            Some(i) => Some(i + 1),
            None => None,
        }
    }
}

pub proof fn lemma_position_of(s: Seq<char>, pattern: Seq<char>, i: int)
    requires
        0 <= i <= s.len(),
        begins(s.skip(i), pattern),
        forall|j: int| 0 <= j < i ==> !begins(#[trigger] s.skip(j), pattern),
    ensures
        position_of(s, pattern) == Some(i),
    decreases s.len(),
{
    assert(s.skip(0) =~= s);
    if i > 0 {
        let t = s.skip(1);
        assert(t.skip(i - 1) =~= s.skip(i));
        assert forall|j: int| 0 <= j < i - 1 implies !begins(#[trigger] t.skip(j), pattern) by {
            assert(t.skip(j) =~= s.skip(j + 1));
        }
        lemma_position_of(t, pattern, i - 1);
    }
}

proof fn lemma_position_none(s: Seq<char>, pattern: Seq<char>)
    requires
        forall|j: int| 0 <= j <= s.len() ==> !begins(#[trigger] s.skip(j), pattern),
    ensures
        position_of(s, pattern) is None,
    decreases s.len(),
{
    assert(s.skip(0) =~= s);
    if s.len() > 0 {
        let t = s.skip(1);
        assert forall|j: int| 0 <= j <= t.len() implies !begins(#[trigger] t.skip(j), pattern) by {
            assert(t.skip(j) =~= s.skip(j + 1));
        }
        lemma_position_none(t, pattern);
    }
}

/// The position (counted in characters) of the first occurrence of `pattern` in `s`.
pub fn find_str(s: &str, pattern: &str) -> (r: Option<usize>)
    ensures
        match r {
            Some(i) => position_of(s@, pattern@) == Some(i as int) && begins(
                s@.skip(i as int),
                pattern@,
            ) && i + pattern@.len() <= s@.len() <= usize::MAX,
            None => position_of(s@, pattern@) is None,
        },
{
    let chars = to_chars(s);
    let pat = to_chars(pattern);
    let mut i: usize = 0;
    loop
        invariant
            i <= chars.len(),
            chars@ == s@,
            pat@ == pattern@,
            forall|j: int| 0 <= j < i ==> !begins(#[trigger] s@.skip(j), pattern@),
        decreases chars@.len() - i,
    {
        if matches_at(&chars, i, &pat) {
            proof {
                lemma_position_of(s@, pattern@, i as int);
            }
            return Some(i);
        }
        if i == chars.len() {
            proof {
                lemma_position_none(s@, pattern@);
            }
            return None;
        }
        i = i + 1;
    }
}

/// What follows `prefix` in `s`, where `s` begins with it.
pub fn strip_prefix<'a>(s: &'a str, prefix: &str) -> (r: Option<&'a str>)
    ensures
        match r {
            Some(rest) => begins(s@, prefix@) && rest@ == s@.skip(prefix@.len() as int),
            None => !begins(s@, prefix@),
        },
{
    if starts_with(s, prefix) {
        Some(skip_chars(s, char_count(prefix)))
    } else {
        None
    }
}

/// What stands before `suffix` in `s`, where `s` ends with it.
pub fn strip_suffix<'a>(s: &'a str, suffix: &str) -> (r: Option<&'a str>)
    ensures
        match r {
            Some(rest) => ends(s@, suffix@) && rest@ == s@.take(s@.len() - suffix@.len()),
            None => !ends(s@, suffix@),
        },
{
    if ends_with(s, suffix) {
        Some(take_chars(s, char_count(s) - char_count(suffix)))
    } else {
        None
    }
}

/// The number of characters of `s`.
pub fn char_count(s: &str) -> (r: usize)
    ensures
        r == s@.len(),
{
    to_chars(s).len()
}

/// The first `n` characters of `s`.
pub fn take_chars<'a>(s: &'a str, n: usize) -> (r: &'a str)
    requires
        n <= s@.len(),
    ensures
        r@ == s@.take(n as int),
{
    let r = s.substring_char(0, n);
    assert(s@.subrange(0, n as int) =~= s@.take(n as int));
    r
}

/// What follows the first `n` characters of `s`.
pub fn skip_chars<'a>(s: &'a str, n: usize) -> (r: &'a str)
    requires
        n <= s@.len(),
    ensures
        r@ == s@.skip(n as int),
{
    let r = s.substring_char(n, char_count(s));
    assert(s@.subrange(n as int, s@.len() as int) =~= s@.skip(n as int));
    r
}

// ---------------------------------------------------------------------------
// Splitting

/// The pieces of `s` between occurrences of `c`.
pub open spec fn split(s: Seq<char>, c: char) -> Seq<Seq<char>>
    decreases s.len(),
{
    let i = first_index(s, c);
    if i < 0 || i >= s.len() {
        seq![s]
    } else {
        seq![s.take(i)] + split(s.skip(i + 1), c)
    }
}

/// The two parts of `s` around its first `c`.
pub open spec fn cut(s: Seq<char>, c: char) -> Option<(Seq<char>, Seq<char>)> {
    let i = first_index(s, c);
    if i >= s.len() {
        None
    } else {
        Some((s.take(i), s.skip(i + 1)))
    }
}

/// Cutting at the separator gives back what was put before and after it.
pub proof fn lemma_cut_join(a: Seq<char>, c: char, b: Seq<char>)
    requires
        !has_char(a, c),
    ensures
        cut(a + seq![c] + b, c) == Some((a, b)),
{
    let s = a + seq![c] + b;
    assert forall|j: int| 0 <= j < a.len() implies s[j] != c by {
        assert(s[j] == a[j]);
    }
    lemma_first_index_at(s, c, a.len() as int);
    assert(s.take(a.len() as int) =~= a);
    assert(s.skip(a.len() as int + 1) =~= b);
}

/// The parts of `s` before and after its first `c`, where it holds one.
pub fn cut_at<'a>(s: &'a str, c: char) -> (r: Option<(&'a str, &'a str)>)
    ensures
        match r {
            Some((a, b)) => cut(s@, c) == Some((a@, b@)),
            None => cut(s@, c) is None,
        },
{
    match find_char(s, c) {
        Some(i) => Some((take_chars(s, i), skip_chars(s, i + 1))),
        None => None,
    }
}

/// The pieces of `s` between occurrences of `c`.
pub fn split_on<'a>(s: &'a str, c: char) -> (r: Vec<&'a str>)
    ensures
        str_views(r@) == split(s@, c),
        r@.len() >= 1,
{
    let mut out: Vec<&'a str> = Vec::new();
    let mut rest: &'a str = s;
    assert(str_views(out@) =~= Seq::<Seq<char>>::empty());
    assert(str_views(out@) + split(rest@, c) =~= split(s@, c));
    loop
        invariant
            split(s@, c) == str_views(out@) + split(rest@, c),
        decreases rest@.len(),
    {
        proof {
            lemma_first_index(rest@, c);
        }
        match cut_at(rest, c) {
            Some((a, b)) => {
                let ghost before = str_views(out@);
                out.push(a);
                assert(str_views(out@) =~= before.push(a@));
                assert(before + (seq![a@] + split(b@, c)) =~= before.push(a@) + split(b@, c));
                rest = b;
            },
            None => {
                let ghost before = str_views(out@);
                out.push(rest);
                assert(str_views(out@) =~= before + seq![rest@]);
                return out;
            },
        }
    }
}

/// How many characters stand before the first white space.
pub open spec fn word_len(s: Seq<char>) -> int
    decreases s.len(),
{
    if s.len() == 0 || is_white(s[0]) {
        0
    } else {
        1 + word_len(s.skip(1))
    }
}

/// The words of `s`: what stands between white space.
pub open spec fn words(s: Seq<char>) -> Seq<Seq<char>>
    decreases s.len(),
{
    let n = word_len(s);
    if s.len() == 0 {
        Seq::empty()
    } else if n <= 0 || n > s.len() {
        words(s.skip(1))
    } else {
        seq![s.take(n)] + words(s.skip(n))
    }
}

pub proof fn lemma_word_len(s: Seq<char>, n: int)
    requires
        0 <= n <= s.len(),
        forall|j: int| 0 <= j < n ==> !is_white(s[j]),
        n < s.len() ==> is_white(s[n]),
    ensures
        word_len(s) == n,
    decreases s.len(),
{
    if n > 0 {
        let t = s.skip(1);
        assert forall|j: int| 0 <= j < n - 1 implies !is_white(t[j]) by {
            assert(t[j] == s[j + 1]);
        }
        if n < s.len() {
            assert(t[n - 1] == s[n]);
        }
        lemma_word_len(t, n - 1);
    }
}

/// The words of `s`.
pub fn split_words<'a>(s: &'a str) -> (r: Vec<&'a str>)
    ensures
        str_views(r@) == words(s@),
{
    let chars = to_chars(s);
    let mut out: Vec<&'a str> = Vec::new();
    let mut i: usize = 0;
    assert(s@.skip(0) =~= s@);
    assert(str_views(out@) + words(s@) =~= words(s@));
    while i < chars.len()
        invariant
            i <= chars@.len(),
            chars@ == s@,
            words(s@) == str_views(out@) + words(s@.skip(i as int)),
        decreases chars@.len() - i,
    {
        let mut j: usize = i;
        while j < chars.len() && !is_white_space(chars[j])
            invariant
                i <= j <= chars@.len(),
                chars@ == s@,
                forall|k: int| i <= k < j ==> !is_white(s@[k]),
            decreases chars@.len() - j,
        {
            j = j + 1;
        }
        let ghost rest = s@.skip(i as int);
        proof {
            assert forall|k: int| 0 <= k < j - i implies !is_white(rest[k]) by {
                assert(rest[k] == s@[i + k]);
            }
            if j < s@.len() {
                assert(rest[j - i] == s@[j as int]);
            }
            lemma_word_len(rest, j - i);
        }
        if j == i {
            assert(rest.skip(1) =~= s@.skip(i + 1));
            i = i + 1;
        } else {
            let word = take_chars(skip_chars(s, i), j - i);
            let ghost before = str_views(out@);
            out.push(word);
            assert(str_views(out@) =~= before.push(word@));
            assert(rest.skip(j - i) =~= s@.skip(j as int));
            assert(before + (seq![word@] + words(s@.skip(j as int))) =~= before.push(word@)
                + words(s@.skip(j as int)));
            i = j;
        }
    }
    assert(words(s@.skip(i as int)) =~= Seq::empty());
    assert(str_views(out@) + words(s@.skip(i as int)) =~= str_views(out@));
    out
}

// ---------------------------------------------------------------------------
// Trimming

/// A class of characters to trim.
#[derive(Clone, Copy)]
pub enum CharClass {
    /// White space.
    White,
    /// One character.
    Only(char),
}

/// The characters with the Unicode property `White_Space`.
pub open spec fn is_white(c: char) -> bool {
    ||| '\u{9}' <= c <= '\u{d}'
    ||| c == '\u{20}'
    ||| c == '\u{85}'
    ||| c == '\u{a0}'
    ||| c == '\u{1680}'
    ||| '\u{2000}' <= c <= '\u{200a}'
    ||| c == '\u{2028}'
    ||| c == '\u{2029}'
    ||| c == '\u{202f}'
    ||| c == '\u{205f}'
    ||| c == '\u{3000}'
}

/// Whether `c` is white space.
pub fn is_white_space(c: char) -> (r: bool)
    ensures
        r == is_white(c),
{
    ('\u{9}' <= c && c <= '\u{d}') || c == '\u{20}' || c == '\u{85}' || c == '\u{a0}' || c
        == '\u{1680}' || ('\u{2000}' <= c && c <= '\u{200a}') || c == '\u{2028}' || c == '\u{2029}'
        || c == '\u{202f}' || c == '\u{205f}' || c == '\u{3000}'
}

impl CharClass {
    pub open spec fn has(self, c: char) -> bool {
        match self {
            CharClass::White => is_white(c),
            CharClass::Only(x) => c == x,
        }
    }

    /// Whether `c` belongs to the class.
    pub fn contains(&self, c: char) -> (r: bool)
        ensures
            r == self.has(c),
    {
        match self {
            CharClass::White => is_white_space(c),
            CharClass::Only(x) => c == *x,
        }
    }
}

/// `s` without its leading characters of class `k`.
pub open spec fn trim_front(s: Seq<char>, k: CharClass) -> Seq<char>
    decreases s.len(),
{
    if s.len() > 0 && k.has(s[0]) {
        trim_front(s.skip(1), k)
    } else {
        s
    }
}

/// `s` without its trailing characters of class `k`.
pub open spec fn trim_back(s: Seq<char>, k: CharClass) -> Seq<char>
    decreases s.len(),
{
    if s.len() > 0 && k.has(s.last()) {
        trim_back(s.drop_last(), k)
    } else {
        s
    }
}

/// `s` without its leading and trailing characters of class `k`.
pub open spec fn trimmed(s: Seq<char>, k: CharClass) -> Seq<char> {
    trim_back(trim_front(s, k), k)
}

/// `s` without leading and trailing white space.
pub open spec fn trim_white(s: Seq<char>) -> Seq<char> {
    trimmed(s, CharClass::White)
}

/// Trimming leaves alone what neither begins nor ends with the class.
pub proof fn lemma_trim_identity(s: Seq<char>, k: CharClass)
    requires
        s.len() == 0 || (!k.has(s[0]) && !k.has(s.last())),
    ensures
        trim_front(s, k) == s,
        trim_back(s, k) == s,
        trimmed(s, k) == s,
{
}

/// `s` without its leading characters of class `k`.
pub fn trim_start_class<'a>(s: &'a str, k: CharClass) -> (r: &'a str)
    ensures
        r@ == trim_front(s@, k),
{
    let chars = to_chars(s);
    let mut i: usize = 0;
    assert(s@.skip(0) =~= s@);
    while i < chars.len() && k.contains(chars[i])
        invariant
            i <= chars@.len(),
            chars@ == s@,
            trim_front(s@, k) == trim_front(s@.skip(i as int), k),
        decreases chars@.len() - i,
    {
        assert(s@.skip(i as int).skip(1) =~= s@.skip(i + 1));
        i = i + 1;
    }
    skip_chars(s, i)
}

/// `s` without its trailing characters of class `k`.
pub fn trim_end_class<'a>(s: &'a str, k: CharClass) -> (r: &'a str)
    ensures
        r@ == trim_back(s@, k),
{
    let chars = to_chars(s);
    let mut n: usize = chars.len();
    assert(s@.take(n as int) =~= s@);
    while n > 0 && k.contains(chars[n - 1])
        invariant
            n <= chars@.len(),
            chars@ == s@,
            trim_back(s@, k) == trim_back(s@.take(n as int), k),
        decreases n,
    {
        assert(s@.take(n as int).drop_last() =~= s@.take(n - 1));
        n = n - 1;
    }
    take_chars(s, n)
}

/// `s` without its leading and trailing characters of class `k`.
pub fn trim_class<'a>(s: &'a str, k: CharClass) -> (r: &'a str)
    ensures
        r@ == trimmed(s@, k),
{
    trim_end_class(trim_start_class(s, k), k)
}

/// `s` without leading and trailing white space.
pub fn trim<'a>(s: &'a str) -> (r: &'a str)
    ensures
        r@ == trim_white(s@),
{
    trim_class(s, CharClass::White)
}

/// `s` without trailing occurrences of `suffix`.
pub open spec fn trim_suffix(s: Seq<char>, suffix: Seq<char>) -> Seq<char>
    decreases s.len(),
{
    if suffix.len() > 0 && ends(s, suffix) {
        trim_suffix(s.take(s.len() - suffix.len()), suffix)
    } else {
        s
    }
}

/// `s` without trailing occurrences of `suffix`.
pub fn trim_end_str<'a>(s: &'a str, suffix: &str) -> (r: &'a str)
    ensures
        r@ == trim_suffix(s@, suffix@),
{
    let mut rest: &'a str = s;
    if suffix.is_empty() {
        return s;
    }
    loop
        invariant
            suffix@.len() > 0,
            trim_suffix(s@, suffix@) == trim_suffix(rest@, suffix@),
        decreases rest@.len(),
    {
        match strip_suffix(rest, suffix) {
            Some(x) => {
                rest = x;
            },
            None => {
                return rest;
            },
        }
    }
}

/// `s` without leading occurrences of `prefix`.
pub open spec fn trim_prefix(s: Seq<char>, prefix: Seq<char>) -> Seq<char>
    decreases s.len(),
{
    if prefix.len() > 0 && begins(s, prefix) {
        trim_prefix(s.skip(prefix.len() as int), prefix)
    } else {
        s
    }
}

/// `s` without leading occurrences of `prefix`.
pub fn trim_start_str<'a>(s: &'a str, prefix: &str) -> (r: &'a str)
    ensures
        r@ == trim_prefix(s@, prefix@),
{
    let mut rest: &'a str = s;
    if prefix.is_empty() {
        return s;
    }
    loop
        invariant
            prefix@.len() > 0,
            trim_prefix(s@, prefix@) == trim_prefix(rest@, prefix@),
        decreases rest@.len(),
    {
        match strip_prefix(rest, prefix) {
            Some(x) => {
                rest = x;
            },
            None => {
                return rest;
            },
        }
    }
}

// ---------------------------------------------------------------------------
// Lengths in bytes

/// Whether `s` has at most `n` bytes, or its first `n` bytes end with a whole character.
pub open spec fn clips_at(s: Seq<char>, n: int) -> bool {
    encode_utf8(s).len() <= n || is_char_boundary(encode_utf8(s), n)
}

/// The first `n` bytes of `s`; all of it where it has no more.
pub open spec fn clip_bytes(s: Seq<char>, n: int) -> Seq<char> {
    if encode_utf8(s).len() <= n {
        s
    } else {
        decode_utf8(encode_utf8(s).take(n))
    }
}

/// The first `n` bytes of `s`; all of it where it has no more.
pub fn clip<'a>(s: &'a str, n: usize) -> (r: &'a str)
    requires
        clips_at(s@, n as int),
    ensures
        r@ == clip_bytes(s@, n as int),
{
    if s.as_bytes().len() <= n {
        s
    } else {
        let r = s.split_at(n).0;
        proof {
            encode_utf8_decode_utf8(r@);
            assert(encode_utf8(s@).subrange(0, n as int) =~= encode_utf8(s@).take(n as int));
        }
        r
    }
}

/// Whether `s` can be clipped after `n` bytes.
pub fn can_clip(s: &str, n: usize) -> (r: bool)
    ensures
        r == clips_at(s@, n as int),
{
    s.as_bytes().len() <= n || s.is_char_boundary(n)
}

/// A text of one-byte characters can be clipped anywhere, and its first `n` bytes are its first
/// `n` characters.
pub proof fn ascii_clips_anywhere(s: Seq<char>, n: int)
    requires
        is_ascii_chars(s),
        0 <= n,
    ensures
        encode_utf8(s).len() == s.len(),
        clips_at(s, n),
        clip_bytes(s, n) == (if s.len() <= n {
            s
        } else {
            s.take(n)
        }),
{
    is_ascii_chars_encode_utf8(s);
    if s.len() > n {
        let t = s.take(n);
        assert(is_ascii_chars(t));
        is_ascii_chars_encode_utf8(t);
        assert(encode_utf8(s).take(n) =~= encode_utf8(t));
        encode_utf8_decode_utf8(t);
        let b = encode_utf8(s);
        encode_utf8_valid_utf8(s);
        is_char_boundary_iff_not_is_continuation_byte(b, n);
        assert(b[n] == s[n] as u8);
        utf8_byte_ranges_bitwise(b[n]);
    }
}

// ---------------------------------------------------------------------------
// Decimal numerals

/// The character of a decimal digit.
pub open spec fn digit_char(d: nat) -> char {
    ((48 + d) as u8) as char
}

pub open spec fn is_digit(c: char) -> bool {
    '0' <= c <= '9'
}

/// The value of a decimal digit.
pub open spec fn digit_value(c: char) -> nat {
    (c as nat - 48) as nat
}

/// The decimal numeral of `n`.
pub open spec fn dec(n: nat) -> Seq<char>
    decreases n,
{
    if n < 10 {
        seq![digit_char(n)]
    } else {
        dec(n / 10).push(digit_char(n % 10))
    }
}

/// The decimal numeral of `n`, with a minus sign where it is negative.
pub open spec fn dec_int(n: int) -> Seq<char> {
    if n < 0 {
        seq!['-'] + dec((-n) as nat)
    } else {
        dec(n as nat)
    }
}

pub open spec fn all_digits(s: Seq<char>) -> bool {
    forall|i: int| 0 <= i < s.len() ==> is_digit(#[trigger] s[i])
}

/// The number that a sequence of digits denotes.
pub open spec fn digits_value(s: Seq<char>) -> nat
    decreases s.len(),
{
    if s.len() == 0 {
        0
    } else {
        10 * digits_value(s.drop_last()) + digit_value(s.last())
    }
}

/// The unsigned number up to `max` that `s` denotes: digits, perhaps after a plus sign.
pub open spec fn parse_unsigned(s: Seq<char>, max: nat) -> Option<nat> {
    let t = if s.len() > 0 && s[0] == '+' {
        s.skip(1)
    } else {
        s
    };
    if t.len() > 0 && all_digits(t) && digits_value(t) <= max {
        Some(digits_value(t))
    } else {
        None
    }
}

/// The 64-bit signed number that `s` denotes: digits, perhaps after a sign.
pub open spec fn parse_signed(s: Seq<char>) -> Option<int> {
    if s.len() > 0 && s[0] == '-' {
        let t = s.skip(1);
        if t.len() > 0 && all_digits(t) && digits_value(t) <= 0x8000_0000_0000_0000 {
            Some(-(digits_value(t) as int))
        } else {
            None
        }
    } else {
        match parse_unsigned(s, 0x7fff_ffff_ffff_ffff) {
            Some(n) => Some(n as int),
            None => None,
        }
    }
}

proof fn lemma_digit_char(d: nat)
    requires
        d < 10,
    ensures
        is_digit(digit_char(d)),
        digit_value(digit_char(d)) == d,
        digit_char(d) != '+',
        digit_char(d) != '-',
{
}

/// The numeral of `n` consists of digits and denotes `n`.
pub proof fn lemma_dec_value(n: nat)
    ensures
        dec(n).len() > 0,
        all_digits(dec(n)),
        digits_value(dec(n)) == n,
    decreases n,
{
    if n < 10 {
        lemma_digit_char(n);
        assert(dec(n).drop_last() =~= Seq::<char>::empty());
        assert(digits_value(dec(n).drop_last()) == 0);
    } else {
        lemma_dec_value(n / 10);
        lemma_digit_char(n % 10);
        assert(dec(n).drop_last() =~= dec(n / 10));
    }
}

/// Reading back a written signed number gives the number.
pub proof fn lemma_parse_dec_int(n: int)
    requires
        -0x8000_0000_0000_0000 <= n <= 0x7fff_ffff_ffff_ffff,
    ensures
        parse_signed(dec_int(n)) == Some(n),
{
    if n < 0 {
        lemma_dec_value((-n) as nat);
        assert(dec_int(n).skip(1) =~= dec((-n) as nat));
    } else {
        lemma_dec_value(n as nat);
        assert(is_digit(dec(n as nat)[0]));
    }
}

/// Reading back a written unsigned number gives the number.
pub proof fn lemma_parse_dec(n: nat, max: nat)
    requires
        n <= max,
    ensures
        parse_unsigned(dec(n), max) == Some(n),
{
    lemma_dec_value(n);
    assert(is_digit(dec(n)[0]));
}

proof fn lemma_digits_prefix(s: Seq<char>, i: int)
    requires
        0 <= i <= s.len(),
        all_digits(s),
    ensures
        digits_value(s.take(i)) <= digits_value(s),
    decreases s.len() - i,
{
    if i == s.len() {
        assert(s.take(i) =~= s);
    } else {
        lemma_digits_prefix(s, i + 1);
        assert(s.take(i + 1).drop_last() =~= s.take(i));
    }
}

/// The decimal numeral of an unsigned number.
pub fn u128_text(n: u128) -> (r: String)
    ensures
        r@ == dec(n as nat),
    decreases n,
{
    let mut s = if n < 10 {
        String::new()
    } else {
        u128_text(n / 10)
    };
    let d: u8 = (n % 10) as u8;
    s.push((48 + d) as char);
    assert(n < 10 ==> s@ =~= dec(n as nat));
    s
}

/// The decimal numeral of an unsigned number.
pub fn u64_text(n: u64) -> (r: String)
    ensures
        r@ == dec(n as nat),
{
    u128_text(n as u128)
}

/// The decimal numeral of a signed number.
pub fn i64_text(n: i64) -> (r: String)
    ensures
        r@ == dec_int(n as int),
{
    if n < 0 {
        let mut s = String::new();
        s.push('-');
        let m: u64 = if n == i64::MIN {
            0x8000_0000_0000_0000
        } else {
            (-n) as u64
        };
        let t = u64_text(m);
        s.append(t.as_str());
        assert(s@ =~= dec_int(n as int));
        s
    } else {
        u64_text(n as u64)
    }
}

/// The value of the digits `chars[from..]`, where there are any, all are digits and the value
/// is at most `max`.
fn read_digits(chars: &Vec<char>, from: usize, max: u64) -> (r: Option<u64>)
    requires
        from <= chars@.len(),
    ensures
        ({
            let t = chars@.skip(from as int);
            match r {
                Some(n) => t.len() > 0 && all_digits(t) && digits_value(t) == n && n <= max,
                None => !(t.len() > 0 && all_digits(t) && digits_value(t) <= max),
            }
        }),
{
    if from == chars.len() {
        return None;
    }
    let ghost t = chars@.skip(from as int);
    let mut acc: u64 = 0;
    let mut i: usize = from;
    assert(t.take(0) =~= Seq::<char>::empty());
    while i < chars.len()
        invariant
            from <= i <= chars@.len(),
            t == chars@.skip(from as int),
            all_digits(t.take(i - from)),
            acc == digits_value(t.take(i - from)),
            acc <= max,
        decreases chars@.len() - i,
    {
        let c = chars[i];
        assert(t[i - from] == c);
        if c < '0' || c > '9' {
            return None;
        }
        let d: u64 = c as u64 - 48;
        proof {
            assert(t.take(i + 1 - from).drop_last() =~= t.take(i - from));
            assert(t.take(i + 1 - from).last() == c);
        }
        if acc > (u64::MAX - d) / 10 || acc * 10 + d > max {
            proof {
                if all_digits(t) {
                    lemma_digits_prefix(t, i + 1 - from);
                }
            }
            return None;
        }
        acc = acc * 10 + d;
        proof {
            assert forall|j: int| 0 <= j < t.take(i + 1 - from).len() implies is_digit(
                #[trigger] t.take(i + 1 - from)[j],
            ) by {
                if j < i - from {
                    assert(t.take(i + 1 - from)[j] == t.take(i - from)[j]);
                }
            }
        }
        i = i + 1;
    }
    assert(t.take(i - from) =~= t);
    Some(acc)
}

/// The unsigned number up to `max` that `s` denotes.
pub fn parse_u64(s: &str, max: u64) -> (r: Option<u64>)
    ensures
        match r {
            Some(n) => parse_unsigned(s@, max as nat) == Some(n as nat),
            None => parse_unsigned(s@, max as nat) is None,
        },
{
    let chars = to_chars(s);
    if chars.len() > 0 && chars[0] == '+' {
        read_digits(&chars, 1, max)
    } else {
        assert(chars@.skip(0) =~= s@);
        read_digits(&chars, 0, max)
    }
}

/// The 64-bit signed number that `s` denotes.
pub fn parse_i64(s: &str) -> (r: Option<i64>)
    ensures
        match r {
            Some(n) => parse_signed(s@) == Some(n as int),
            None => parse_signed(s@) is None,
        },
{
    let chars = to_chars(s);
    if chars.len() > 0 && chars[0] == '-' {
        match read_digits(&chars, 1, 0x8000_0000_0000_0000) {
            Some(n) => {
                if n == 0x8000_0000_0000_0000 {
                    Some(i64::MIN)
                } else {
                    Some(-(n as i64))
                }
            },
            None => None,
        }
    } else {
        match parse_u64(s, 0x7fff_ffff_ffff_ffff) {
            Some(n) => Some(n as i64),
            None => None,
        }
    }
}

} // verus!
