//! What holds of every text that is cut, split, trimmed or clipped.

use vstd::prelude::*;
use vstd::utf8::*;

use crate::text::{
    begins, clip_bytes, clips_at, cut, first_index, has_char, is_white, lemma_first_index, position_of,
    split, trim_back, trim_front, trimmed, word_len, words,
    CharClass,
};

verus! {

/// Texts with `c` between them.
pub open spec fn joined(parts: Seq<Seq<char>>, c: char) -> Seq<char>
    decreases parts.len(),
{
    if parts.len() == 0 {
        Seq::empty()
    } else if parts.len() == 1 {
        parts[0]
    } else {
        parts[0] + seq![c] + joined(parts.skip(1), c)
    }
}

/// The parts of a text that was split, joined again, give the text, and none of them holds the
/// separator.
pub proof fn split_parts_join(s: Seq<char>, c: char)
    ensures
        split(s, c).len() > 0,
        joined(split(s, c), c) == s,
        forall|i: int| 0 <= i < split(s, c).len() ==> !has_char(#[trigger] split(s, c)[i], c),
    decreases s.len(),
{
    lemma_first_index(s, c);
    let i = first_index(s, c);
    let parts = split(s, c);
    if 0 <= i < s.len() {
        let rest = s.skip(i + 1);
        split_parts_join(rest, c);
        let others = split(rest, c);
        assert(parts.skip(1) =~= others);
        assert(parts[0] == s.take(i));
        assert(s =~= s.take(i) + seq![c] + rest);
        assert forall|j: int| 0 <= j < parts.len() implies !has_char(#[trigger] parts[j], c) by {
            if j == 0 {
                if has_char(s.take(i), c) {
                    let k = choose|k: int| 0 <= k < s.take(i).len() && s.take(i)[k] == c;
                    assert(s[k] == c);
                }
            } else {
                assert(parts[j] == others[j - 1]);
            }
        }
    } else {
        assert(parts =~= seq![s]);
        if has_char(s, c) {
            let k = choose|k: int| 0 <= k < s.len() && s[k] == c;
            assert(s[k] == c);
        }
    }
}

/// A cut divides a text at the first place where the separator stands, and fails only where it
/// stands nowhere.
pub proof fn cut_divides_at_the_first(s: Seq<char>, c: char)
    ensures
        match cut(s, c) {
            Some((a, b)) => s == a + seq![c] + b && !has_char(a, c),
            None => !has_char(s, c),
        },
{
    lemma_first_index(s, c);
    let i = first_index(s, c);
    match cut(s, c) {
        Some((a, b)) => {
            assert(s =~= a + seq![c] + b);
            if has_char(a, c) {
                let k = choose|k: int| 0 <= k < a.len() && a[k] == c;
                assert(s[k] == c);
            }
        },
        None => {
            if has_char(s, c) {
                let k = choose|k: int| 0 <= k < s.len() && s[k] == c;
                assert(s[k] == c);
            }
        },
    }
}

proof fn lemma_trim_front(s: Seq<char>, k: CharClass) -> (i: int)
    ensures
        0 <= i <= s.len(),
        trim_front(s, k) == s.skip(i),
        forall|j: int| 0 <= j < i ==> k.has(#[trigger] s[j]),
        i < s.len() ==> !k.has(s[i]),
    decreases s.len(),
{
    if s.len() > 0 && k.has(s[0]) {
        let rest = s.skip(1);
        let i = lemma_trim_front(rest, k);
        assert(rest.skip(i) =~= s.skip(i + 1));
        assert forall|j: int| 0 <= j < i + 1 implies k.has(#[trigger] s[j]) by {
            if j > 0 {
                assert(k.has(rest[j - 1]));
            }
        }
        if i + 1 < s.len() {
            assert(rest[i] == s[i + 1]);
        }
        i + 1
    } else {
        assert(s.skip(0) =~= s);
        0
    }
}

proof fn lemma_trim_back(s: Seq<char>, k: CharClass) -> (i: int)
    ensures
        0 <= i <= s.len(),
        trim_back(s, k) == s.take(i),
        forall|j: int| i <= j < s.len() ==> k.has(#[trigger] s[j]),
        i > 0 ==> !k.has(s[i - 1]),
    decreases s.len(),
{
    if s.len() > 0 && k.has(s.last()) {
        let init = s.drop_last();
        let i = lemma_trim_back(init, k);
        assert(init.take(i) =~= s.take(i));
        assert forall|j: int| i <= j < s.len() implies k.has(#[trigger] s[j]) by {
            if j < init.len() {
                assert(k.has(init[j]));
            }
        }
        i
    } else {
        assert(s.take(s.len() as int) =~= s);
        s.len() as int
    }
}

/// Trimming takes away what belongs to the class at both ends, all of it and nothing else.
pub proof fn trim_takes_the_ends(s: Seq<char>, k: CharClass)
    ensures
        exists|i: int, j: int|
            {
                &&& 0 <= i <= j <= s.len()
                &&& trimmed(s, k) == #[trigger] s.subrange(i, j)
                &&& forall|x: int| 0 <= x < i ==> k.has(#[trigger] s[x])
                &&& forall|x: int| j <= x < s.len() ==> k.has(#[trigger] s[x])
                &&& i < j ==> !k.has(s[i]) && !k.has(s[j - 1])
            },
{
    let i = lemma_trim_front(s, k);
    let t = s.skip(i);
    let n = lemma_trim_back(t, k);
    let j = i + n;
    assert(t.take(n) =~= s.subrange(i, j));
    assert forall|x: int| j <= x < s.len() implies k.has(#[trigger] s[x]) by {
        assert(k.has(t[x - i]));
    }
    if n > 0 {
        assert(t[n - 1] == s[j - 1]);
    }
    assert(trimmed(s, k) == s.subrange(i, j));
}

proof fn lemma_word_len(s: Seq<char>)
    ensures
        0 <= word_len(s) <= s.len(),
        forall|i: int| 0 <= i < word_len(s) ==> !is_white(#[trigger] s[i]),
        word_len(s) < s.len() ==> is_white(s[word_len(s)]),
    decreases s.len(),
{
    if s.len() > 0 && !is_white(s[0]) {
        let rest = s.skip(1);
        lemma_word_len(rest);
        assert forall|i: int| 0 <= i < word_len(s) implies !is_white(#[trigger] s[i]) by {
            if i > 0 {
                assert(!is_white(rest[i - 1]));
            }
        }
    }
}

proof fn lemma_word_len_at(s: Seq<char>, n: int)
    requires
        0 <= n <= s.len(),
        forall|i: int| 0 <= i < n ==> !is_white(#[trigger] s[i]),
        n < s.len() ==> is_white(s[n]),
    ensures
        word_len(s) == n,
{
    lemma_word_len(s);
    let m = word_len(s);
    if m < n {
        assert(!is_white(s[m]));
    } else if n < m {
        assert(!is_white(s[n]));
    }
}

/// White space divides words and nothing else does: the words on both sides of a white character
/// are those of the whole, in order, a text without white space is one word, and no word is empty
/// or holds white space.
pub proof fn words_are_divided_by_white_space(a: Seq<char>, c: char, b: Seq<char>)
    requires
        is_white(c),
    ensures
        words(a + seq![c] + b) == words(a) + words(b),
    decreases a.len(),
{
    let s = a + seq![c] + b;
    if a.len() == 0 {
        assert(s.skip(1) =~= b);
        assert(s[0] == c);
        assert(word_len(s) == 0);
        assert(words(a) + words(b) =~= words(b));
    } else {
        lemma_word_len(a);
        let n = word_len(a);
        assert forall|i: int| 0 <= i < n implies !is_white(#[trigger] s[i]) by {
            assert(s[i] == a[i]);
        }
        assert(s[n] == if n < a.len() {
            a[n]
        } else {
            c
        });
        lemma_word_len_at(s, n);
        if n == 0 {
            words_are_divided_by_white_space(a.skip(1), c, b);
            assert(s.skip(1) =~= a.skip(1) + seq![c] + b);
        } else {
            words_are_divided_by_white_space(a.skip(n), c, b);
            assert(s.skip(n) =~= a.skip(n) + seq![c] + b);
            assert(s.take(n) =~= a.take(n));
            assert(seq![a.take(n)] + (words(a.skip(n)) + words(b)) =~= seq![a.take(n)] + words(
                a.skip(n),
            ) + words(b));
        }
    }
}

/// A text without white space is one word.
pub proof fn unbroken_text_is_one_word(s: Seq<char>)
    requires
        s.len() > 0,
        forall|i: int| 0 <= i < s.len() ==> !is_white(#[trigger] s[i]),
    ensures
        words(s) == seq![s],
        words(Seq::empty()) == Seq::<Seq<char>>::empty(),
{
    lemma_word_len_at(s, s.len() as int);
    assert(s.take(s.len() as int) =~= s);
    let rest = s.skip(s.len() as int);
    assert(rest.len() == 0);
    assert(words(rest) == Seq::<Seq<char>>::empty());
    assert(words(s) == seq![s.take(s.len() as int)] + words(rest));
    assert(words(s) =~= seq![s]);
}

/// A clipped text is the beginning of the whole: all of it where it has no more bytes, else exactly
/// so many bytes.
pub proof fn clipping_keeps_the_beginning(s: Seq<char>, n: int)
    requires
        0 <= n,
        clips_at(s, n),
    ensures
        encode_utf8(s).len() <= n ==> clip_bytes(s, n) == s,
        encode_utf8(s).len() > n ==> encode_utf8(clip_bytes(s, n)) == encode_utf8(s).take(n),
{
    if encode_utf8(s).len() > n {
        encode_utf8_valid_utf8(s);
        let b = encode_utf8(s);
        valid_utf8_split(b, n);
        assert(b.subrange(0, n) =~= b.take(n));
        decode_utf8_encode_utf8(b.take(n));
    }
}

/// A pattern is found where it first stands, and missed only where it stands nowhere.
pub proof fn patterns_are_found_first(s: Seq<char>, pattern: Seq<char>)
    ensures
        match position_of(s, pattern) {
            Some(i) => 0 <= i <= s.len() && begins(s.skip(i), pattern) && forall|j: int|
                0 <= j < i ==> !begins(#[trigger] s.skip(j), pattern),
            None => forall|j: int| 0 <= j <= s.len() ==> !begins(#[trigger] s.skip(j), pattern),
        },
    decreases s.len(),
{
    assert(s.skip(0) =~= s);
    if !begins(s, pattern) && s.len() > 0 {
        let rest = s.skip(1);
        patterns_are_found_first(rest, pattern);
        assert forall|j: int| 1 <= j <= s.len() implies #[trigger] s.skip(j) == rest.skip(j - 1) by {
            assert(s.skip(j) =~= rest.skip(j - 1));
        }
        match position_of(rest, pattern) {
            Some(i) => {
                assert forall|j: int| 0 <= j < i + 1 implies !begins(#[trigger] s.skip(j), pattern) by {
                    if j > 0 {
                        assert(s.skip(j) == rest.skip(j - 1));
                    }
                }
                assert(s.skip(i + 1) == rest.skip(i));
            },
            None => {
                assert forall|j: int| 0 <= j <= s.len() implies !begins(
                    #[trigger] s.skip(j),
                    pattern,
                ) by {
                    if j > 0 {
                        assert(s.skip(j) == rest.skip(j - 1));
                    }
                }
            },
        }
    }
}

} // verus!
