//! Text primitives on sequences of characters: whitespace, trimming,
//! substring search, splitting on a separator and splitting into words.
//!
//! The contracts speak of `Seq<char>`; the executable functions work on
//! slices of characters, so that every piece they hand out is a sub-slice of
//! the input.

use vstd::prelude::*;
use vstd::slice::slice_subrange;

verus! {

/// Whether `c` has the Unicode property `White_Space`.
pub open spec fn is_whitespace(c: char) -> bool {
    let n = c as u32;
    ||| 0x09 <= n <= 0x0D
    ||| n == 0x20
    ||| n == 0x85
    ||| n == 0xA0
    ||| n == 0x1680
    ||| 0x2000 <= n <= 0x200A
    ||| n == 0x2028
    ||| n == 0x2029
    ||| n == 0x202F
    ||| n == 0x205F
    ||| n == 0x3000
}

/// `s` without its leading whitespace.
pub open spec fn trim_start(s: Seq<char>) -> Seq<char>
    decreases s.len(),
{
    if s.len() > 0 && is_whitespace(s.first()) {
        trim_start(s.drop_first())
    } else {
        s
    }
}

/// `s` without its trailing whitespace.
pub open spec fn trim_end(s: Seq<char>) -> Seq<char>
    decreases s.len(),
{
    if s.len() > 0 && is_whitespace(s.last()) {
        trim_end(s.drop_last())
    } else {
        s
    }
}

/// `s` without its leading and trailing whitespace.
pub open spec fn trim(s: Seq<char>) -> Seq<char> {
    trim_end(trim_start(s))
}

/// Whether `pat` stands in `s` at index `i`.
pub open spec fn occurs_at(s: Seq<char>, pat: Seq<char>, i: int) -> bool {
    &&& 0 <= i
    &&& i + pat.len() <= s.len()
    &&& s.subrange(i, i + pat.len()) == pat
}

/// Whether `pat` stands somewhere in `s`.
pub open spec fn contains(s: Seq<char>, pat: Seq<char>) -> bool {
    exists|i: int| occurs_at(s, pat, i)
}

/// Whether `i` is the leftmost index at which `pat` stands in `s`.
pub open spec fn is_first(s: Seq<char>, pat: Seq<char>, i: int) -> bool {
    &&& occurs_at(s, pat, i)
    &&& forall|j: int| 0 <= j < i ==> !occurs_at(s, pat, j)
}

/// The leftmost index at which `pat` stands in `s`, where it stands in `s`
/// at all.
pub open spec fn first_index(s: Seq<char>, pat: Seq<char>) -> int {
    choose|i: int| is_first(s, pat, i)
}

/// The pieces of `s` between the occurrences of `sep`, found from left to
/// right without overlap. There is always at least one piece; an empty
/// separator separates nothing.
pub open spec fn split(s: Seq<char>, sep: Seq<char>) -> Seq<Seq<char>>
    decreases s.len(),
    via split_decreases
{
    if sep.len() > 0 && contains(s, sep) {
        let i = first_index(s, sep);
        seq![s.take(i)] + split(s.skip(i + sep.len()), sep)
    } else {
        seq![s]
    }
}

#[via_fn]
proof fn split_decreases(s: Seq<char>, sep: Seq<char>) {
    if sep.len() > 0 && contains(s, sep) {
        lemma_first_index_exists(s, sep);
    }
}

/// The texts `pieces` in a row, with `sep` between each two of them.
pub open spec fn join(pieces: Seq<Seq<char>>, sep: Seq<char>) -> Seq<char>
    decreases pieces.len(),
{
    if pieces.len() == 0 {
        Seq::empty()
    } else if pieces.len() == 1 {
        pieces[0]
    } else {
        pieces[0] + sep + join(pieces.drop_first(), sep)
    }
}

/// The number of characters before the first whitespace of `s`.
pub open spec fn word_len(s: Seq<char>) -> nat
    decreases s.len(),
{
    if s.len() > 0 && !is_whitespace(s.first()) {
        1 + word_len(s.drop_first())
    } else {
        0
    }
}

/// The maximal runs of non-whitespace characters of `s`, in order. None of
/// them is empty.
pub open spec fn words(s: Seq<char>) -> Seq<Seq<char>>
    decreases s.len(),
    via words_decreases
{
    if s.len() == 0 {
        Seq::empty()
    } else if is_whitespace(s.first()) {
        words(s.drop_first())
    } else {
        seq![s.take(word_len(s) as int)] + words(s.skip(word_len(s) as int))
    }
}

#[via_fn]
proof fn words_decreases(s: Seq<char>) {
    lemma_word_len_bounds(s);
}

/// A word is no longer than the text it starts, and is not empty where the
/// text starts with a character that is no whitespace.
pub proof fn lemma_word_len_bounds(s: Seq<char>)
    ensures
        word_len(s) <= s.len(),
        s.len() > 0 && !is_whitespace(s.first()) ==> word_len(s) >= 1,
    decreases s.len(),
{
    if s.len() > 0 && !is_whitespace(s.first()) {
        lemma_word_len_bounds(s.drop_first());
    }
}

/// Where `pat` stands at `k`, some index up to `k` is the leftmost at which it stands.
proof fn lemma_least_occurrence(s: Seq<char>, pat: Seq<char>, k: int)
    requires
        occurs_at(s, pat, k),
    ensures
        exists|i: int| 0 <= i <= k && is_first(s, pat, i),
    decreases k,
{
    if exists|j: int| 0 <= j < k && occurs_at(s, pat, j) {
        let j = choose|j: int| 0 <= j < k && occurs_at(s, pat, j);
        lemma_least_occurrence(s, pat, j);
    } else {
        assert(is_first(s, pat, k));
    }
}

/// Where `pat` stands in `s`, `first_index` is the leftmost index at which it does.
pub proof fn lemma_first_index_exists(s: Seq<char>, pat: Seq<char>)
    requires
        contains(s, pat),
    ensures
        is_first(s, pat, first_index(s, pat)),
{
    let k = choose|k: int| occurs_at(s, pat, k);
    lemma_least_occurrence(s, pat, k);
}

/// The leftmost occurrence is unique: an index that is leftmost is `first_index`.
pub proof fn lemma_first_index_is(s: Seq<char>, pat: Seq<char>, i: int)
    requires
        is_first(s, pat, i),
    ensures
        contains(s, pat),
        first_index(s, pat) == i,
{
    let j = first_index(s, pat);
    assert(is_first(s, pat, j));
    if j < i {
        assert(!occurs_at(s, pat, j));
    } else if i < j {
        assert(!occurs_at(s, pat, i));
    }
}

/// Splitting loses nothing: the pieces, with the separator put back between
/// them, are the text.
pub proof fn law_split_joins(s: Seq<char>, sep: Seq<char>)
    ensures
        split(s, sep).len() >= 1,
        join(split(s, sep), sep) == s,
    decreases s.len(),
{
    if sep.len() > 0 && contains(s, sep) {
        lemma_first_index_exists(s, sep);
        let i = first_index(s, sep);
        let rest = s.skip(i + sep.len());
        law_split_joins(rest, sep);
        assert(split(s, sep).drop_first() == split(rest, sep));
        assert(s.subrange(i, i + sep.len()) == sep);
        assert(s.take(i) + sep + rest == s);
    }
}

/// No piece holds the separator.
pub proof fn law_pieces_hold_no_separator(s: Seq<char>, sep: Seq<char>, k: int)
    requires
        sep.len() > 0,
        0 <= k < split(s, sep).len(),
    ensures
        !contains(split(s, sep)[k], sep),
    decreases s.len(),
{
    if contains(s, sep) {
        lemma_first_index_exists(s, sep);
        let i = first_index(s, sep);
        if k == 0 {
            let piece = s.take(i);
            if contains(piece, sep) {
                let j = choose|j: int| occurs_at(piece, sep, j);
                assert(piece.subrange(j, j + sep.len()) == s.subrange(j, j + sep.len()));
                assert(occurs_at(s, sep, j));
            }
        } else {
            let rest = s.skip(i + sep.len());
            law_pieces_hold_no_separator(rest, sep, k - 1);
            assert(split(s, sep)[k] == split(rest, sep)[k - 1]);
        }
    }
}

/// Trimming takes a text's leading characters away and nothing else.
pub proof fn lemma_trim_start_is_suffix(s: Seq<char>)
    ensures
        trim_start(s).len() <= s.len(),
        trim_start(s) == s.skip(s.len() - trim_start(s).len()),
    decreases s.len(),
{
    if s.len() > 0 && is_whitespace(s.first()) {
        let t = s.drop_first();
        lemma_trim_start_is_suffix(t);
        assert(t.skip(t.len() - trim_start(t).len()) == s.skip(s.len() - trim_start(s).len()));
    } else {
        assert(s.skip(0) == s);
    }
}

/// Trimming takes a text's trailing characters away and nothing else.
pub proof fn lemma_trim_end_is_prefix(s: Seq<char>)
    ensures
        trim_end(s).len() <= s.len(),
        trim_end(s) == s.take(trim_end(s).len() as int),
    decreases s.len(),
{
    if s.len() > 0 && is_whitespace(s.last()) {
        let t = s.drop_last();
        lemma_trim_end_is_prefix(t);
        assert(t.take(trim_end(t).len() as int) == s.take(trim_end(s).len() as int));
    } else {
        assert(s.take(s.len() as int) == s);
    }
}

/// What stands in the trimmed text stands in the text.
pub proof fn lemma_trim_keeps_nothing_new(s: Seq<char>, pat: Seq<char>)
    requires
        contains(trim(s), pat),
    ensures
        contains(s, pat),
{
    let t = trim_start(s);
    lemma_trim_start_is_suffix(s);
    lemma_trim_end_is_prefix(t);
    let i = choose|i: int| occurs_at(trim(s), pat, i);
    let a = s.len() - t.len();
    assert(trim(s).subrange(i, i + pat.len()) == s.subrange(a + i, a + i + pat.len()));
    assert(occurs_at(s, pat, a + i));
}

/// A trimmed text neither starts nor ends with whitespace.
pub proof fn law_trim_is_tight(s: Seq<char>)
    ensures
        trim(s).len() > 0 ==> !is_whitespace(trim(s).first()) && !is_whitespace(trim(s).last()),
{
    lemma_trim_start_is_tight(s);
    lemma_trim_end_is_tight(trim_start(s));
    lemma_trim_end_is_prefix(trim_start(s));
}

proof fn lemma_trim_start_is_tight(s: Seq<char>)
    ensures
        trim_start(s).len() > 0 ==> !is_whitespace(trim_start(s).first()),
    decreases s.len(),
{
    if s.len() > 0 && is_whitespace(s.first()) {
        lemma_trim_start_is_tight(s.drop_first());
    }
}

proof fn lemma_trim_end_is_tight(s: Seq<char>)
    ensures
        trim_end(s).len() > 0 ==> !is_whitespace(trim_end(s).last()),
    decreases s.len(),
{
    if s.len() > 0 && is_whitespace(s.last()) {
        lemma_trim_end_is_tight(s.drop_last());
    }
}

/// The characters of a text before its first whitespace are no whitespace.
proof fn lemma_word_is_clean(s: Seq<char>, j: int)
    requires
        0 <= j < word_len(s),
    ensures
        j < s.len(),
        !is_whitespace(s[j]),
    decreases s.len(),
{
    if j > 0 {
        lemma_word_is_clean(s.drop_first(), j - 1);
    }
}

/// No word is empty, and no word holds whitespace.
pub proof fn law_words_are_clean(s: Seq<char>, i: int)
    requires
        0 <= i < words(s).len(),
    ensures
        words(s)[i].len() > 0,
        forall|j: int| 0 <= j < words(s)[i].len() ==> !is_whitespace(#[trigger] words(s)[i][j]),
    decreases s.len(),
{
    if s.len() == 0 {
    } else if is_whitespace(s.first()) {
        law_words_are_clean(s.drop_first(), i);
    } else {
        lemma_word_len_bounds(s);
        let n = word_len(s) as int;
        if i == 0 {
            assert forall|j: int| 0 <= j < words(s)[0].len() implies !is_whitespace(
                #[trigger] words(s)[0][j],
            ) by {
                lemma_word_is_clean(s, j);
            }
        } else {
            law_words_are_clean(s.skip(n), i - 1);
            assert(words(s)[i] == words(s.skip(n))[i - 1]);
        }
    }
}

/// A text has no word exactly where all of it is whitespace.
pub proof fn law_blank_has_no_words(s: Seq<char>)
    ensures
        words(s).len() == 0 <==> forall|j: int| 0 <= j < s.len() ==> is_whitespace(s[j]),
    decreases s.len(),
{
    if s.len() > 0 && is_whitespace(s.first()) {
        let t = s.drop_first();
        law_blank_has_no_words(t);
        if forall|j: int| 0 <= j < s.len() ==> is_whitespace(s[j]) {
            assert forall|j: int| 0 <= j < t.len() implies is_whitespace(t[j]) by {
                assert(t[j] == s[j + 1]);
            }
        }
        if forall|j: int| 0 <= j < t.len() ==> is_whitespace(t[j]) {
            assert forall|j: int| 0 <= j < s.len() implies is_whitespace(s[j]) by {
                if j > 0 {
                    assert(s[j] == t[j - 1]);
                }
            }
        }
    }
}

/// Tells whether `c` is whitespace.
pub fn is_space(c: char) -> (b: bool)
    ensures
        b == is_whitespace(c),
{
    let n: u32 = c as u32;
    (0x09 <= n && n <= 0x0D) || n == 0x20 || n == 0x85 || n == 0xA0 || n == 0x1680 || (0x2000 <= n
        && n <= 0x200A) || n == 0x2028 || n == 0x2029 || n == 0x202F || n == 0x205F || n == 0x3000
}

/// The characters of `s`, in order.
pub fn chars_of(s: &str) -> (v: Vec<char>)
    ensures
        v@ == s@,
{
    broadcast use vstd::string::axiom_spec_iter;

    let mut v: Vec<char> = Vec::new();
    for c in it: s.chars()
        invariant
            it.seq() == s@,
            v@ == s@.take(it.index()),
    {
        v.push(c);
    }
    v
}

/// `String::push` appends one character to the end of the string.
pub assume_specification[ String::push ](s: &mut String, c: char)
    ensures
        final(s)@ == old(s)@.push(c),
;

/// The string made of the characters of `s`.
pub fn string_of(s: &[char]) -> (r: String)
    ensures
        r@ == s@,
{
    let mut r = String::new();
    let mut i: usize = 0;
    while i < s.len()
        invariant
            i <= s.len(),
            r@ == s@.take(i as int),
        decreases s.len() - i,
    {
        r.push(s[i]);
        i += 1;
    }
    r
}

/// Tells whether two texts hold the same characters.
pub fn same_text(a: &[char], b: &[char]) -> (r: bool)
    ensures
        r == (a@ == b@),
{
    if a.len() != b.len() {
        return false;
    }
    let mut i: usize = 0;
    while i < a.len()
        invariant
            a.len() == b.len(),
            i <= a.len(),
            a@.take(i as int) == b@.take(i as int),
        decreases a.len() - i,
    {
        if a[i] != b[i] {
            return false;
        }
        i += 1;
    }
    assert(a@ == a@.take(a.len() as int));
    assert(b@ == b@.take(b.len() as int));
    true
}

/// Tells whether `s` holds the characters of `word`.
pub fn spells(s: &[char], word: &str) -> (r: bool)
    ensures
        r == (s@ == word@),
{
    broadcast use vstd::string::axiom_spec_iter;

    let mut i: usize = 0;
    for c in it: word.chars()
        invariant
            it.seq() == word@,
            i == it.index(),
            i <= s.len(),
            s@.take(i as int) == word@.take(i as int),
    {
        if i >= s.len() || s[i] != c {
            return false;
        }
        i += 1;
    }
    assert(word@.take(i as int) == word@);
    assert(s@.take(s@.len() as int) == s@);
    i == s.len()
}

/// The part of `s` between its leading and its trailing whitespace.
pub fn trimmed(s: &[char]) -> (r: &[char])
    ensures
        r@ == trim(s@),
{
    let mut a: usize = 0;
    assert(s@.skip(0) == s@);
    while a < s.len() && is_space(s[a])
        invariant
            a <= s.len(),
            trim_start(s@) == trim_start(s@.skip(a as int)),
        decreases s.len() - a,
    {
        assert(s@.skip(a as int).drop_first() == s@.skip(a + 1));
        a += 1;
    }
    let mut b: usize = s.len();
    while b > a && is_space(s[b - 1])
        invariant
            a <= b <= s.len(),
            trim(s@) == trim_end(s@.subrange(a as int, b as int)),
        decreases b,
    {
        assert(s@.subrange(a as int, b as int).drop_last() == s@.subrange(a as int, b - 1));
        b -= 1;
    }
    slice_subrange(s, a, b)
}

/// Tells whether `pat` stands in `s` at index `i`.
pub fn starts_at(s: &[char], pat: &[char], i: usize) -> (r: bool)
    ensures
        r == occurs_at(s@, pat@, i as int),
{
    if i > s.len() || pat.len() > s.len() - i {
        return false;
    }
    same_text(slice_subrange(s, i, i + pat.len()), pat)
}

/// The leftmost index at which `pat` stands in `s`, if it stands there at all.
pub fn find(s: &[char], pat: &[char]) -> (r: Option<usize>)
    ensures
        match r {
            Some(i) => is_first(s@, pat@, i as int),
            None => !contains(s@, pat@),
        },
{
    if pat.len() > s.len() {
        return None;
    }
    let last: usize = s.len() - pat.len();
    let mut i: usize = 0;
    loop
        invariant
            pat.len() <= s.len(),
            last == s.len() - pat.len(),
            i <= last,
            forall|j: int| 0 <= j < i ==> !occurs_at(s@, pat@, j),
        decreases last - i,
    {
        if starts_at(s, pat, i) {
            return Some(i);
        }
        if i == last {
            return None;
        }
        i += 1;
    }
}

/// The view of each slice of `v`.
pub open spec fn texts(v: Seq<&[char]>) -> Seq<Seq<char>> {
    Seq::new(v.len(), |i: int| v[i]@)
}

/// The view of each string of `v`.
pub open spec fn strings(v: Seq<String>) -> Seq<Seq<char>> {
    Seq::new(v.len(), |i: int| v[i]@)
}

/// The pieces of `s` between the occurrences of `sep`.
pub fn split_on<'a>(s: &'a [char], sep: &[char]) -> (r: Vec<&'a [char]>)
    ensures
        texts(r@) == split(s@, sep@),
{
    let mut out: Vec<&'a [char]> = Vec::new();
    let mut rest: &'a [char] = s;
    if sep.len() > 0 {
        loop
            invariant_except_break
                sep.len() > 0,
                split(s@, sep@) == texts(out@) + split(rest@, sep@),
            ensures
                split(s@, sep@) == texts(out@) + seq![rest@],
            decreases rest.len(),
        {
            match find(rest, sep) {
                Some(i) => {
                    proof {
                        lemma_first_index_is(rest@, sep@, i as int);
                    }
                    out.push(slice_subrange(rest, 0, i));
                    rest = slice_subrange(rest, i + sep.len(), rest.len());
                },
                None => {
                    break ;
                },
            }
        }
    }
    out.push(rest);
    out
}

/// The words of `s`: its maximal runs of characters that are no whitespace.
pub fn words_of(s: &[char]) -> (r: Vec<String>)
    ensures
        strings(r@) == words(s@),
{
    let mut out: Vec<String> = Vec::new();
    let mut i: usize = 0;
    assert(s@.skip(0) == s@);
    while i < s.len()
        invariant
            i <= s.len(),
            words(s@) == strings(out@) + words(s@.skip(i as int)),
        decreases s.len() - i,
    {
        if is_space(s[i]) {
            assert(s@.skip(i as int).drop_first() == s@.skip(i + 1));
            i += 1;
        } else {
            let start: usize = i;
            while i < s.len() && !is_space(s[i])
                invariant
                    start <= i <= s.len(),
                    word_len(s@.skip(start as int)) == (i - start) + word_len(s@.skip(i as int)),
                decreases s.len() - i,
            {
                assert(s@.skip(i as int).drop_first() == s@.skip(i + 1));
                i += 1;
            }
            let word = string_of(slice_subrange(s, start, i));
            out.push(word);
            proof {
                let t = s@.skip(start as int);
                assert(t.take(i - start) == s@.subrange(start as int, i as int));
                assert(t.skip(i - start) == s@.skip(i as int));
            }
        }
    }
    out
}

} // verus!
