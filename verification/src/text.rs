//! Character-sequence primitives used by the line classifier.
//!
//! Every function here works on decoded characters, never on bytes, so the
//! contracts are stated over `Seq<char>`: the view of a `str`.

use vstd::prelude::*;

verus! {

/// `needle` stands in `hay` at position `at`.
pub open spec fn occurs_at(hay: Seq<char>, needle: Seq<char>, at: int) -> bool {
    &&& 0 <= at
    &&& at + needle.len() <= hay.len()
    &&& hay.subrange(at, at + needle.len()) == needle
}

/// `needle` stands at the very start of `hay`.
pub open spec fn begins_with(hay: Seq<char>, needle: Seq<char>) -> bool {
    occurs_at(hay, needle, 0)
}

/// `needle` stands somewhere in `hay` as a contiguous run.
pub open spec fn has_substring(hay: Seq<char>, needle: Seq<char>) -> bool {
    exists|at: int| occurs_at(hay, needle, at)
}

/// The characters with the Unicode `White_Space` property.
pub open spec fn is_whitespace(c: char) -> bool {
    let code = c as u32;
    ||| 0x09 <= code <= 0x0D
    ||| code == 0x20
    ||| code == 0x85
    ||| code == 0xA0
    ||| code == 0x1680
    ||| 0x2000 <= code <= 0x200A
    ||| code == 0x2028
    ||| code == 0x2029
    ||| code == 0x202F
    ||| code == 0x205F
    ||| code == 0x3000
}

/// `s` without its leading run of whitespace; what follows that run is kept
/// as it is, trailing whitespace included.
pub open spec fn trim_start(s: Seq<char>) -> Seq<char>
    decreases s.len(),
{
    if s.len() > 0 && is_whitespace(s[0]) {
        trim_start(s.drop_first())
    } else {
        s
    }
}

/// The part of `hay` behind the last occurrence of `c`. Where `c` does not
/// occur this is all of `hay`.
pub open spec fn after_last(hay: Seq<char>, c: char) -> Seq<char>
    decreases hay.len(),
{
    if hay.len() == 0 || hay.last() == c {
        Seq::empty()
    } else {
        after_last(hay.drop_last(), c).push(hay.last())
    }
}

/// Position `k` holds the last occurrence of `c` in `hay`.
pub open spec fn is_last_index_of(hay: Seq<char>, c: char, k: int) -> bool {
    &&& 0 <= k < hay.len()
    &&& hay[k] == c
    &&& forall|j: int| k < j < hay.len() ==> hay[j] != c
}

/// Skipping a run of `n` whitespace characters that ends at the end of `s` or
/// before a character that is no whitespace is exactly `trim_start`.
pub proof fn lemma_trim_start_skips(s: Seq<char>, n: int)
    requires
        0 <= n <= s.len(),
        forall|j: int| 0 <= j < n ==> is_whitespace(s[j]),
        n < s.len() ==> !is_whitespace(s[n]),
    ensures
        trim_start(s) == s.skip(n),
    decreases n,
{
    if n == 0 {
        assert(s.skip(0) =~= s);
    } else {
        let rest = s.drop_first();
        assert forall|j: int| 0 <= j < n - 1 implies is_whitespace(rest[j]) by {
            assert(rest[j] == s[j + 1]);
        }
        lemma_trim_start_skips(rest, n - 1);
        assert(rest.skip(n - 1) =~= s.skip(n));
    }
}

/// Behind the last occurrence of `c` at `k` lies `hay.skip(k + 1)`.
pub proof fn lemma_after_last_found(hay: Seq<char>, c: char, k: int)
    requires
        is_last_index_of(hay, c, k),
    ensures
        after_last(hay, c) == hay.skip(k + 1),
    decreases hay.len(),
{
    if hay.last() == c {
        assert(k == hay.len() - 1);
        assert(hay.skip(k + 1) =~= Seq::<char>::empty());
    } else {
        let front = hay.drop_last();
        assert(is_last_index_of(front, c, k));
        lemma_after_last_found(front, c, k);
        assert(front.skip(k + 1).push(hay.last()) =~= hay.skip(k + 1));
    }
}

/// Where `c` does not occur, everything lies behind its last occurrence.
pub proof fn lemma_after_last_absent(hay: Seq<char>, c: char)
    requires
        !hay.contains(c),
    ensures
        after_last(hay, c) == hay,
    decreases hay.len(),
{
    if hay.len() == 0 {
        assert(hay =~= Seq::<char>::empty());
    } else {
        let front = hay.drop_last();
        assert(hay[hay.len() - 1] != c);
        assert forall|j: int| 0 <= j < front.len() implies front[j] != c by {
            assert(front[j] == hay[j]);
        }
        lemma_after_last_absent(front, c);
        assert(front.push(hay.last()) =~= hay);
    }
}

/// Decodes a string slice into the sequence of its characters.
pub fn chars_of(s: &str) -> (out: Vec<char>)
    ensures
        out@ == s@,
{
    let mut out: Vec<char> = Vec::new();
    for c in it: s.chars()
        invariant
            out@ == s@.take(it.index() as int),
            it.seq() == s@,
    {
        out.push(c);
    }
    out
}

/// Tells whether `c` is whitespace in the Unicode sense.
pub fn is_whitespace_char(c: char) -> (r: bool)
    ensures
        r == is_whitespace(c),
{
    let code: u32 = c as u32;
    (0x09 <= code && code <= 0x0D) || code == 0x20 || code == 0x85 || code == 0xA0
        || code == 0x1680 || (0x2000 <= code && code <= 0x200A) || code == 0x2028
        || code == 0x2029 || code == 0x202F || code == 0x205F || code == 0x3000
}

/// Tells whether `needle` stands in `hay` at position `at`.
pub fn matches_at(hay: &[char], needle: &[char], at: usize) -> (r: bool)
    ensures
        r == occurs_at(hay@, needle@, at as int),
{
    if needle.len() > hay.len() || at > hay.len() - needle.len() {
        return false;
    }
    let mut j: usize = 0;
    while j < needle.len()
        invariant
            j <= needle.len(),
            at + needle.len() <= hay.len(),
            forall|k: int| 0 <= k < j ==> hay@[at + k] == needle@[k],
        decreases needle.len() - j,
    {
        if hay[at + j] != needle[j] {
            assert(hay@.subrange(at as int, at + needle.len())[j as int] != needle@[j as int]);
            return false;
        }
        j += 1;
    }
    assert(hay@.subrange(at as int, at + needle.len()) =~= needle@);
    true
}

/// Tells whether `hay` starts with `needle`.
pub fn starts_with(hay: &[char], needle: &[char]) -> (r: bool)
    ensures
        r == begins_with(hay@, needle@),
{
    matches_at(hay, needle, 0)
}

/// Tells whether `needle` stands anywhere in `hay`. The empty needle stands
/// in every sequence.
pub fn contains(hay: &[char], needle: &[char]) -> (r: bool)
    ensures
        r == has_substring(hay@, needle@),
{
    if needle.len() > hay.len() {
        return false;
    }
    let last: usize = hay.len() - needle.len();
    let mut at: usize = 0;
    loop
        invariant
            at <= last,
            last == hay.len() - needle.len(),
            forall|k: int| 0 <= k < at ==> !occurs_at(hay@, needle@, k),
        ensures
            at == last,
            !has_substring(hay@, needle@),
        decreases last - at,
    {
        if matches_at(hay, needle, at) {
            return true;
        }
        if at == last {
            break;
        }
        at += 1;
    }
    false
}

/// Finds the last occurrence of `c` in `hay`.
pub fn rfind(hay: &[char], c: char) -> (r: Option<usize>)
    ensures
        match r {
            Some(k) => is_last_index_of(hay@, c, k as int),
            None => !hay@.contains(c),
        },
{
    let mut k: usize = hay.len();
    while k > 0
        invariant
            k <= hay.len(),
            forall|j: int| k <= j < hay.len() ==> hay@[j] != c,
        decreases k,
    {
        k -= 1;
        if hay[k] == c {
            return Some(k);
        }
    }
    None
}

/// Counts the whitespace characters that `hay` holds in a row from position
/// `from` on.
pub fn whitespace_run(hay: &[char], from: usize) -> (n: usize)
    requires
        from <= hay.len(),
    ensures
        from + n <= hay.len(),
        forall|j: int| from <= j < from + n ==> is_whitespace(hay@[j]),
        from + n < hay.len() ==> !is_whitespace(hay@[from + n]),
{
    let mut end: usize = from;
    while end < hay.len() && is_whitespace_char(hay[end])
        invariant
            from <= end <= hay.len(),
            forall|j: int| from <= j < end ==> is_whitespace(hay@[j]),
        decreases hay.len() - end,
    {
        end += 1;
    }
    end - from
}

} // verus!
