//! Characters of a line of input: whitespace and trimming.

use vstd::prelude::*;
use vstd::slice::slice_subrange;

verus! {

/// Whether `c` is one of the code points that Unicode gives the property
/// `White_Space`: the controls U+0009 to U+000D, the space, U+0085, the
/// no-break space, U+1680, U+2000 to U+200A, the line and paragraph
/// separators, U+202F, U+205F and U+3000.
pub open spec fn is_whitespace(c: char) -> bool {
    let p: u32 = c as u32;
    ||| 0x09 <= p <= 0x0D
    ||| p == 0x20
    ||| p == 0x85
    ||| p == 0xA0
    ||| p == 0x1680
    ||| 0x2000 <= p <= 0x200A
    ||| p == 0x2028
    ||| p == 0x2029
    ||| p == 0x202F
    ||| p == 0x205F
    ||| p == 0x3000
}

/// Whether every character of `s` is whitespace.
pub open spec fn all_whitespace(s: Seq<char>) -> bool {
    forall|i: int| 0 <= i < s.len() ==> is_whitespace(#[trigger] s[i])
}

/// Whether `s` neither starts nor ends with whitespace.
pub open spec fn is_trim(s: Seq<char>) -> bool {
    s.len() > 0 ==> !is_whitespace(s[0]) && !is_whitespace(s.last())
}

/// The index of the first character of `s` that is no whitespace, or the
/// length of `s` where there is none.
pub open spec fn trim_start_index(s: Seq<char>) -> int
    decreases s.len(),
{
    if s.len() > 0 && is_whitespace(s[0]) {
        1 + trim_start_index(s.drop_first())
    } else {
        0
    }
}

/// One past the index of the last character of `s` that is no whitespace, or
/// zero where there is none.
pub open spec fn trim_end_index(s: Seq<char>) -> int
    decreases s.len(),
{
    if s.len() > 0 && is_whitespace(s.last()) {
        trim_end_index(s.drop_last())
    } else {
        s.len() as int
    }
}

/// `s` without its leading and trailing whitespace.
pub open spec fn trimmed(s: Seq<char>) -> Seq<char> {
    let start = trim_start_index(s);
    let end = trim_end_index(s);
    if start <= end {
        s.subrange(start, end)
    } else {
        Seq::empty()
    }
}

/// The start index lies within `s`, everything before it is whitespace, and
/// the character at it, if there is one, is not.
pub proof fn lemma_trim_start_index(s: Seq<char>)
    ensures
        0 <= trim_start_index(s) <= s.len(),
        forall|i: int| 0 <= i < trim_start_index(s) ==> is_whitespace(#[trigger] s[i]),
        trim_start_index(s) < s.len() ==> !is_whitespace(s[trim_start_index(s)]),
    decreases s.len(),
{
    if s.len() > 0 && is_whitespace(s[0]) {
        let rest = s.drop_first();
        lemma_trim_start_index(rest);
        assert forall|i: int| 0 <= i < trim_start_index(s) implies is_whitespace(
            #[trigger] s[i],
        ) by {
            if i > 0 {
                assert(s[i] == rest[i - 1]);
            }
        }
        if trim_start_index(s) < s.len() {
            assert(s[trim_start_index(s)] == rest[trim_start_index(rest)]);
        }
    }
}

/// The end index lies within `s`, everything from it on is whitespace, and the
/// character before it, if there is one, is not.
pub proof fn lemma_trim_end_index(s: Seq<char>)
    ensures
        0 <= trim_end_index(s) <= s.len(),
        forall|i: int| trim_end_index(s) <= i < s.len() ==> is_whitespace(#[trigger] s[i]),
        trim_end_index(s) > 0 ==> !is_whitespace(s[trim_end_index(s) - 1]),
    decreases s.len(),
{
    if s.len() > 0 && is_whitespace(s.last()) {
        let rest = s.drop_last();
        lemma_trim_end_index(rest);
        assert forall|i: int| trim_end_index(s) <= i < s.len() implies is_whitespace(
            #[trigger] s[i],
        ) by {
            if i < s.len() - 1 {
                assert(s[i] == rest[i]);
            }
        }
        if trim_end_index(s) > 0 {
            assert(s[trim_end_index(s) - 1] == rest[trim_end_index(rest) - 1]);
        }
    }
}

/// What is left of a text after trimming neither starts nor ends with
/// whitespace, and the text is that, with whitespace before and after it.
pub proof fn lemma_trimmed_is_trim(s: Seq<char>)
    ensures
        is_trim(trimmed(s)),
        exists|before: Seq<char>, after: Seq<char>|
            all_whitespace(before) && all_whitespace(after) && s == before + trimmed(s) + after,
{
    lemma_trim_start_index(s);
    lemma_trim_end_index(s);
    let start: int = trim_start_index(s);
    let end: int = trim_end_index(s);
    if start <= end {
        let before = s.take(start);
        let after = s.skip(end);
        assert(s =~= before + trimmed(s) + after);
        assert(all_whitespace(before) && all_whitespace(after) && s == before + trimmed(s)
            + after);
    } else {
        assert(end < s.len());
        assert(is_whitespace(s[end]));
        assert(start == s.len());
        assert(end == 0) by {
            if end > 0 {
                assert(is_whitespace(s[end - 1]));
            }
        }
        let before = s;
        let after = Seq::<char>::empty();
        assert(s =~= before + trimmed(s) + after);
        assert(all_whitespace(before) && all_whitespace(after) && s == before + trimmed(s)
            + after);
    }
}

/// Whitespace put before and after a text that neither starts nor ends with
/// any is taken off again by trimming.
pub proof fn lemma_trimmed_takes_off_padding(before: Seq<char>, core: Seq<char>, after: Seq<char>)
    requires
        all_whitespace(before),
        all_whitespace(after),
        is_trim(core),
    ensures
        trimmed(before + core + after) == core,
{
    let whole = before + core + after;
    let a: int = before.len() as int;
    let b: int = a + core.len();
    lemma_trim_start_index(whole);
    lemma_trim_end_index(whole);
    let start: int = trim_start_index(whole);
    let end: int = trim_end_index(whole);
    assert forall|i: int| 0 <= i < a implies is_whitespace(#[trigger] whole[i]) by {
        assert(whole[i] == before[i]);
    }
    assert forall|i: int| b <= i < whole.len() implies is_whitespace(#[trigger] whole[i]) by {
        assert(whole[i] == after[i - b]);
    }
    if core.len() == 0 {
        if start < whole.len() {
            assert(is_whitespace(whole[start]));
        }
        if end > 0 {
            assert(is_whitespace(whole[end - 1]));
        }
        assert(trimmed(whole) =~= core);
    } else {
        assert(whole[a] == core[0]);
        assert(whole[b - 1] == core.last());
        if start < a {
            assert(is_whitespace(whole[start]));
        }
        if start > a {
            assert(is_whitespace(whole[a]));
        }
        if end > b {
            assert(is_whitespace(whole[end - 1]));
        }
        if end < b {
            assert(is_whitespace(whole[b - 1]));
        }
        assert(whole.subrange(a, b) =~= core);
    }
}

/// Whitespace put before and after any text does not change what trimming
/// leaves of it.
pub proof fn lemma_trimmed_ignores_padding(before: Seq<char>, s: Seq<char>, after: Seq<char>)
    requires
        all_whitespace(before),
        all_whitespace(after),
    ensures
        trimmed(before + s + after) == trimmed(s),
{
    lemma_trimmed_is_trim(s);
    let (inner_before, inner_after) = choose|p: Seq<char>, q: Seq<char>|
        all_whitespace(p) && all_whitespace(q) && s == p + trimmed(s) + q;
    let outer_before = before + inner_before;
    let outer_after = inner_after + after;
    assert(before + s + after =~= outer_before + trimmed(s) + outer_after);
    assert forall|i: int| 0 <= i < outer_before.len() implies is_whitespace(
        #[trigger] outer_before[i],
    ) by {
        if i < before.len() {
            assert(outer_before[i] == before[i]);
        } else {
            assert(outer_before[i] == inner_before[i - before.len()]);
        }
    }
    assert forall|i: int| 0 <= i < outer_after.len() implies is_whitespace(
        #[trigger] outer_after[i],
    ) by {
        if i < inner_after.len() {
            assert(outer_after[i] == inner_after[i]);
        } else {
            assert(outer_after[i] == after[i - inner_after.len()]);
        }
    }
    lemma_trimmed_takes_off_padding(outer_before, trimmed(s), outer_after);
}

/// Tells whether `c` is whitespace.
pub fn is_space(c: char) -> (b: bool)
    ensures
        b == is_whitespace(c),
{
    let p: u32 = c as u32;
    (0x09 <= p && p <= 0x0D) || p == 0x20 || p == 0x85 || p == 0xA0 || p == 0x1680 || (0x2000 <= p
        && p <= 0x200A) || p == 0x2028 || p == 0x2029 || p == 0x202F || p == 0x205F || p == 0x3000
}

/// The characters of `s`, in order.
pub fn chars_of(s: &str) -> (v: Vec<char>)
    ensures
        v@ == s@,
{
    let mut v: Vec<char> = Vec::new();
    for c in it: s.chars()
        invariant
            v@ == it.seq().take(it.index() as int),
    {
        v.push(c);
    }
    v
}

/// `text` without its leading and trailing whitespace.
pub fn trim<'a>(text: &'a [char]) -> (kept: &'a [char])
    ensures
        kept@ == trimmed(text@),
{
    let n: usize = text.len();
    let mut start: usize = 0;
    while start < n && is_space(text[start])
        invariant
            start <= n,
            n == text.len(),
            forall|i: int| 0 <= i < start ==> is_whitespace(#[trigger] text@[i]),
        decreases n - start,
    {
        start += 1;
    }
    let mut end: usize = n;
    while end > start && is_space(text[end - 1])
        invariant
            start <= end <= n,
            n == text.len(),
            forall|i: int| end <= i < n ==> is_whitespace(#[trigger] text@[i]),
        decreases end,
    {
        end -= 1;
    }
    proof {
        lemma_trim_start_index(text@);
        lemma_trim_end_index(text@);
        let first: int = trim_start_index(text@);
        let last: int = trim_end_index(text@);
        if first < start {
            assert(is_whitespace(text@[first]));
        }
        if start < first {
            assert(is_whitespace(text@[start as int]));
        }
        assert(first == start);
        if start < end {
            if last < end {
                assert(is_whitespace(text@[end - 1]));
            }
            if end < last {
                assert(is_whitespace(text@[last - 1]));
            }
            assert(last == end);
        } else {
            if last > 0 {
                assert(is_whitespace(text@[last - 1]));
            }
            assert(text@.subrange(start as int, end as int) =~= Seq::<char>::empty());
        }
    }
    slice_subrange(text, start, end)
}

} // verus!
