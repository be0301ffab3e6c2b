//! Work on text: white space at the ends of a string, and the first place
//! at which a character occurs.

use vstd::prelude::*;

verus! {

/// The characters that count as white space: those of Unicode's property
/// of that name.
pub open spec fn is_space(c: char) -> bool {
    let n = c as u32;
    ||| 0x09 <= n <= 0x0D
    ||| n == 0x20
    ||| n == 0x85
    ||| n == 0xA0
    ||| n == 0x1680
    ||| 0x2000 <= n <= 0x200A
    ||| n == 0x2028
    ||| n == 0x2029
    ||| n == 0x202F
    ||| n == 0x205F
    ||| n == 0x3000
}

/// `s` without the white space at its start.
pub open spec fn skip_leading(s: Seq<char>) -> Seq<char>
    decreases s.len(),
{
    if s.len() > 0 && is_space(s[0]) {
        skip_leading(s.drop_first())
    } else {
        s
    }
}

/// `s` without the white space at its end.
pub open spec fn skip_trailing(s: Seq<char>) -> Seq<char>
    decreases s.len(),
{
    if s.len() > 0 && is_space(s.last()) {
        skip_trailing(s.drop_last())
    } else {
        s
    }
}

/// `s` without the white space at either end.
pub open spec fn trimmed(s: Seq<char>) -> Seq<char> {
    skip_trailing(skip_leading(s))
}

/// The first place at which `c` stands in `s`, or the length of `s` where
/// it stands nowhere.
pub open spec fn first_index(s: Seq<char>, c: char) -> int
    decreases s.len(),
{
    if s.len() == 0 || s[0] == c {
        0
    } else {
        1 + first_index(s.drop_first(), c)
    }
}

/// `first_index` names a place within `s` or its end; `c` stands at that
/// place and nowhere before it.
pub proof fn lemma_first_index(s: Seq<char>, c: char)
    ensures
        0 <= first_index(s, c) <= s.len(),
        first_index(s, c) < s.len() ==> s[first_index(s, c)] == c,
        forall|j: int| 0 <= j < first_index(s, c) ==> s[j] != c,
    decreases s.len(),
{
    if s.len() == 0 || s[0] == c {
    } else {
        let rest = s.drop_first();
        lemma_first_index(rest, c);
        assert forall|j: int| 0 <= j < first_index(s, c) implies s[j] != c by {
            if j > 0 {
                assert(s[j] == rest[j - 1]);
            }
        }
    }
}

/// What is left after trimming has no white space at either end, and
/// trimming it again changes nothing.
pub proof fn lemma_trimmed_is_bare(s: Seq<char>)
    ensures
        trimmed(s).len() > 0 ==> !is_space(trimmed(s)[0]) && !is_space(trimmed(s).last()),
        trimmed(trimmed(s)) == trimmed(s),
{
    lemma_skip_leading_bare(s);
    let mid = skip_leading(s);
    lemma_skip_trailing_bare(mid);
    let out = skip_trailing(mid);
    if out.len() > 0 {
        assert(out[0] == mid[0]);
    }
}

proof fn lemma_skip_leading_bare(s: Seq<char>)
    ensures
        skip_leading(s).len() > 0 ==> !is_space(skip_leading(s)[0]),
    decreases s.len(),
{
    if s.len() > 0 && is_space(s[0]) {
        lemma_skip_leading_bare(s.drop_first());
    }
}

proof fn lemma_skip_trailing_bare(s: Seq<char>)
    ensures
        skip_trailing(s).len() > 0 ==> !is_space(skip_trailing(s).last()),
        skip_trailing(s).len() <= s.len(),
        skip_trailing(s) == s.subrange(0, skip_trailing(s).len() as int),
    decreases s.len(),
{
    if s.len() > 0 && is_space(s.last()) {
        lemma_skip_trailing_bare(s.drop_last());
        let t = skip_trailing(s.drop_last());
        assert(s.drop_last().subrange(0, t.len() as int) =~= s.subrange(0, t.len() as int));
    } else {
        assert(s.subrange(0, s.len() as int) =~= s);
    }
}

/// Whether `c` is white space.
pub fn is_space_char(c: char) -> (r: bool)
    ensures
        r == is_space(c),
{
    let n: u32 = c as u32;
    (0x09 <= n && n <= 0x0D) || n == 0x20 || n == 0x85 || n == 0xA0 || n == 0x1680 || (0x2000 <= n
        && n <= 0x200A) || n == 0x2028 || n == 0x2029 || n == 0x202F || n == 0x205F || n == 0x3000
}

/// The string without the white space at its two ends.
pub fn trim(s: &str) -> (r: &str)
    ensures
        r@ == trimmed(s@),
{
    let len = s.unicode_len();
    let mut i: usize = 0;
    assert(s@.subrange(0, len as int) =~= s@);
    while i < len && is_space_char(s.get_char(i))
        invariant
            len == s@.len(),
            i <= len,
            skip_leading(s@) == skip_leading(s@.subrange(i as int, len as int)),
        decreases len - i,
    {
        proof {
            let sub = s@.subrange(i as int, len as int);
            assert(sub[0] == s@[i as int]);
            assert(sub.drop_first() =~= s@.subrange(i + 1, len as int));
        }
        i = i + 1;
    }
    let ghost mid = s@.subrange(i as int, len as int);
    proof {
        if i < len {
            assert(mid[0] == s@[i as int]);
        }
        assert(skip_leading(s@) == mid);
    }
    let mut j: usize = len;
    while j > i && is_space_char(s.get_char(j - 1))
        invariant
            len == s@.len(),
            i <= j <= len,
            skip_trailing(mid) == skip_trailing(s@.subrange(i as int, j as int)),
        decreases j,
    {
        proof {
            let sub = s@.subrange(i as int, j as int);
            assert(sub.last() == s@[j - 1]);
            assert(sub.drop_last() =~= s@.subrange(i as int, j - 1));
        }
        j = j - 1;
    }
    proof {
        let sub = s@.subrange(i as int, j as int);
        if j > i {
            assert(sub.last() == s@[j - 1]);
        }
        assert(skip_trailing(sub) == sub);
    }
    s.substring_char(i, j)
}

/// The first place at or after `from` at which `c` stands in `s`, or the
/// length of `s` where there is none.
pub fn find_char(s: &str, from: usize, c: char) -> (r: usize)
    ensures
        from <= s@.len() ==> r == from + first_index(s@.subrange(from as int, s@.len() as int), c),
        from <= s@.len() ==> from <= r,
        from > s@.len() ==> r == s@.len(),
        r <= s@.len(),
{
    let len = s.unicode_len();
    if from > len {
        return len;
    }
    let mut i: usize = from;
    while i < len && s.get_char(i) != c
        invariant
            len == s@.len(),
            from <= i <= len,
            from + first_index(s@.subrange(from as int, len as int), c) == i + first_index(
                s@.subrange(i as int, len as int),
                c,
            ),
        decreases len - i,
    {
        proof {
            let sub = s@.subrange(i as int, len as int);
            assert(sub[0] == s@[i as int]);
            assert(sub.drop_first() =~= s@.subrange(i + 1, len as int));
        }
        i = i + 1;
    }
    proof {
        let sub = s@.subrange(i as int, len as int);
        if i < len {
            assert(sub[0] == s@[i as int]);
        }
    }
    i
}

} // verus!
