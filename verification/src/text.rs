//! Text as sequences of characters: searching, comparing, joining and replacing.

use vstd::prelude::*;
use vstd::string::*;

verus! {

/// `p` stands at the front of `s`.
pub open spec fn starts_with(s: Seq<char>, p: Seq<char>) -> bool {
    p.len() <= s.len() && s.subrange(0, p.len() as int) == p
}

/// `p` stands at the end of `s`.
pub open spec fn ends_with(s: Seq<char>, p: Seq<char>) -> bool {
    p.len() <= s.len() && s.subrange(s.len() - p.len(), s.len() as int) == p
}

/// `needle` stands in `hay` from index `at` on.
pub open spec fn occurs_at(hay: Seq<char>, needle: Seq<char>, at: int) -> bool {
    0 <= at && at + needle.len() <= hay.len() && hay.subrange(at, at + needle.len()) == needle
}

/// `needle` stands somewhere in `hay`.
pub open spec fn occurs_in(hay: Seq<char>, needle: Seq<char>) -> bool {
    exists|at: int| occurs_at(hay, needle, at)
}

/// The least index at which `c` stands in `s`, or `s.len()` where it stands nowhere.
pub open spec fn first_index_of(s: Seq<char>, c: char) -> int
    decreases s.len(),
{
    if s.len() == 0 {
        0
    } else if s[0] == c {
        0
    } else {
        1 + first_index_of(s.drop_first(), c)
    }
}

/// `first_index_of` is the one index before which `c` does not stand and at which it does.
pub proof fn lemma_first_index_of(s: Seq<char>, c: char, i: int)
    requires
        0 <= i <= s.len(),
        forall|j: int| 0 <= j < i ==> s[j] != c,
        i < s.len() ==> s[i] == c,
    ensures
        first_index_of(s, c) == i,
    decreases s.len(),
{
    if s.len() != 0 && s[0] != c {
        let t = s.drop_first();
        assert forall|j: int| 0 <= j < i - 1 implies t[j] != c by {
            assert(t[j] == s[j + 1]);
        }
        lemma_first_index_of(t, c, i - 1);
    }
}

/// `first_index_of` lies within the text, and `c` stands nowhere before it.
pub proof fn lemma_first_index_of_bounds(s: Seq<char>, c: char)
    ensures
        0 <= first_index_of(s, c) <= s.len(),
        forall|j: int| 0 <= j < first_index_of(s, c) ==> s[j] != c,
        first_index_of(s, c) < s.len() ==> s[first_index_of(s, c)] == c,
    decreases s.len(),
{
    if s.len() != 0 && s[0] != c {
        let t = s.drop_first();
        lemma_first_index_of_bounds(t, c);
        assert forall|j: int| 0 <= j < first_index_of(s, c) implies s[j] != c by {
            if j > 0 {
                assert(s[j] == t[j - 1]);
            }
        }
    }
}

/// The characters of a text, in order.
pub fn to_chars(s: &str) -> (v: Vec<char>)
    ensures
        v@ == s@,
{
    let mut v: Vec<char> = Vec::new();
    for c in it: s.chars()
        invariant
            v@ == it.seq().take(it.index() as int),
            it.seq() == s@,
    {
        v.push(c);
    }
    v
}

/// Whether two texts hold the same characters.
pub fn str_eq(a: &str, b: &str) -> (r: bool)
    ensures
        r == (a@ == b@),
{
    a.to_owned() == b.to_owned()
}

/// Whether the characters of `p` stand in `s` from index `at` on.
pub fn chars_occur_at(s: &Vec<char>, p: &Vec<char>, at: usize) -> (r: bool)
    requires
        at + p@.len() <= s@.len(),
    ensures
        r == occurs_at(s@, p@, at as int),
{
    let mut i: usize = 0;
    while i < p.len()
        invariant
            i <= p.len(),
            at + p.len() <= s.len(),
            forall|j: int| 0 <= j < i ==> s@[at + j] == p@[j],
        decreases p.len() - i,
    {
        if s[at + i] != p[i] {
            proof {
                assert(s@.subrange(at as int, at + p@.len())[i as int] == s@[at + i]);
            }
            return false;
        }
        i += 1;
    }
    proof {
        assert(s@.subrange(at as int, at + p@.len()) =~= p@);
    }
    true
}

/// Whether `p` stands at the front of the characters `s`.
pub fn chars_start_with(s: &Vec<char>, p: &str) -> (r: bool)
    ensures
        r == starts_with(s@, p@),
{
    let pc = to_chars(p);
    if pc.len() > s.len() {
        false
    } else {
        chars_occur_at(s, &pc, 0)
    }
}

/// Whether `p` stands at the end of the characters `s`.
pub fn chars_end_with(s: &Vec<char>, p: &str) -> (r: bool)
    ensures
        r == ends_with(s@, p@),
{
    let pc = to_chars(p);
    if pc.len() > s.len() {
        false
    } else {
        chars_occur_at(s, &pc, s.len() - pc.len())
    }
}

/// The least index at which `c` stands in `s`, or the length of `s`.
pub fn chars_find(s: &Vec<char>, c: char) -> (i: usize)
    ensures
        i as int == first_index_of(s@, c),
        i <= s@.len(),
{
    let mut i: usize = 0;
    while i < s.len() && s[i] != c
        invariant
            i <= s@.len(),
            forall|j: int| 0 <= j < i ==> s@[j] != c,
        decreases s@.len() - i,
    {
        i += 1;
    }
    proof {
        lemma_first_index_of(s@, c, i as int);
    }
    i
}

/// The texts that a list of strings holds.
pub open spec fn strings_view(parts: Seq<String>) -> Seq<Seq<char>> {
    parts.map_values(|s: String| s@)
}

/// The first `n` of `parts`, written one after another with `sep` between neighbours.
pub open spec fn join_first(parts: Seq<Seq<char>>, sep: Seq<char>, n: nat) -> Seq<char>
    decreases n,
{
    if n == 0 {
        Seq::empty()
    } else if n == 1 {
        parts[0]
    } else {
        join_first(parts, sep, (n - 1) as nat) + sep + parts[n - 1]
    }
}

/// All of `parts`, written one after another with `sep` between neighbours.
pub open spec fn join(parts: Seq<Seq<char>>, sep: Seq<char>) -> Seq<char> {
    join_first(parts, sep, parts.len())
}

/// The first `n` of `parts`, written one after another.
pub open spec fn concat_first(parts: Seq<Seq<char>>, n: nat) -> Seq<char>
    decreases n,
{
    if n == 0 {
        Seq::empty()
    } else {
        concat_first(parts, (n - 1) as nat) + parts[n - 1]
    }
}

/// All of `parts`, written one after another.
pub open spec fn concat(parts: Seq<Seq<char>>) -> Seq<char> {
    concat_first(parts, parts.len())
}

/// What stands in a text still stands there, at the same place, when more text follows.
pub proof fn lemma_occurs_at_add_left(a: Seq<char>, b: Seq<char>, needle: Seq<char>, at: int)
    requires
        occurs_at(a, needle, at),
    ensures
        occurs_at(a + b, needle, at),
{
    assert((a + b).subrange(at, at + needle.len()) =~= a.subrange(at, at + needle.len()));
}

/// What stands in a text still stands there, moved by the length of what is put in front.
pub proof fn lemma_occurs_at_add_right(a: Seq<char>, b: Seq<char>, needle: Seq<char>, at: int)
    requires
        occurs_at(b, needle, at),
    ensures
        occurs_at(a + b, needle, a.len() + at),
{
    assert((a + b).subrange(a.len() + at, a.len() + at + needle.len()) =~= b.subrange(
        at,
        at + needle.len(),
    ));
}

/// What stands somewhere in a text stands somewhere in the text with more behind it.
pub proof fn lemma_occurs_in_add_left(a: Seq<char>, b: Seq<char>, needle: Seq<char>)
    requires
        occurs_in(a, needle),
    ensures
        occurs_in(a + b, needle),
{
    let at = choose|at: int| occurs_at(a, needle, at);
    lemma_occurs_at_add_left(a, b, needle, at);
}

/// What stands somewhere in a text stands somewhere in the text with more in front of it.
pub proof fn lemma_occurs_in_add_right(a: Seq<char>, b: Seq<char>, needle: Seq<char>)
    requires
        occurs_in(b, needle),
    ensures
        occurs_in(a + b, needle),
{
    let at = choose|at: int| occurs_at(b, needle, at);
    lemma_occurs_at_add_right(a, b, needle, at);
}

/// A text stands in itself, at the front.
pub proof fn lemma_occurs_in_self(text: Seq<char>)
    ensures
        occurs_at(text, text, 0),
        occurs_in(text, text),
{
    assert(text.subrange(0, text.len() as int) =~= text);
    assert(occurs_at(text, text, 0));
}

/// How many of the first `n` places of `text` are the start of an occurrence of `pattern`.
pub open spec fn count_first(text: Seq<char>, pattern: Seq<char>, n: nat) -> nat
    decreases n,
{
    if n == 0 {
        0
    } else if occurs_at(text, pattern, n - 1) {
        count_first(text, pattern, (n - 1) as nat) + 1
    } else {
        count_first(text, pattern, (n - 1) as nat)
    }
}

/// How often `pattern` occurs in `text`, occurrences that overlap counted each.
pub open spec fn count_of(text: Seq<char>, pattern: Seq<char>) -> nat {
    count_first(text, pattern, text.len())
}

/// The character stands nowhere in the text.
pub open spec fn avoids(text: Seq<char>, c: char) -> bool {
    forall|i: int| 0 <= i < text.len() ==> text[i] != c
}

/// The character stands nowhere in the text but, at most, at its end.
pub open spec fn avoids_before_last(text: Seq<char>, c: char) -> bool {
    forall|i: int| 0 <= i < text.len() - 1 ==> text[i] != c
}

/// No occurrence of `pattern` in `a + b` starts in `a` and ends in `b`.
pub open spec fn no_straddle(a: Seq<char>, b: Seq<char>, pattern: Seq<char>) -> bool {
    forall|i: int|
        0 <= i < a.len() && i + pattern.len() > a.len() ==> !occurs_at(a + b, pattern, i)
}

/// Where the pattern occurs at one place at most, it is counted once there or not at all.
pub proof fn lemma_count_single(text: Seq<char>, pattern: Seq<char>, at: int, n: nat)
    requires
        n <= text.len(),
        forall|i: int| 0 <= i < text.len() && i != at ==> !occurs_at(text, pattern, i),
    ensures
        count_first(text, pattern, n) == if 0 <= at < n && occurs_at(text, pattern, at) {
            1nat
        } else {
            0nat
        },
    decreases n,
{
    if n > 0 {
        lemma_count_single(text, pattern, at, (n - 1) as nat);
    }
}

/// A pattern that holds a character which the text avoids occurs nowhere in the text.
pub proof fn lemma_count_avoiding(text: Seq<char>, pattern: Seq<char>, c: char, j: int)
    requires
        avoids(text, c),
        0 <= j < pattern.len(),
        pattern[j] == c,
    ensures
        count_of(text, pattern) == 0,
{
    assert forall|i: int| 0 <= i < text.len() implies !occurs_at(text, pattern, i) by {
        if occurs_at(text, pattern, i) {
            assert(text.subrange(i, i + pattern.len())[j] == text[i + j]);
        }
    }
    lemma_count_single(text, pattern, -1, text.len());
}

/// In a text that holds the last character of the pattern at its own end only, the
/// pattern can occur at the end only.
pub proof fn lemma_count_at_end(text: Seq<char>, pattern: Seq<char>)
    requires
        pattern.len() > 0,
        avoids_before_last(text, pattern.last()),
    ensures
        count_of(text, pattern) == if occurs_at(text, pattern, text.len() - pattern.len()) {
            1nat
        } else {
            0nat
        },
{
    let at = text.len() - pattern.len();
    assert forall|i: int| 0 <= i < text.len() && i != at implies !occurs_at(text, pattern, i) by {
        if occurs_at(text, pattern, i) {
            assert(text.subrange(i, i + pattern.len())[pattern.len() - 1] == text[i
                + pattern.len() - 1]);
        }
    }
    lemma_count_single(text, pattern, at, text.len());
}

/// Nothing straddles a seam behind which a character stands that the pattern avoids.
pub proof fn lemma_no_straddle_before(a: Seq<char>, b: Seq<char>, pattern: Seq<char>)
    requires
        b.len() > 0,
        avoids(pattern, b[0]),
    ensures
        no_straddle(a, b, pattern),
{
    assert forall|i: int| 0 <= i < a.len() && i + pattern.len() > a.len() implies !occurs_at(
        a + b,
        pattern,
        i,
    ) by {
        if occurs_at(a + b, pattern, i) {
            assert((a + b).subrange(i, i + pattern.len())[a.len() - i] == (a + b)[a.len() as int]);
            assert((a + b)[a.len() as int] == b[0]);
        }
    }
}

/// Nothing straddles a seam before which a character stands that the pattern holds at
/// its end at most.
pub proof fn lemma_no_straddle_after(a: Seq<char>, b: Seq<char>, pattern: Seq<char>)
    requires
        a.len() > 0,
        avoids_before_last(pattern, a.last()),
    ensures
        no_straddle(a, b, pattern),
{
    assert forall|i: int| 0 <= i < a.len() && i + pattern.len() > a.len() implies !occurs_at(
        a + b,
        pattern,
        i,
    ) by {
        if occurs_at(a + b, pattern, i) {
            assert((a + b).subrange(i, i + pattern.len())[a.len() - 1 - i] == (a + b)[a.len()
                - 1]);
            assert((a + b)[a.len() - 1] == a.last());
        }
    }
}

/// Within the first text, a concatenation that nothing straddles counts as the first
/// text does.
pub proof fn lemma_count_add_left(a: Seq<char>, b: Seq<char>, pattern: Seq<char>, n: nat)
    requires
        n <= a.len(),
        no_straddle(a, b, pattern),
    ensures
        count_first(a + b, pattern, n) == count_first(a, pattern, n),
    decreases n,
{
    if n > 0 {
        lemma_count_add_left(a, b, pattern, (n - 1) as nat);
        let i = n - 1;
        if i + pattern.len() <= a.len() {
            assert((a + b).subrange(i, i + pattern.len()) =~= a.subrange(i, i + pattern.len()));
        }
    }
}

/// Within the second text, a concatenation that nothing straddles counts on from what
/// the first text holds.
pub proof fn lemma_count_add_right(a: Seq<char>, b: Seq<char>, pattern: Seq<char>, n: nat)
    requires
        n <= b.len(),
        no_straddle(a, b, pattern),
    ensures
        count_first(a + b, pattern, a.len() + n) == count_of(a, pattern) + count_first(
            b,
            pattern,
            n,
        ),
    decreases n,
{
    if n == 0 {
        lemma_count_add_left(a, b, pattern, a.len());
    } else {
        lemma_count_add_right(a, b, pattern, (n - 1) as nat);
        let i = n - 1;
        if i + pattern.len() <= b.len() {
            assert((a + b).subrange(a.len() + i, a.len() + i + pattern.len()) =~= b.subrange(
                i,
                i + pattern.len(),
            ));
        }
    }
}

/// A concatenation that nothing straddles holds the pattern as often as its two texts
/// together.
pub proof fn lemma_count_add(a: Seq<char>, b: Seq<char>, pattern: Seq<char>)
    requires
        no_straddle(a, b, pattern),
    ensures
        count_of(a + b, pattern) == count_of(a, pattern) + count_of(b, pattern),
{
    lemma_count_add_right(a, b, pattern, b.len());
}

/// A text between a head and a tail holds the pattern as often as head, text and tail
/// together, where the seams keep the pattern out: the head ends, and the tail starts,
/// with a character that the pattern cannot hold there.
pub proof fn lemma_count_wrapped(head: Seq<char>, x: Seq<char>, tail: Seq<char>, pattern: Seq<char>)
    requires
        head.len() > 0,
        avoids_before_last(pattern, head.last()),
        tail.len() > 0,
        avoids(pattern, tail[0]),
    ensures
        count_of(head + x + tail, pattern) == count_of(head, pattern) + count_of(x, pattern)
            + count_of(tail, pattern),
{
    lemma_no_straddle_after(head, x, pattern);
    lemma_count_add(head, x, pattern);
    lemma_no_straddle_before(head + x, tail, pattern);
    lemma_count_add(head + x, tail, pattern);
}

/// Two texts between a head, a separator and a tail hold the pattern as often as the five
/// parts together, where the seams keep the pattern out.
pub proof fn lemma_count_wrapped_pair(
    head: Seq<char>,
    x: Seq<char>,
    sep: Seq<char>,
    y: Seq<char>,
    tail: Seq<char>,
    pattern: Seq<char>,
)
    requires
        head.len() > 0,
        avoids_before_last(pattern, head.last()),
        sep.len() > 0,
        avoids(pattern, sep[0]),
        avoids_before_last(pattern, sep.last()),
        tail.len() > 0,
        avoids(pattern, tail[0]),
    ensures
        count_of(head + x + sep + y + tail, pattern) == count_of(head, pattern) + count_of(
            x,
            pattern,
        ) + count_of(sep, pattern) + count_of(y, pattern) + count_of(tail, pattern),
{
    lemma_no_straddle_after(head, x, pattern);
    lemma_count_add(head, x, pattern);
    lemma_no_straddle_before(head + x, sep, pattern);
    lemma_count_add(head + x, sep, pattern);
    assert((head + x + sep).last() == sep.last());
    lemma_no_straddle_after(head + x + sep, y, pattern);
    lemma_count_add(head + x + sep, y, pattern);
    lemma_no_straddle_before(head + x + sep + y, tail, pattern);
    lemma_count_add(head + x + sep + y, tail, pattern);
}

/// The place of part `k` in the concatenation: the length of all parts before it.
pub open spec fn part_offset(parts: Seq<Seq<char>>, k: nat) -> int {
    concat_first(parts, k).len() as int
}

/// The places of the parts grow with the parts: a part ends where the next one starts.
pub proof fn lemma_part_offsets_grow(parts: Seq<Seq<char>>, k: nat, m: nat)
    requires
        k < m <= parts.len(),
    ensures
        part_offset(parts, k) + parts[k as int].len() <= part_offset(parts, m),
    decreases m,
{
    if k + 1 < m {
        lemma_part_offsets_grow(parts, k, (m - 1) as nat);
    }
}

/// Part `k` stands at its place in the concatenation of the first `n` parts.
pub proof fn lemma_concat_first_part(parts: Seq<Seq<char>>, k: nat, n: nat)
    requires
        k < n <= parts.len(),
    ensures
        occurs_at(concat_first(parts, n), parts[k as int], part_offset(parts, k)),
    decreases n,
{
    if k + 1 == n {
        lemma_occurs_in_self(parts[k as int]);
        lemma_occurs_at_add_right(concat_first(parts, k), parts[k as int], parts[k as int], 0);
    } else {
        lemma_concat_first_part(parts, k, (n - 1) as nat);
        lemma_occurs_at_add_left(
            concat_first(parts, (n - 1) as nat),
            parts[n - 1],
            parts[k as int],
            part_offset(parts, k),
        );
    }
}

/// Every part stands in the concatenation, at its place.
pub proof fn lemma_concat_part(parts: Seq<Seq<char>>, k: int)
    requires
        0 <= k < parts.len(),
    ensures
        occurs_at(concat(parts), parts[k], part_offset(parts, k as nat)),
        occurs_in(concat(parts), parts[k]),
{
    lemma_concat_first_part(parts, k as nat, parts.len());
}

/// Writes the strings one after another, with `sep` between neighbours.
pub fn join_strings(parts: &Vec<String>, sep: &str) -> (r: String)
    ensures
        r@ == join(strings_view(parts@), sep@),
{
    let ghost texts = strings_view(parts@);
    let mut r = String::new();
    let mut i: usize = 0;
    while i < parts.len()
        invariant
            i <= parts.len(),
            texts == strings_view(parts@),
            r@ == join_first(texts, sep@, i as nat),
        decreases parts.len() - i,
    {
        if i > 0 {
            r.append(sep);
        }
        r.append(parts[i].as_str());
        assert(r@ =~= join_first(texts, sep@, (i + 1) as nat));
        i += 1;
    }
    r
}

/// Writes the strings one after another.
pub fn concat_strings(parts: &Vec<String>) -> (r: String)
    ensures
        r@ == concat(strings_view(parts@)),
{
    let ghost texts = strings_view(parts@);
    let mut r = String::new();
    let mut i: usize = 0;
    while i < parts.len()
        invariant
            i <= parts.len(),
            texts == strings_view(parts@),
            r@ == concat_first(texts, i as nat),
        decreases parts.len() - i,
    {
        r.append(parts[i].as_str());
        i += 1;
    }
    r
}

/// The text with every occurrence of `from` replaced by `to`, found from left to right
/// and never inside an earlier occurrence. Unchanged where `from` is empty.
pub open spec fn replaced(s: Seq<char>, from: Seq<char>, to: Seq<char>) -> Seq<char>
    decreases s.len(),
{
    if from.len() == 0 || s.len() < from.len() {
        s
    } else if starts_with(s, from) {
        to + replaced(s.skip(from.len() as int), from, to)
    } else {
        s.take(1) + replaced(s.skip(1), from, to)
    }
}

/// Replaces every occurrence of `from` in `s` by `to`.
pub fn replace_all(s: &str, from: &str, to: &str) -> (r: String)
    ensures
        r@ == replaced(s@, from@, to@),
{
    let chars = to_chars(s);
    let pattern = to_chars(from);
    let n = chars.len();
    let m = pattern.len();
    if m == 0 || n < m {
        return String::from_str(s);
    }
    let mut out = String::new();
    let mut kept: usize = 0;
    let mut i: usize = 0;
    assert(s@.skip(0) =~= s@);
    while i <= n - m
        invariant
            0 < m <= n,
            n == chars.len(),
            m == pattern.len(),
            chars@ == s@,
            pattern@ == from@,
            kept <= i <= n,
            replaced(s@, from@, to@) == out@ + s@.subrange(kept as int, i as int) + replaced(
                s@.skip(i as int),
                from@,
                to@,
            ),
        decreases n - i,
    {
        let ghost rest = s@.skip(i as int);
        if chars_occur_at(&chars, &pattern, i) {
            proof {
                assert(rest.subrange(0, m as int) =~= s@.subrange(i as int, i + m));
                assert(rest.skip(m as int) =~= s@.skip(i + m));
            }
            out.append(s.substring_char(kept, i));
            out.append(to);
            i += m;
            kept = i;
            assert(out@ + s@.subrange(kept as int, i as int) + replaced(
                s@.skip(i as int),
                from@,
                to@,
            ) =~= replaced(s@, from@, to@));
        } else {
            proof {
                assert(rest.subrange(0, m as int) =~= s@.subrange(i as int, i + m));
                assert(rest.skip(1) =~= s@.skip(i + 1));
                assert(s@.subrange(kept as int, i as int) + rest.take(1) =~= s@.subrange(
                    kept as int,
                    i + 1,
                ));
            }
            i += 1;
            assert(out@ + s@.subrange(kept as int, i as int) + replaced(
                s@.skip(i as int),
                from@,
                to@,
            ) =~= replaced(s@, from@, to@));
        }
    }
    proof {
        assert(s@.subrange(kept as int, i as int) + s@.skip(i as int) =~= s@.subrange(
            kept as int,
            n as int,
        ));
    }
    out.append(s.substring_char(kept, n));
    assert(out@ =~= replaced(s@, from@, to@));
    out
}

} // verus!
