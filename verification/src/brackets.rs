//! Brackets in a text: how many are open, and how deep they nest.

use vstd::prelude::*;

verus! {

/// What a character adds to the number of open brackets.
pub open spec fn bracket_step(c: char, open: char, close: char) -> int {
    if c == open {
        1
    } else if c == close {
        -1
    } else {
        0
    }
}

/// The opening brackets less the closing brackets among the first `n` characters.
pub open spec fn balance_first(s: Seq<char>, open: char, close: char, n: nat) -> int
    decreases n,
{
    if n == 0 {
        0
    } else {
        balance_first(s, open, close, (n - 1) as nat) + bracket_step(s[n - 1], open, close)
    }
}

/// The greatest number of brackets that are open at once within the first `n` characters.
pub open spec fn depth_first(s: Seq<char>, open: char, close: char, n: nat) -> int
    decreases n,
{
    if n == 0 {
        0
    } else {
        let before = depth_first(s, open, close, (n - 1) as nat);
        if balance_first(s, open, close, n) > before {
            balance_first(s, open, close, n)
        } else {
            before
        }
    }
}

/// The opening brackets of a text less its closing brackets.
pub open spec fn balance(s: Seq<char>, open: char, close: char) -> int {
    balance_first(s, open, close, s.len())
}

/// How deep the brackets of a text nest.
pub open spec fn nesting_depth(s: Seq<char>, open: char, close: char) -> int {
    depth_first(s, open, close, s.len())
}

/// The depth is never negative and never less than the balance.
pub proof fn lemma_depth_bounds(s: Seq<char>, open: char, close: char, n: nat)
    ensures
        depth_first(s, open, close, n) >= 0,
        depth_first(s, open, close, n) >= balance_first(s, open, close, n),
    decreases n,
{
    if n > 0 {
        lemma_depth_bounds(s, open, close, (n - 1) as nat);
    }
}

/// Neither of the two characters stands in the text.
pub open spec fn lacks(s: Seq<char>, a: char, b: char) -> bool {
    forall|i: int| 0 <= i < s.len() ==> s[i] != a && s[i] != b
}

/// A text without brackets has balance 0 and depth 0 all along.
pub proof fn lemma_lacking_brackets(s: Seq<char>, open: char, close: char, n: nat)
    requires
        lacks(s, open, close),
        n <= s.len(),
    ensures
        balance_first(s, open, close, n) == 0,
        depth_first(s, open, close, n) == 0,
    decreases n,
{
    if n > 0 {
        lemma_lacking_brackets(s, open, close, (n - 1) as nat);
    }
}

/// Within the first text, a concatenation counts as the first text does.
pub proof fn lemma_brackets_add_left(a: Seq<char>, b: Seq<char>, open: char, close: char, n: nat)
    requires
        n <= a.len(),
    ensures
        balance_first(a + b, open, close, n) == balance_first(a, open, close, n),
        depth_first(a + b, open, close, n) == depth_first(a, open, close, n),
    decreases n,
{
    if n > 0 {
        lemma_brackets_add_left(a, b, open, close, (n - 1) as nat);
    }
}

/// Within the second text, a concatenation counts on from where the first text ends.
pub proof fn lemma_brackets_add_right(a: Seq<char>, b: Seq<char>, open: char, close: char, n: nat)
    requires
        n <= b.len(),
    ensures
        balance_first(a + b, open, close, a.len() + n) == balance(a, open, close) + balance_first(
            b,
            open,
            close,
            n,
        ),
        depth_first(a + b, open, close, a.len() + n) == if nesting_depth(a, open, close) >= balance(
            a,
            open,
            close,
        ) + depth_first(b, open, close, n) {
            nesting_depth(a, open, close)
        } else {
            balance(a, open, close) + depth_first(b, open, close, n)
        },
    decreases n,
{
    if n == 0 {
        lemma_brackets_add_left(a, b, open, close, a.len());
        lemma_depth_bounds(a, open, close, a.len());
    } else {
        lemma_brackets_add_right(a, b, open, close, (n - 1) as nat);
        assert((a + b)[a.len() + n - 1] == b[n - 1]);
    }
}

/// The balance of a concatenation is the sum of the balances; its depth is that of the
/// first text, or the balance of the first and the depth of the second, whichever is more.
pub proof fn lemma_brackets_add(a: Seq<char>, b: Seq<char>, open: char, close: char)
    ensures
        balance(a + b, open, close) == balance(a, open, close) + balance(b, open, close),
        nesting_depth(a + b, open, close) == if nesting_depth(a, open, close) >= balance(
            a,
            open,
            close,
        ) + nesting_depth(b, open, close) {
            nesting_depth(a, open, close)
        } else {
            balance(a, open, close) + nesting_depth(b, open, close)
        },
{
    lemma_brackets_add_right(a, b, open, close, b.len());
}

} // verus!
