//! Pairing of the two bracket instructions over a flat instruction stream.
//!
//! `!` opens a block and `?` closes it. The nesting depth of a stream at a position is the
//! number of `!` minus the number of `?` before that position. A forward scan from a `!` ends at
//! the first `?` after which the depth is back to what it was before the `!`; a backward scan
//! from a `?` ends at the last `!` before which the depth is what it is after the `?`.

use vstd::prelude::*;

verus! {

/// The instruction that skips forward past its partner when the selected cell is zero.
pub const SKIP_MARKER: char = '!';

/// The instruction that loops back to its partner when the selected cell is not zero.
pub const LOOP_MARKER: char = '?';

/// What one character adds to the nesting depth.
pub open spec fn weight(c: char) -> int {
    if c == SKIP_MARKER {
        1
    } else if c == LOOP_MARKER {
        -1
    } else {
        0
    }
}

/// The nesting depth after the first `k` characters of `code`.
pub open spec fn depth(code: Seq<char>, k: int) -> int
    decreases k,
{
    if k <= 0 {
        0
    } else {
        depth(code, k - 1) + weight(code[k - 1])
    }
}

/// `j` is where the forward scan that starts after position `i` ends: the first position
/// after `i` whose character takes the depth below the depth just after `i`.
pub open spec fn is_skip_partner(code: Seq<char>, i: int, j: int) -> bool {
    &&& 0 <= i < j < code.len()
    &&& depth(code, j + 1) == depth(code, i + 1) - 1
    &&& forall|k: int| i < k <= j ==> #[trigger] depth(code, k) >= depth(code, i + 1)
}

/// `i` is where the backward scan that starts before position `j` ends: the last position
/// before `j` whose character raises the depth from below the depth just before `j`.
pub open spec fn is_loop_partner(code: Seq<char>, j: int, i: int) -> bool {
    &&& 0 <= i < j < code.len()
    &&& depth(code, i) == depth(code, j) - 1
    &&& forall|k: int| i < k <= j ==> #[trigger] depth(code, k) >= depth(code, j)
}

/// The end of the forward scan from position `i`, if the scan ends inside the stream.
pub open spec fn skip_partner(code: Seq<char>, i: int) -> Option<int> {
    if exists|j: int| is_skip_partner(code, i, j) {
        Some(choose|j: int| is_skip_partner(code, i, j))
    } else {
        None
    }
}

/// The end of the backward scan from position `j`, if the scan ends inside the stream.
pub open spec fn loop_partner(code: Seq<char>, j: int) -> Option<int> {
    if exists|i: int| is_loop_partner(code, j, i) {
        Some(choose|i: int| is_loop_partner(code, j, i))
    } else {
        None
    }
}

/// A forward scan has at most one end.
pub proof fn lemma_skip_partner_unique(code: Seq<char>, i: int, j1: int, j2: int)
    requires
        is_skip_partner(code, i, j1),
        is_skip_partner(code, i, j2),
    ensures
        j1 == j2,
{
    if j1 < j2 {
        assert(depth(code, j1 + 1) >= depth(code, i + 1));
    } else if j2 < j1 {
        assert(depth(code, j2 + 1) >= depth(code, i + 1));
    }
}

/// A backward scan has at most one end.
pub proof fn lemma_loop_partner_unique(code: Seq<char>, j: int, i1: int, i2: int)
    requires
        is_loop_partner(code, j, i1),
        is_loop_partner(code, j, i2),
    ensures
        i1 == i2,
{
    if i1 < i2 {
        assert(depth(code, i2) >= depth(code, j));
    } else if i2 < i1 {
        assert(depth(code, i1) >= depth(code, j));
    }
}

/// Scans forward from the position after `pc` with a depth counter that starts at 1, adding
/// one for each `!` and taking one off for each `?`, and returns the position at which the
/// counter reaches 0, or `None` if the stream ends first.
pub fn find_skip_partner(code: &[char], pc: usize) -> (found: Option<usize>)
    ensures
        match found {
            Some(j) => skip_partner(code@, pc as int) == Some(j as int),
            None => skip_partner(code@, pc as int) is None,
        },
        found matches Some(j) ==> is_skip_partner(code@, pc as int, j as int),
{
    let n: usize = code.len();
    if pc >= n {
        return None;
    }
    let mut open: usize = 1;
    let mut at: usize = pc;
    while open > 0
        invariant
            n == code@.len(),
            pc <= at < n,
            open <= at - pc + 1,
            open == 0 ==> pc < at,
            open as int == 1 + depth(code@, at + 1) - depth(code@, pc + 1),
            forall|k: int| pc < k <= at ==> #[trigger] depth(code@, k) >= depth(code@, pc + 1),
        decreases n - at,
    {
        at = at + 1;
        if at >= n {
            return None;
        }
        assert(depth(code@, at + 1) == depth(code@, at as int) + weight(code@[at as int]));
        if code[at] == SKIP_MARKER {
            open = open + 1;
        } else if code[at] == LOOP_MARKER {
            open = open - 1;
        }
    }
    proof {
        assert(is_skip_partner(code@, pc as int, at as int));
        let j = choose|j: int| is_skip_partner(code@, pc as int, j);
        lemma_skip_partner_unique(code@, pc as int, j, at as int);
    }
    Some(at)
}

/// Scans backward from the position before `pc` with a depth counter that starts at 1, adding
/// one for each `?` and taking one off for each `!`, and returns the position at which the
/// counter reaches 0, or `None` if the stream begins first.
pub fn find_loop_partner(code: &[char], pc: usize) -> (found: Option<usize>)
    ensures
        match found {
            Some(i) => loop_partner(code@, pc as int) == Some(i as int),
            None => loop_partner(code@, pc as int) is None,
        },
        found matches Some(i) ==> is_loop_partner(code@, pc as int, i as int),
{
    let n: usize = code.len();
    if pc >= n {
        return None;
    }
    let mut close: usize = 1;
    let mut at: usize = pc;
    while close > 0
        invariant
            n == code@.len(),
            at <= pc < n,
            close <= pc - at + 1,
            close == 0 ==> at < pc,
            close as int == 1 + depth(code@, at as int) - depth(code@, pc as int),
            forall|k: int| at < k <= pc ==> #[trigger] depth(code@, k) >= depth(code@, pc as int),
        decreases at,
    {
        if at == 0 {
            return None;
        }
        at = at - 1;
        assert(depth(code@, at + 1) == depth(code@, at as int) + weight(code@[at as int]));
        if code[at] == SKIP_MARKER {
            close = close - 1;
        } else if code[at] == LOOP_MARKER {
            close = close + 1;
        }
    }
    proof {
        assert(is_loop_partner(code@, pc as int, at as int));
        let i = choose|i: int| is_loop_partner(code@, pc as int, i);
        lemma_loop_partner_unique(code@, pc as int, i, at as int);
    }
    Some(at)
}

/// Over a stretch without brackets the depth does not change.
pub proof fn lemma_depth_of_plain_stretch(code: Seq<char>, from: int, to: int)
    requires
        0 <= from <= to <= code.len(),
        forall|k: int| from <= k < to ==> weight(code[k]) == 0,
    ensures
        forall|k: int| from <= k <= to ==> #[trigger] depth(code, k) == depth(code, from),
    decreases to - from,
{
    if from < to {
        lemma_depth_of_plain_stretch(code, from, to - 1);
        assert(depth(code, to) == depth(code, to - 1) + weight(code[to - 1]));
    }
}

/// A `!` and a `?` with no bracket between them are partners.
pub proof fn lemma_plain_block_pairs(code: Seq<char>, i: int, j: int)
    requires
        0 <= i < j < code.len(),
        code[i] == SKIP_MARKER,
        code[j] == LOOP_MARKER,
        forall|k: int| i < k < j ==> weight(code[k]) == 0,
    ensures
        skip_partner(code, i) == Some(j),
        loop_partner(code, j) == Some(i),
{
    lemma_depth_of_plain_stretch(code, i + 1, j);
    assert(depth(code, i + 1) == depth(code, i) + weight(code[i]));
    assert(depth(code, j + 1) == depth(code, j) + weight(code[j]));
    assert(depth(code, j) == depth(code, i + 1));
    assert(is_skip_partner(code, i, j));
    lemma_skip_partner_pairs(code, i, j);
    lemma_skip_partner_unique(code, i, j, choose|k: int| is_skip_partner(code, i, k));
}

/// A stream is well formed when its brackets nest: the depth never falls below zero and is
/// zero at the end.
pub open spec fn balanced(code: Seq<char>) -> bool {
    &&& forall|k: int| 0 <= k <= code.len() ==> #[trigger] depth(code, k) >= 0
    &&& depth(code, code.len() as int) == 0
}

/// The forward scan from a `!` and the backward scan from a `?` describe the same pairs: the
/// forward scan from a `!` ends at a `?`, and the backward scan from that `?` ends at the `!`.
pub proof fn lemma_skip_partner_pairs(code: Seq<char>, i: int, j: int)
    requires
        0 <= i < code.len(),
        code[i] == SKIP_MARKER,
        is_skip_partner(code, i, j),
    ensures
        code[j] == LOOP_MARKER,
        is_loop_partner(code, j, i),
        loop_partner(code, j) == Some(i),
{
    assert(depth(code, i + 1) == depth(code, i) + weight(code[i]));
    assert(depth(code, j + 1) == depth(code, j) + weight(code[j]));
    assert(depth(code, j) >= depth(code, i + 1));
    assert(is_loop_partner(code, j, i));
    lemma_loop_partner_unique(code, j, i, choose|k: int| is_loop_partner(code, j, k));
}

/// The backward scan from a `?` ends at a `!`, and the forward scan from that `!` ends at the
/// `?`.
pub proof fn lemma_loop_partner_pairs(code: Seq<char>, j: int, i: int)
    requires
        0 <= j < code.len(),
        code[j] == LOOP_MARKER,
        is_loop_partner(code, j, i),
    ensures
        code[i] == SKIP_MARKER,
        is_skip_partner(code, i, j),
        skip_partner(code, i) == Some(j),
{
    assert(depth(code, i + 1) == depth(code, i) + weight(code[i]));
    assert(depth(code, j + 1) == depth(code, j) + weight(code[j]));
    assert(depth(code, i + 1) >= depth(code, j));
    assert(is_skip_partner(code, i, j));
    lemma_skip_partner_unique(code, i, j, choose|k: int| is_skip_partner(code, i, k));
}

/// A forward scan that has stayed at or above its starting depth up to `k` ends somewhere, if
/// the depth at the end of the stream is below the starting depth.
proof fn lemma_forward_scan_ends(code: Seq<char>, i: int, k: int) -> (j: int)
    requires
        0 <= i < k <= code.len(),
        forall|m: int| i < m <= k ==> #[trigger] depth(code, m) >= depth(code, i + 1),
        depth(code, code.len() as int) < depth(code, i + 1),
    ensures
        is_skip_partner(code, i, j),
    decreases code.len() - k,
{
    assert(depth(code, k) >= depth(code, i + 1));
    assert(depth(code, k + 1) == depth(code, k) + weight(code[k]));
    if depth(code, k + 1) < depth(code, i + 1) {
        k
    } else {
        lemma_forward_scan_ends(code, i, k + 1)
    }
}

/// A backward scan that has stayed at or above its starting depth down to `k` ends somewhere,
/// if the depth at the start of the stream is below the starting depth.
proof fn lemma_backward_scan_ends(code: Seq<char>, j: int, k: int) -> (i: int)
    requires
        0 <= k <= j < code.len(),
        forall|m: int| k <= m <= j ==> #[trigger] depth(code, m) >= depth(code, j),
        depth(code, 0) < depth(code, j),
    ensures
        is_loop_partner(code, j, i),
    decreases k,
{
    assert(depth(code, k) >= depth(code, j));
    assert(depth(code, k) == depth(code, k - 1) + weight(code[k - 1]));
    if depth(code, k - 1) < depth(code, j) {
        k - 1
    } else {
        lemma_backward_scan_ends(code, j, k - 1)
    }
}

/// In a well-formed stream every `!` has exactly one partner: a `?` after it, whose own
/// partner is that `!`.
pub proof fn lemma_balanced_skip_has_partner(code: Seq<char>, i: int)
    requires
        balanced(code),
        0 <= i < code.len(),
        code[i] == SKIP_MARKER,
    ensures
        skip_partner(code, i) is Some,
        i < skip_partner(code, i)->Some_0 < code.len(),
        code[skip_partner(code, i)->Some_0] == LOOP_MARKER,
        loop_partner(code, skip_partner(code, i)->Some_0) == Some(i),
        forall|j: int| is_skip_partner(code, i, j) ==> j == skip_partner(code, i)->Some_0,
{
    assert(depth(code, i + 1) == depth(code, i) + weight(code[i]));
    assert(depth(code, i) >= 0);
    let found = lemma_forward_scan_ends(code, i, i + 1);
    let j = skip_partner(code, i)->Some_0;
    lemma_skip_partner_pairs(code, i, j);
    assert forall|k: int| is_skip_partner(code, i, k) implies k == j by {
        lemma_skip_partner_unique(code, i, k, j);
    }
}

/// In a well-formed stream every `?` has exactly one partner: a `!` before it, whose own
/// partner is that `?`.
pub proof fn lemma_balanced_loop_has_partner(code: Seq<char>, j: int)
    requires
        balanced(code),
        0 <= j < code.len(),
        code[j] == LOOP_MARKER,
    ensures
        loop_partner(code, j) is Some,
        0 <= loop_partner(code, j)->Some_0 < j,
        code[loop_partner(code, j)->Some_0] == SKIP_MARKER,
        skip_partner(code, loop_partner(code, j)->Some_0) == Some(j),
        forall|i: int| is_loop_partner(code, j, i) ==> i == loop_partner(code, j)->Some_0,
{
    assert(depth(code, j + 1) == depth(code, j) + weight(code[j]));
    assert(depth(code, j + 1) >= 0);
    let found = lemma_backward_scan_ends(code, j, j);
    let i = loop_partner(code, j)->Some_0;
    lemma_loop_partner_pairs(code, j, i);
    assert forall|k: int| is_loop_partner(code, j, k) implies k == i by {
        lemma_loop_partner_unique(code, j, k, i);
    }
}

} // verus!
