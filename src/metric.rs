//! Per-position predicates: G/C membership, and the start of a length-`k`
//! stretch equal to its own reverse complement.

use vstd::arithmetic::div_mod::lemma_fundamental_div_mod_converse;
use vstd::prelude::*;

verus! {

/// ASCII code of `A`.
pub const BASE_A: u8 = 65;
/// ASCII code of `C`.
pub const BASE_C: u8 = 67;
/// ASCII code of `G`.
pub const BASE_G: u8 = 71;
/// ASCII code of `T`.
pub const BASE_T: u8 = 84;
/// ASCII code of `N`, the complement of a symbol outside A, C, G, T.
pub const BASE_N: u8 = 78;

/// Whether `b` is one of the four bases A, C, G, T.
pub open spec fn is_base(b: u8) -> bool {
    b == BASE_A || b == BASE_C || b == BASE_G || b == BASE_T
}

/// Whether `b` is G or C.
pub open spec fn is_gc(b: u8) -> bool {
    b == BASE_G || b == BASE_C
}

/// Watson-Crick pairing; every other symbol maps to the sentinel `N`.
pub open spec fn complement_of(b: u8) -> u8 {
    if b == BASE_A {
        BASE_T
    } else if b == BASE_T {
        BASE_A
    } else if b == BASE_G {
        BASE_C
    } else if b == BASE_C {
        BASE_G
    } else {
        BASE_N
    }
}

/// Whether `a` pairs with `b`. A symbol outside A, C, G, T pairs with nothing.
pub open spec fn pairs(a: u8, b: u8) -> bool {
    is_base(a) && complement_of(a) == b
}

/// Whether the `j`-th base of the length-`k` stretch at `start` pairs with
/// its mirror image `k - 1 - j`, indices taken circularly.
pub open spec fn mirror_pairs(s: Seq<u8>, start: int, k: int, j: int) -> bool {
    pairs(s[(start + j) % (s.len() as int)], s[(start + k - 1 - j) % (s.len() as int)])
}

/// Whether the length-`k` stretch at `start` is its own reverse complement.
/// For odd `k` the middle base is not constrained.
pub open spec fn is_palindrome_at(s: Seq<u8>, start: int, k: int) -> bool {
    forall|j: int| 0 <= j < k / 2 ==> #[trigger] mirror_pairs(s, start, k, j)
}

/// The per-position predicate that a window counts.
#[derive(Clone, Copy, Debug, PartialEq, Eq, Structural)]
pub enum Metric {
    /// The base at the position is G or C.
    Gc,
    /// A length-`k` self-complementary stretch starts at the position.
    Palindrome { k: usize },
}

/// Whether `metric` holds at position `i` of `s`.
pub open spec fn metric_holds(s: Seq<u8>, metric: Metric, i: int) -> bool {
    match metric {
        Metric::Gc => is_gc(s[i]),
        Metric::Palindrome { k } => is_palindrome_at(s, i, k as int),
    }
}

/// One flag per position of `s`.
pub open spec fn metric_flags(s: Seq<u8>, metric: Metric) -> Seq<bool> {
    Seq::new(s.len(), |i: int| metric_holds(s, metric, i))
}

/// The base that pairs with `base`; `N` for a symbol outside A, C, G, T.
pub fn complement(base: u8) -> (r: u8)
    ensures
        r == complement_of(base),
{
    match base {
        BASE_A => BASE_T,
        BASE_T => BASE_A,
        BASE_G => BASE_C,
        BASE_C => BASE_G,
        _ => BASE_N,
    }
}

/// Whether `a` pairs with `b`; never for a symbol outside A, C, G, T.
pub fn pairs_with(a: u8, b: u8) -> (r: bool)
    ensures
        r == pairs(a, b),
{
    let is_known = a == BASE_A || a == BASE_C || a == BASE_G || a == BASE_T;
    is_known && complement(a) == b
}

/// `(a + b) % n` for `a, b < n`, without overflow.
fn add_mod(a: usize, b: usize, n: usize) -> (r: usize)
    requires
        a < n,
        b < n,
    ensures
        r == (a + b) % (n as int),
        r < n,
{
    if a >= n - b {
        proof {
            lemma_fundamental_div_mod_converse(a + b, n as int, 1, a + b - n);
        }
        a - (n - b)
    } else {
        proof {
            lemma_fundamental_div_mod_converse(a + b, n as int, 0, a + b);
        }
        a + b
    }
}

/// Whether the length-`k` stretch that starts at `start` reads, circularly,
/// the same as its reverse complement.
pub fn is_palindrome_circular(seq: &Vec<u8>, start: usize, k: usize) -> (r: bool)
    requires
        0 < seq.len(),
        start < seq.len(),
        k <= seq.len(),
    ensures
        r == is_palindrome_at(seq@, start as int, k as int),
{
    let n = seq.len();
    let half = k / 2;
    let mut i: usize = 0;
    while i < half
        invariant
            n == seq.len(),
            0 < n,
            start < n,
            k <= n,
            half == k / 2,
            i <= half,
            forall|j: int| 0 <= j < i ==> #[trigger] mirror_pairs(seq@, start as int, k as int, j),
        decreases half - i,
    {
        let a = seq[add_mod(start, i, n)];
        let b = seq[add_mod(start, k - 1 - i, n)];
        if !pairs_with(a, b) {
            assert(!mirror_pairs(seq@, start as int, k as int, i as int));
            return false;
        }
        i = i + 1;
    }
    true
}

/// Flags each position whose base is G or C.
pub fn gc_flags(seq: &Vec<u8>) -> (r: Vec<bool>)
    ensures
        r@ == metric_flags(seq@, Metric::Gc),
{
    let mut flags: Vec<bool> = Vec::new();
    let mut i: usize = 0;
    while i < seq.len()
        invariant
            i <= seq.len(),
            flags@.len() == i,
            forall|j: int| 0 <= j < i ==> #[trigger] flags@[j] == is_gc(seq@[j]),
        decreases seq.len() - i,
    {
        let b = seq[i];
        flags.push(b == BASE_G || b == BASE_C);
        i = i + 1;
    }
    assert(flags@ =~= metric_flags(seq@, Metric::Gc));
    flags
}

/// Flags each position at which a length-`k` self-complementary stretch
/// starts.
pub fn palindrome_flags(seq: &Vec<u8>, k: usize) -> (r: Vec<bool>)
    requires
        k <= seq.len(),
    ensures
        r@ == metric_flags(seq@, Metric::Palindrome { k }),
{
    let n = seq.len();
    let mut flags: Vec<bool> = Vec::new();
    let mut i: usize = 0;
    while i < n
        invariant
            n == seq.len(),
            k <= n,
            i <= n,
            flags@.len() == i,
            forall|j: int|
                0 <= j < i ==> #[trigger] flags@[j] == is_palindrome_at(seq@, j, k as int),
        decreases n - i,
    {
        flags.push(is_palindrome_circular(seq, i, k));
        i = i + 1;
    }
    assert(flags@ =~= metric_flags(seq@, Metric::Palindrome { k }));
    flags
}

/// A symbol outside A, C, G, T is never G or C, pairs with no symbol, and
/// no symbol pairs with it.
pub proof fn lemma_unknown_symbol_never_matches(u: u8, b: u8)
    requires
        !is_base(u),
    ensures
        !is_gc(u),
        !pairs(u, b),
        !pairs(b, u),
{
}

/// A stretch in which some base, or its mirror partner, lies outside A, C,
/// G, T is never flagged as a palindrome.
pub proof fn lemma_unknown_symbol_breaks_palindrome(s: Seq<u8>, start: int, k: int, j: int)
    requires
        0 < s.len(),
        0 <= start < s.len(),
        0 <= j < k / 2,
        !is_base(s[(start + j) % (s.len() as int)]) || !is_base(
            s[(start + k - 1 - j) % (s.len() as int)],
        ),
    ensures
        !is_palindrome_at(s, start, k),
{
    assert(!mirror_pairs(s, start, k, j));
}

} // verus!
