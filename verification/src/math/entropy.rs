use vstd::prelude::*;

verus! {

/// Number of bits in an entropy pattern.
#[derive(Debug, Copy, Clone)]
pub enum EntropyBits {
    One,
    Two,
    Three,
    Four,
}

impl EntropyBits {
    pub open spec fn spec_bits(self) -> usize {
        match self {
            EntropyBits::One => 1,
            EntropyBits::Two => 2,
            EntropyBits::Three => 3,
            EntropyBits::Four => 4,
        }
    }

    pub fn bits(&self) -> (r: usize)
        ensures
            r == self.spec_bits(),
    {
        match self {
            EntropyBits::One => 1,
            EntropyBits::Two => 2,
            EntropyBits::Three => 3,
            EntropyBits::Four => 4,
        }
    }

    /// patterns = number of bits + 1.
    pub fn patterns(&self) -> (r: usize)
        ensures
            r == self.spec_bits() + 1,
    {
        match self {
            EntropyBits::One => 2,
            EntropyBits::Two => 3,
            EntropyBits::Three => 4,
            EntropyBits::Four => 5,
        }
    }
}

/// The direction an entropy reading points to.
#[derive(Debug, Clone, Copy, PartialEq, Eq, Structural)]
pub enum EntropySignal {
    Up,
    Down,
    Neutral,
}

impl EntropySignal {
    /// 1 for up, -1 for down, 0 for neutral.
    pub fn signal(&self) -> (r: i8)
        ensures
            r == (match self {
                EntropySignal::Up => 1i8,
                EntropySignal::Down => -1i8,
                EntropySignal::Neutral => 0i8,
            }),
    {
        match self {
            EntropySignal::Up => 1,
            EntropySignal::Down => -1,
            EntropySignal::Neutral => 0,
        }
    }
}

pub open spec fn pow2_nat(n: nat) -> nat
    decreases n,
{
    if n == 0 {
        1
    } else {
        2 * pow2_nat((n - 1) as nat)
    }
}

/// The pattern code of the window that starts at `i`: bit `j` is set when
/// the series falls from position `i + j` to `i + j + 1` (`falls[k]` tells
/// whether it falls from `k` to `k + 1`).
pub open spec fn pattern_code(falls: Seq<bool>, i: int, patterns: nat) -> nat
    decreases patterns,
{
    if patterns == 0 {
        0
    } else {
        pattern_code(falls, i, (patterns - 1) as nat) + if falls[i + patterns - 1] {
            pow2_nat((patterns - 1) as nat)
        } else {
            0
        }
    }
}

/// The number of windows of Shannon's entropy estimate for a series of
/// `length` values: `min(length - patterns - 1, 1024)`.
pub open spec fn window_count(length: nat, patterns: nat) -> nat {
    let n = length - patterns - 1;
    if n < 1024 {
        n as nat
    } else {
        1024
    }
}

/// The code held at slot `i` of the 1024 slots of the estimate: the window's
/// pattern code kept to 8 bits, and 0 past the last window.
pub open spec fn slot_code(falls: Seq<bool>, length: nat, patterns: nat, i: int) -> nat {
    if i < window_count(length, patterns) {
        pattern_code(falls, i, patterns) % 256
    } else {
        0
    }
}

/// How many of the first `n` slots hold code `v`.
pub open spec fn code_count(falls: Seq<bool>, length: nat, patterns: nat, n: int, v: nat) -> nat
    decreases n,
{
    if n <= 0 {
        0
    } else {
        code_count(falls, length, patterns, n - 1, v) + if slot_code(
            falls,
            length,
            patterns,
            n - 1,
        ) == v {
            1nat
        } else {
            0nat
        }
    }
}

proof fn lemma_code_count_bound(falls: Seq<bool>, length: nat, patterns: nat, n: int, v: nat)
    ensures
        code_count(falls, length, patterns, n, v) <= if n < 0 {
            0
        } else {
            n
        },
    decreases n,
{
    if n > 0 {
        lemma_code_count_bound(falls, length, patterns, n - 1, v);
    }
}

proof fn lemma_pow2_bound(n: nat)
    requires
        n <= 31,
    ensures
        pow2_nat(n) >= 1,
        pow2_nat(n) <= pow2_nat(31),
        pow2_nat(31) == 0x8000_0000,
    decreases 31 - n,
{
    assert(pow2_nat(31) == 0x8000_0000) by {
        reveal_with_fuel(pow2_nat, 32);
    }
    if n < 31 {
        lemma_pow2_bound(n + 1);
    }
}

proof fn lemma_code_bound(falls: Seq<bool>, i: int, p: nat)
    requires
        p <= 31,
    ensures
        pattern_code(falls, i, p) < pow2_nat(p),
    decreases p,
{
    if p > 0 {
        lemma_code_bound(falls, i, (p - 1) as nat);
    }
}

/// The 8-bit pattern code of each of the first `min(length, 1024)` slots of
/// Shannon's entropy estimate over `patterns` consecutive moves.
pub fn pattern_codes(falls: &[bool], length: usize, patterns: usize) -> (r: Vec<u8>)
    requires
        length >= patterns + 1,
        patterns <= 31,
        patterns > 0 ==> falls@.len() + 1 >= window_count(length as nat, patterns as nat) + patterns,
    ensures
        r@.len() == (if length < 1024 {
            length as int
        } else {
            1024
        }),
        forall|i: int|
            0 <= i < r@.len() ==> #[trigger] r@[i] == slot_code(
                falls@,
                length as nat,
                patterns as nat,
                i,
            ),
{
    let n: usize = length - patterns - 1;
    let size: usize = if n < 1024 {
        n
    } else {
        1024
    };
    let total: usize = if length < 1024 {
        length
    } else {
        1024
    };
    let mut out: Vec<u8> = Vec::new();
    let mut i: usize = 0;
    while i < total
        invariant
            size == window_count(length as nat, patterns as nat),
            total == (if length < 1024 {
                length as int
            } else {
                1024
            }),
            size <= total,
            i <= total,
            patterns <= 31,
            patterns > 0 ==> falls@.len() + 1 >= size + patterns,
            out@.len() == i,
            forall|k: int|
                0 <= k < i ==> #[trigger] out@[k] == slot_code(
                    falls@,
                    length as nat,
                    patterns as nat,
                    k,
                ),
        decreases total - i,
    {
        if i < size {
            let mut c: u32 = 0;
            let mut bit: u32 = 1;
            let mut j: usize = 0;
            while j < patterns
                invariant
                    i < size,
                    size <= 1024,
                    j < patterns ==> falls@.len() + 1 >= size + patterns,
                    patterns <= 31,
                    j <= patterns,
                    c == pattern_code(falls@, i as int, j as nat),
                    bit == pow2_nat(j as nat),
                decreases patterns - j,
            {
                proof {
                    lemma_code_bound(falls@, i as int, j as nat);
                    lemma_pow2_bound((j + 1) as nat);
                }
                if falls[i + j] {
                    c = c + bit;
                }
                bit = bit * 2;
                j = j + 1;
            }
            out.push((c % 256) as u8);
        } else {
            out.push(0u8);
        }
        i = i + 1;
    }
    out
}

/// How many of the first `min(length, 1024)` slots of Shannon's entropy
/// estimate hold each of the 256 codes; the estimate weighs code `v` by
/// `counts[v] / length`.
pub fn pattern_histogram(falls: &[bool], length: usize, patterns: usize) -> (r: Vec<usize>)
    requires
        length >= patterns + 1,
        patterns <= 31,
        patterns > 0 ==> falls@.len() + 1 >= window_count(length as nat, patterns as nat) + patterns,
    ensures
        r@.len() == 256,
        forall|v: int|
            0 <= v < 256 ==> #[trigger] r@[v] == code_count(
                falls@,
                length as nat,
                patterns as nat,
                if length < 1024 {
                    length as int
                } else {
                    1024
                },
                v as nat,
            ),
{
    let codes = pattern_codes(falls, length, patterns);
    let mut counts: Vec<usize> = Vec::new();
    let mut v: usize = 0;
    while v < 256
        invariant
            v <= 256,
            counts@.len() == v,
            forall|k: int| 0 <= k < v ==> #[trigger] counts@[k] == 0,
        decreases 256 - v,
    {
        counts.push(0);
        v = v + 1;
    }
    let total = codes.len();
    let mut i: usize = 0;
    while i < total
        invariant
            total == codes@.len(),
            total <= 1024,
            total == (if length < 1024 {
                length as int
            } else {
                1024
            }),
            i <= total,
            counts@.len() == 256,
            forall|k: int|
                0 <= k < total ==> #[trigger] codes@[k] == slot_code(
                    falls@,
                    length as nat,
                    patterns as nat,
                    k,
                ),
            forall|w: int|
                0 <= w < 256 ==> #[trigger] counts@[w] == code_count(
                    falls@,
                    length as nat,
                    patterns as nat,
                    i as int,
                    w as nat,
                ),
        decreases total - i,
    {
        let c = codes[i] as usize;
        proof {
            lemma_code_count_bound(falls@, length as nat, patterns as nat, i as int, c as nat);
        }
        let old_count = counts[c];
        counts.set(c, old_count + 1);
        i = i + 1;
    }
    counts
}

} // verus!
