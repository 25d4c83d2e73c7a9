//! Scores: numbers of 64 bits in the binary format of IEEE 754, compared by
//! their bit patterns.
use vstd::prelude::*;

verus! {

/// A score, by its bit pattern.
#[derive(Clone, Copy, Debug, PartialEq, Eq, Structural)]
pub struct Score {
    /// The sign in the highest bit, then the exponent, then the fraction.
    pub bits: u64,
}

/// The bit pattern of the sign alone.
pub const SIGN: u64 = 0x8000_0000_0000_0000;

/// The bit pattern of infinity; larger magnitudes are no numbers.
pub const INFINITE: u64 = 0x7FF0_0000_0000_0000;

/// One step of the exponent.
pub const STEP: u64 = 0x0010_0000_0000_0000;

/// The bit pattern of 0.5.
pub const HALF: u64 = 0x3FE0_0000_0000_0000;

/// The bit pattern of 0.1.
pub const TENTH: u64 = 0x3FB9_9999_9999_999A;

/// The magnitude of half of what has magnitude `m`. The exponent goes down one
/// step; near zero, where there is no lower exponent, the pattern is halved, and
/// a half goes to the even neighbour. Infinity and what is no number stay.
pub open spec fn half(m: int) -> int {
    if m >= INFINITE {
        m
    } else if m >= 2 * STEP {
        m - STEP
    } else if m % 4 == 3 {
        m / 2 + 1
    } else {
        m / 2
    }
}

impl Score {
    /// The score has a minus sign.
    pub open spec fn negative(self) -> bool {
        self.bits >= SIGN
    }

    /// The bit pattern without the sign.
    pub open spec fn magnitude(self) -> u64 {
        if self.negative() {
            (self.bits - SIGN) as u64
        } else {
            self.bits
        }
    }

    /// The place of the score in the order of numbers: bit patterns of like sign
    /// are ordered as what they stand for, and the two zeros are equal. What is
    /// no number has no place.
    pub open spec fn place(self) -> Option<int> {
        if self.magnitude() > INFINITE {
            None
        } else if self.negative() {
            Some(-(self.magnitude() as int))
        } else {
            Some(self.magnitude() as int)
        }
    }

    /// Both are numbers, and the first is less.
    pub open spec fn lt(self, other: Score) -> bool {
        match (self.place(), other.place()) {
            (Some(a), Some(b)) => a < b,
            _ => false,
        }
    }

    /// Both are numbers, and the first is not less.
    pub open spec fn ge(self, other: Score) -> bool {
        match (self.place(), other.place()) {
            (Some(a), Some(b)) => a >= b,
            _ => false,
        }
    }

    /// The larger of the two; where only the second is a number, the second.
    pub open spec fn larger(self, other: Score) -> Score {
        if self.place() is None || self.lt(other) {
            other
        } else {
            self
        }
    }

    /// Half the score: half the magnitude, and the same sign.
    pub open spec fn halved(self) -> Score {
        let h = half(self.magnitude() as int);
        Score {
            bits: if self.negative() {
                (h + SIGN) as u64
            } else {
                h as u64
            },
        }
    }

    /// Whether both are numbers and the first is less.
    pub fn is_less(self, other: Score) -> (r: bool)
        ensures
            r == self.lt(other),
    {
        let a: u64 = self.size();
        let b: u64 = other.size();
        if a > INFINITE || b > INFINITE {
            return false;
        }
        let minus = self.bits >= SIGN;
        let other_minus = other.bits >= SIGN;
        if minus && other_minus {
            a > b
        } else if minus {
            a > 0 || b > 0
        } else if other_minus {
            false
        } else {
            a < b
        }
    }

    fn size(self) -> (r: u64)
        ensures
            r == self.magnitude(),
            r < SIGN,
    {
        if self.bits >= SIGN {
            self.bits - SIGN
        } else {
            self.bits
        }
    }

    /// Whether both are numbers and the first is not less.
    pub fn at_least(self, other: Score) -> (r: bool)
        ensures
            r == self.ge(other),
    {
        self.size() <= INFINITE && other.size() <= INFINITE && !self.is_less(other)
    }

    /// The larger of the two.
    pub fn max_with(self, other: Score) -> (r: Score)
        ensures
            r == self.larger(other),
    {
        if self.size() > INFINITE || self.is_less(other) {
            other
        } else {
            self
        }
    }

    /// Half the score.
    pub fn halve(self) -> (r: Score)
        ensures
            r == self.halved(),
    {
        let m: u64 = self.size();
        let h: u64 = if m >= INFINITE {
            m
        } else if m >= 2 * STEP {
            m - STEP
        } else if m % 4 == 3 {
            m / 2 + 1
        } else {
            m / 2
        };
        if self.bits >= SIGN {
            Score { bits: h + SIGN }
        } else {
            Score { bits: h }
        }
    }
}

proof fn lemma_half(m: int, n: int)
    requires
        0 <= m <= n < SIGN,
    ensures
        0 <= half(m) <= half(n) <= n,
        half(n) > INFINITE <==> n > INFINITE,
{
    if n < 2 * STEP {
        assert(m / 2 < n / 2 || m == n || (m % 2 == 0 && n == m + 1));
    }
}

/// Halving keeps the order of scores, up to ties.
pub proof fn lemma_halved_order(a: Score, b: Score)
    requires
        a.lt(b),
    ensures
        !b.halved().lt(a.halved()),
{
    let (m, n) = (a.magnitude() as int, b.magnitude() as int);
    lemma_half(m, m);
    lemma_half(n, n);
    if m <= n {
        lemma_half(m, n);
    } else {
        lemma_half(n, m);
    }
    assert(a.halved().magnitude() == half(m));
    assert(b.halved().magnitude() == half(n));
    assert(a.halved().negative() == a.negative());
    assert(b.halved().negative() == b.negative());
}

/// Half of what is not negative is no more than it.
pub proof fn lemma_halved_less(a: Score)
    requires
        !a.negative(),
    ensures
        !a.lt(a.halved()),
        !a.larger(Score { bits: HALF }).lt(a.halved()),
{
    lemma_half(a.magnitude() as int, a.magnitude() as int);
}

} // verus!
