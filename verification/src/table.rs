//! The one-time truth table: a dealer hands each party a shifted and masked
//! half of the table, and one message each way gives Alice the entry for both
//! inputs.
use crate::random::random_in_range;
use vstd::arithmetic::div_mod::{lemma_fundamental_div_mod, lemma_fundamental_div_mod_converse};
use vstd::prelude::*;

verus! {

/// The remainder of `a` modulo `b` that has the sign of `b`.
pub open spec fn remainder(a: int, b: int) -> int {
    if b > 0 {
        a % b
    } else {
        -((-a) % (-b))
    }
}

/// The remainder of a negated number: it is zero where the remainder of the
/// number is, and else what that remainder lacks to the modulus.
pub proof fn lemma_remainder_of_negated(x: int, m: int)
    requires
        m > 0,
    ensures
        0 <= x % m < m,
        (-x) % m == (if x % m == 0 { 0 } else { m - x % m }),
{
    lemma_fundamental_div_mod(x, m);
    let q = x / m;
    let r = x % m;
    assert(m * q == q * m) by (nonlinear_arith);
    if r == 0 {
        assert(-x == (-q) * m + 0) by (nonlinear_arith)
            requires
                x == q * m + r,
                r == 0,
        ;
        lemma_fundamental_div_mod_converse(-x, m, -q, 0);
    } else {
        assert(-x == (-q - 1) * m + (m - r)) by (nonlinear_arith)
            requires
                x == q * m + r,
        ;
        lemma_fundamental_div_mod_converse(-x, m, -q - 1, m - r);
    }
}

/// The remainder of `a` modulo `b` with the sign of `b`: for a positive `b`
/// the least non-negative remainder.
pub fn modulo(a: i32, b: i32) -> (out: i32)
    requires
        b != 0,
    ensures
        out == remainder(a as int, b as int),
{
    let magnitude: i64 = if b > 0 {
        b as i64
    } else {
        -(b as i64)
    };
    let wide: i64 = a as i64;
    if wide >= 0 {
        let r: i64 = wide % magnitude;
        proof {
            lemma_remainder_of_negated(wide as int, magnitude as int);
        }
        if b > 0 || r == 0 {
            r as i32
        } else {
            (r - magnitude) as i32
        }
    } else {
        let r: i64 = (-wide) % magnitude;
        proof {
            lemma_remainder_of_negated(-wide as int, magnitude as int);
        }
        if b < 0 || r == 0 {
            (-r) as i32
        } else {
            (magnitude - r) as i32
        }
    }
}

/// The entry of `table` for the inputs `x` and `y`, each taken modulo 8.
pub open spec fn entry(table: [[u8; 8]; 8], x: int, y: int) -> u8 {
    table[x % 8][y % 8]
}

/// Whether every entry of `mask` is zero.
pub open spec fn all_zero(mask: [[u8; 8]; 8]) -> bool {
    forall|i: int, j: int| 0 <= i < 8 && 0 <= j < 8 ==> #[trigger] mask[i][j] == 0
}

/// Whether every entry of `mask` is a bit.
pub open spec fn all_bits(mask: [[u8; 8]; 8]) -> bool {
    forall|i: int, j: int| 0 <= i < 8 && 0 <= j < 8 ==> #[trigger] mask[i][j] <= 1
}

/// Whether `mask_a` and `mask_b` share `table` shifted by `r` rows and `s`
/// columns: entry by entry, their exclusive or is the entry of `table` that
/// lies `r` rows up and `s` columns to the left, around the edges.
pub open spec fn shares_shifted(
    table: [[u8; 8]; 8],
    r: int,
    s: int,
    mask_a: [[u8; 8]; 8],
    mask_b: [[u8; 8]; 8],
) -> bool {
    forall|i: int, j: int|
        0 <= i < 8 && 0 <= j < 8 ==> #[trigger] mask_a[i][j] == mask_b[i][j] ^ entry(
            table,
            i - r,
            j - s,
        )
}

/// The dealer of the truth-table protocol.
pub struct TrustedDealer {
    r: i32,
    s: i32,
    tt: [[u8; 8]; 8],
    m_a: [[u8; 8]; 8],
    m_b: [[u8; 8]; 8],
}

impl TrustedDealer {
    /// The truth table that the dealer works on.
    pub closed spec fn table(&self) -> [[u8; 8]; 8] {
        self.tt
    }

    /// What the dealer holds for Alice: her shift and her mask.
    pub closed spec fn for_alice(&self) -> (i32, [[u8; 8]; 8]) {
        (self.r, self.m_a)
    }

    /// What the dealer holds for Bob: his shift and his mask.
    pub closed spec fn for_bob(&self) -> (i32, [[u8; 8]; 8]) {
        (self.s, self.m_b)
    }

    /// Whether the dealer has dealt: both shifts lie in `0..8`, Bob's mask
    /// is made of bits, and the two masks share the shifted table.
    pub open spec fn dealt(&self) -> bool {
        &&& 0 <= self.for_alice().0 < 8
        &&& 0 <= self.for_bob().0 < 8
        &&& all_bits(self.for_bob().1)
        &&& shares_shifted(
            self.table(),
            self.for_alice().0 as int,
            self.for_bob().0 as int,
            self.for_alice().1,
            self.for_bob().1,
        )
    }

    /// A dealer for the truth table `tt` that has not dealt yet.
    pub fn new(tt: [[u8; 8]; 8]) -> (dealer: TrustedDealer)
        ensures
            dealer.table() == tt,
            dealer.for_alice().0 == 0 && all_zero(dealer.for_alice().1),
            dealer.for_bob().0 == 0 && all_zero(dealer.for_bob().1),
    {
        TrustedDealer { tt, r: 0, s: 0, m_a: [[0; 8]; 8], m_b: [[0; 8]; 8] }
    }

    /// Deals: draws the two shifts and Bob's mask at random and sets Alice's
    /// mask so that both share the shifted table.
    pub fn init(&mut self)
        ensures
            final(self).table() == old(self).table(),
            final(self).dealt(),
    {
        self.r = random_in_range(0, 8);
        self.s = random_in_range(0, 8);
        let mut i: usize = 0;
        while i < 8
            invariant
                i <= 8,
                0 <= self.r < 8,
                0 <= self.s < 8,
                self.tt == old(self).tt,
                forall|k: int, l: int| 0 <= k < i && 0 <= l < 8 ==> #[trigger] self.m_b[k][l] <= 1,
            decreases 8 - i,
        {
            let mut j: usize = 0;
            while j < 8
                invariant
                    i < 8,
                    j <= 8,
                    0 <= self.r < 8,
                    0 <= self.s < 8,
                    self.tt == old(self).tt,
                    forall|k: int, l: int|
                        0 <= k < i && 0 <= l < 8 ==> #[trigger] self.m_b[k][l] <= 1,
                    forall|l: int| 0 <= l < j ==> #[trigger] self.m_b[i as int][l] <= 1,
                decreases 8 - j,
            {
                let bit: i32 = random_in_range(0, 2);
                self.m_b[i][j] = bit as u8;
                j += 1;
            }
            i += 1;
        }
        let mut i: usize = 0;
        while i < 8
            invariant
                i <= 8,
                0 <= self.r < 8,
                0 <= self.s < 8,
                self.tt == old(self).tt,
                all_bits(self.m_b),
                forall|k: int, l: int|
                    0 <= k < i && 0 <= l < 8 ==> #[trigger] self.m_a[k][l] == self.m_b[k][l] ^ entry(
                        self.tt,
                        k - self.r,
                        l - self.s,
                    ),
            decreases 8 - i,
        {
            let mut j: usize = 0;
            while j < 8
                invariant
                    i < 8,
                    j <= 8,
                    0 <= self.r < 8,
                    0 <= self.s < 8,
                    self.tt == old(self).tt,
                    all_bits(self.m_b),
                    forall|k: int, l: int|
                        0 <= k < i && 0 <= l < 8 ==> #[trigger] self.m_a[k][l] == self.m_b[k][l]
                            ^ entry(self.tt, k - self.r, l - self.s),
                    forall|l: int|
                        0 <= l < j ==> #[trigger] self.m_a[i as int][l] == self.m_b[i as int][l]
                            ^ entry(self.tt, i - self.r, l - self.s),
                decreases 8 - j,
            {
                let shifted_i = modulo(i as i32 - self.r, 8);
                let shifted_j = modulo(j as i32 - self.s, 8);
                self.m_a[i][j] = self.m_b[i][j] ^ self.tt[shifted_i as usize][shifted_j as usize];
                j += 1;
            }
            i += 1;
        }
    }

    /// Hands out Alice's shift and mask.
    pub fn rand_a(&self) -> (out: (i32, [[u8; 8]; 8]))
        ensures
            out == self.for_alice(),
    {
        (self.r, self.m_a)
    }

    /// Hands out Bob's shift and mask.
    pub fn rand_b(&self) -> (out: (i32, [[u8; 8]; 8]))
        ensures
            out == self.for_bob(),
    {
        (self.s, self.m_b)
    }
}

/// Alice of the truth-table protocol: she learns the entry.
pub struct Alice {
    m_a: [[u8; 8]; 8],
    u: i32,
    z: u8,
}

impl Alice {
    /// Alice's mask.
    pub closed spec fn mask(&self) -> [[u8; 8]; 8] {
        self.m_a
    }

    /// Alice's shifted input, which she sends.
    pub closed spec fn shifted(&self) -> int {
        self.u as int
    }

    /// What Alice has learnt.
    pub closed spec fn learnt(&self) -> u8 {
        self.z
    }

    /// The invariant of the type: the shifted input is a row of the table.
    pub open spec fn wf(&self) -> bool {
        0 <= self.shifted() < 8
    }

    /// Alice before the dealer has given her anything.
    pub fn new() -> (alice: Alice)
        ensures
            alice.wf(),
            alice.shifted() == 0,
            alice.learnt() == 0,
            all_zero(alice.mask()),
    {
        Alice { m_a: [[0; 8]; 8], u: 0, z: 0 }
    }

    /// Takes the input `x` and what the dealer holds for Alice: keeps the
    /// mask and shifts the input by `r`, modulo 8.
    pub fn init(&mut self, x: i32, dealt: (i32, [[u8; 8]; 8]))
        requires
            i32::MIN <= x + dealt.0 <= i32::MAX,
        ensures
            final(self).wf(),
            final(self).mask() == dealt.1,
            final(self).shifted() == (x + dealt.0) % 8,
            final(self).learnt() == old(self).learnt(),
    {
        let (r, m_a) = dealt;
        self.m_a = m_a;
        self.u = modulo(x + r, 8);
    }

    /// The message for Bob: the shifted input.
    pub fn send(&self) -> (u: i32)
        ensures
            u == self.shifted(),
    {
        self.u
    }

    /// Takes Bob's message, his shifted input `v` and his half `z_b` of the
    /// entry, and learns the entry: her own half, found in her mask, joined
    /// with his.
    pub fn receive(&mut self, message: (i32, u8))
        requires
            old(self).wf(),
            0 <= message.0 < 8,
        ensures
            final(self).wf(),
            final(self).mask() == old(self).mask(),
            final(self).shifted() == old(self).shifted(),
            final(self).learnt() == old(self).mask()[old(self).shifted()][message.0 as int]
                ^ message.1,
    {
        let (v, z_b) = message;
        self.z = self.m_a[self.u as usize][v as usize] ^ z_b;
    }

    /// What Alice has learnt.
    pub fn output(&self) -> (z: u8)
        ensures
            z == self.learnt(),
    {
        self.z
    }
}

/// Bob of the truth-table protocol.
pub struct Bob {
    m_b: [[u8; 8]; 8],
    v: i32,
    z_b: u8,
}

impl Bob {
    /// Bob's mask.
    pub closed spec fn mask(&self) -> [[u8; 8]; 8] {
        self.m_b
    }

    /// Bob's shifted input.
    pub closed spec fn shifted(&self) -> int {
        self.v as int
    }

    /// Bob's half of the entry.
    pub closed spec fn half(&self) -> u8 {
        self.z_b
    }

    /// The invariant of the type: the shifted input is a column of the table.
    pub open spec fn wf(&self) -> bool {
        0 <= self.shifted() < 8
    }

    /// Bob before the dealer has given him anything.
    pub fn new() -> (bob: Bob)
        ensures
            bob.wf(),
            bob.shifted() == 0,
            bob.half() == 0,
            all_zero(bob.mask()),
    {
        Bob { m_b: [[0; 8]; 8], v: 0, z_b: 0 }
    }

    /// Takes the input `y` and what the dealer holds for Bob: keeps the mask
    /// and shifts the input by `s`, modulo 8.
    pub fn init(&mut self, y: i32, dealt: (i32, [[u8; 8]; 8]))
        requires
            i32::MIN <= y + dealt.0 <= i32::MAX,
        ensures
            final(self).wf(),
            final(self).mask() == dealt.1,
            final(self).shifted() == (y + dealt.0) % 8,
            final(self).half() == old(self).half(),
    {
        let (s, m_b) = dealt;
        self.m_b = m_b;
        self.v = modulo(y + s, 8);
    }

    /// Takes Alice's shifted input `u` and finds Bob's half of the entry in
    /// his mask.
    pub fn receive(&mut self, u: i32)
        requires
            old(self).wf(),
            0 <= u < 8,
        ensures
            final(self).wf(),
            final(self).mask() == old(self).mask(),
            final(self).shifted() == old(self).shifted(),
            final(self).half() == old(self).mask()[u as int][old(self).shifted()],
    {
        self.z_b = self.m_b[u as usize][self.v as usize];
    }

    /// The message for Alice: the shifted input and the half of the entry.
    pub fn send(&self) -> (message: (i32, u8))
        ensures
            message.0 == self.shifted(),
            message.1 == self.half(),
    {
        (self.v, self.z_b)
    }
}

/// The truth-table protocol is correct. When the two masks share the table
/// shifted by `r` and `s`, Alice's half at the shifted inputs, joined with
/// Bob's half at the same place, is the entry of the table for the inputs
/// `x` and `y`.
pub proof fn lemma_table_lookup(
    table: [[u8; 8]; 8],
    r: int,
    s: int,
    mask_a: [[u8; 8]; 8],
    mask_b: [[u8; 8]; 8],
    x: int,
    y: int,
)
    requires
        shares_shifted(table, r, s, mask_a, mask_b),
    ensures
        mask_a[(x + r) % 8][(y + s) % 8] ^ mask_b[(x + r) % 8][(y + s) % 8] == entry(table, x, y),
{
    let u = (x + r) % 8;
    let v = (y + s) % 8;
    let a = mask_a[u][v];
    let b = mask_b[u][v];
    let t = entry(table, u - r, v - s);
    assert(a == b ^ t);
    assert((b ^ t) ^ b == t) by (bit_vector);
    assert((u - r) % 8 == x % 8) by (nonlinear_arith)
        requires
            u == (x + r) % 8,
    ;
    assert((v - s) % 8 == y % 8) by (nonlinear_arith)
        requires
            v == (y + s) % 8,
    ;
}

/// Runs the truth-table protocol in memory with a fresh deal: the entry of
/// `table` for the inputs `x` and `y`, each taken modulo 8. Whatever the
/// dealer draws, Alice learns that entry.
pub fn look_up(table: [[u8; 8]; 8], x: i32, y: i32) -> (z: u8)
    requires
        x + 7 <= i32::MAX,
        y + 7 <= i32::MAX,
    ensures
        z == entry(table, x as int, y as int),
{
    let mut dealer = TrustedDealer::new(table);
    let mut alice = Alice::new();
    let mut bob = Bob::new();
    dealer.init();
    alice.init(x, dealer.rand_a());
    bob.init(y, dealer.rand_b());
    bob.receive(alice.send());
    alice.receive(bob.send());
    proof {
        lemma_table_lookup(
            table,
            dealer.for_alice().0 as int,
            dealer.for_bob().0 as int,
            dealer.for_alice().1,
            dealer.for_bob().1,
            x as int,
            y as int,
        );
    }
    alice.output()
}

} // verus!
