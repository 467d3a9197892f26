//! The pool of addresses that the server hands out, one bit per address.
use vstd::prelude::*;

use crate::net;
use crate::net::{Ipv4Addr, Ipv4Net};
use crate::text;

verus! {

/// Why a pool could not be made, or could not do what was asked of it.
#[derive(Debug, Clone, Copy, PartialEq, Eq, Structural)]
pub enum IpPoolError {
    InvalidSubnet,
    PoolExhausted,
    OutOfPool(Ipv4Addr),
    NotAllocated(Ipv4Addr),
}

impl IpPoolError {
    /// The text of the error.
    pub open spec fn text(self) -> Seq<char> {
        match self {
            IpPoolError::InvalidSubnet =>
                "invalid subnet: no allocatable addresses after reservations"@,
            IpPoolError::PoolExhausted => "pool exhausted: no free address available"@,
            IpPoolError::OutOfPool(a) => "address "@ + net::addr_text(a.bits as int)
                + " is out of pool or reserved"@,
            IpPoolError::NotAllocated(a) => "address "@ + net::addr_text(a.bits as int)
                + " is not allocated"@,
        }
    }

    /// The error in words.
    pub fn message(&self) -> (r: String)
        ensures
            r@ == self.text(),
    {
        match self {
            IpPoolError::InvalidSubnet =>
                "invalid subnet: no allocatable addresses after reservations".to_string(),
            IpPoolError::PoolExhausted => "pool exhausted: no free address available".to_string(),
            IpPoolError::OutOfPool(a) => text::join3(
                "address ",
                a.to_text().as_str(),
                " is out of pool or reserved",
            ),
            IpPoolError::NotAllocated(a) => text::join3(
                "address ",
                a.to_text().as_str(),
                " is not allocated",
            ),
        }
    }
}

/// A pool as mathematics sees it: where its network starts, how many addresses the network
/// has, and which of them are free, counted from the start.
#[verifier::ext_equal]
pub struct PoolModel {
    pub network: int,
    pub total: int,
    pub free: Set<int>,
}

impl PoolModel {
    /// The addresses that are never handed out: the network's own, the gateway's, and the
    /// broadcast address.
    pub open spec fn reserved(self, off: int) -> bool {
        off == 0 || off == 1 || off == self.total - 1
    }

    /// The offsets that can be handed out at all.
    pub open spec fn in_pool(self, off: int) -> bool {
        0 <= off < self.total && !self.reserved(off)
    }

    /// Whether the model can be that of a pool.
    pub open spec fn wf(self) -> bool {
        &&& 4 <= self.total <= 0x8000_0000
        &&& 0 <= self.network
        &&& self.network + self.total <= 0x1_0000_0000
        &&& forall|off: int| #[trigger] self.free.contains(off) ==> self.in_pool(off)
    }

    /// The pool of a network of which nothing has been handed out.
    pub open spec fn fresh(subnet: net::NetModel) -> PoolModel {
        let total = subnet.size();
        PoolModel {
            network: subnet.network(),
            total,
            free: Set::new(|off: int| 2 <= off < total - 1),
        }
    }

    /// Whether `off` is the lowest free offset.
    pub open spec fn is_lowest(self, off: int) -> bool {
        &&& self.free.contains(off)
        &&& forall|o: int| #[trigger] self.free.contains(o) ==> off <= o
    }

    /// The pool after `off` has been handed out.
    pub open spec fn take(self, off: int) -> PoolModel {
        PoolModel { free: self.free.remove(off), ..self }
    }

    /// The pool after `off` has been given back.
    pub open spec fn give(self, off: int) -> PoolModel {
        PoolModel { free: self.free.insert(off), ..self }
    }
}

/// Whether bit `b` of `w` is set.
pub open spec fn bit(w: u64, b: int) -> bool {
    (w >> (b as u64)) & 1 == 1
}

/// How many of the lowest `n` bits of `w` are zero.
pub open spec fn zero_bits(w: u64, n: nat) -> nat
    decreases n,
{
    if n == 0 {
        0
    } else {
        zero_bits(w, (n - 1) as nat) + if bit(w, n - 1) {
            0nat
        } else {
            1nat
        }
    }
}

/// `u64::count_zeros` counts the zero bits among the 64 of its argument.
pub assume_specification[ u64::count_zeros ](w: u64) -> (r: u32)
    ensures
        r == zero_bits(w, 64),
;

/// Whether the bit for `off` is set in a row of words.
spec fn word_bit(words: Seq<u64>, off: int) -> bool {
    bit(words[off / 64], off % 64)
}

/// How many of the first `n` bits of a row of words are zero.
spec fn row_zeros(words: Seq<u64>, n: nat) -> nat
    decreases n,
{
    if n == 0 {
        0
    } else {
        row_zeros(words, (n - 1) as nat) + if word_bit(words, n - 1) {
            0nat
        } else {
            1nat
        }
    }
}

proof fn lemma_set_bit(w: u64, b: u64, j: u64)
    by (bit_vector)
    requires
        b < 64,
        j < 64,
    ensures
        ((w | (1u64 << b)) >> j) & 1 == if j == b {
            1u64
        } else {
            (w >> j) & 1
        },
{
}

proof fn lemma_clear_bit(w: u64, b: u64, j: u64)
    by (bit_vector)
    requires
        b < 64,
        j < 64,
    ensures
        ((w & !(1u64 << b)) >> j) & 1 == if j == b {
            0u64
        } else {
            (w >> j) & 1
        },
{
}

proof fn lemma_fill_from(w: u64, b: u64, j: u64)
    by (bit_vector)
    requires
        b < 64,
        j < 64,
    ensures
        ((w | (0xffff_ffff_ffff_ffffu64 << b)) >> j) & 1 == if j >= b {
            1u64
        } else {
            (w >> j) & 1
        },
{
}

proof fn lemma_test_bit(w: u64, b: u64)
    by (bit_vector)
    requires
        b < 64,
    ensures
        (w & (1u64 << b) == 0) <==> (w >> b) & 1 == 0,
        (w >> b) & 1 == 0 || (w >> b) & 1 == 1,
{
}

proof fn lemma_not_bit(w: u64, b: u64)
    by (bit_vector)
    requires
        b < 64,
    ensures
        ((!w) >> b) & 1 == 1 <==> (w >> b) & 1 == 0,
        w == 0xffff_ffff_ffff_ffffu64 ==> (w >> b) & 1 == 1,
        w == 0 ==> (w >> b) & 1 == 0,
{
}

proof fn lemma_all_ones(w: u64)
    by (bit_vector)
    ensures
        !w == 0 <==> w == 0xffff_ffff_ffff_ffffu64,
{
}

/// A pool of addresses.
#[derive(Debug)]
pub struct IpPool {
    network: u32,
    total: u32,
    bits: Vec<u64>,
}

impl View for IpPool {
    type V = PoolModel;

    closed spec fn view(&self) -> PoolModel {
        PoolModel {
            network: self.network as int,
            total: self.total as int,
            free: Set::new(
                |off: int| 0 <= off < self.total as int && !word_bit(self.bits@, off),
            ),
        }
    }
}

impl IpPool {
    /// Whether the bits are those of a pool: one for each address, the reserved ones and
    /// those past the end set.
    pub closed spec fn wf(&self) -> bool {
        &&& 4 <= self.total <= 0x8000_0000
        &&& self.network + self.total <= 0x1_0000_0000
        &&& self.bits@.len() == (self.total + 63) / 64
        &&& word_bit(self.bits@, 0)
        &&& word_bit(self.bits@, 1)
        &&& word_bit(self.bits@, self.total - 1)
        &&& forall|off: int|
            self.total <= off < 64 * self.bits@.len() ==> #[trigger] word_bit(self.bits@, off)
    }

    /// The bits with which the word that stands for the addresses from `base` on starts.
    fn fresh_word(base: u32, total: u32) -> (word: u64)
        requires
            4 <= total <= 0x8000_0000,
            base < total,
            base % 64 == 0,
        ensures
            forall|b: int|
                0 <= b < 64 ==> (#[trigger] bit(word, b) <==> base + b == 0 || base + b == 1 || base
                    + b >= total - 1),
    {
        let broadcast_off = total - 1;
        let mut word: u64 = 0;
        let mut i: u32 = 0;
        proof {
            assert forall|b: int| 0 <= b < 64 implies !#[trigger] bit(word, b) by {
                lemma_not_bit(0, b as u64);
            }
        }
        while i < 64
            invariant
                4 <= total <= 0x8000_0000,
                broadcast_off == total - 1,
                base < total,
                i <= 64,
                forall|b: int|
                    0 <= b < 64 ==> (#[trigger] bit(word, b) <==> b < i && (base + b == 0 || base
                        + b == 1 || base + b >= total - 1)),
            decreases 64 - i,
        {
            let off = base + i;
            if off >= total {
                let filled = word | (u64::MAX << (i as u64));
                proof {
                    assert forall|b: int| 0 <= b < 64 implies (#[trigger] bit(filled, b) <==> base
                        + b == 0 || base + b == 1 || base + b >= total - 1) by {
                        lemma_fill_from(word, i as u64, b as u64);
                        lemma_test_bit(word, b as u64);
                        assert(bit(word, b) <==> b < i && (base + b == 0 || base + b == 1 || base
                            + b >= total - 1));
                    }
                }
                return filled;
            }
            let ghost before = word;
            if off == 0 || off == 1 || off == broadcast_off {
                word = word | (1u64 << (i as u64));
                proof {
                    assert forall|b: int| 0 <= b < 64 implies (#[trigger] bit(word, b) <==> b == i
                        || bit(before, b)) by {
                        lemma_set_bit(before, i as u64, b as u64);
                    }
                }
            }
            i = i + 1;
        }
        word
    }

    /// The pool of `subnet`, of which nothing has been handed out. A network with fewer than
    /// four addresses leaves nothing to hand out.
    pub fn new(subnet: Ipv4Net) -> (r: Result<IpPool, IpPoolError>)
        ensures
            match r {
                Ok(pool) => {
                    &&& 1 <= subnet@.prefix <= 30
                    &&& pool.wf()
                    &&& pool@ == PoolModel::fresh(subnet@)
                },
                Err(e) => e == IpPoolError::InvalidSubnet && !(1 <= subnet@.prefix <= 30),
            },
    {
        let prefix = subnet.prefix_len();
        if prefix < 1 || prefix > 30 {
            return Err(IpPoolError::InvalidSubnet);
        }
        proof {
            net::lemma_network_bounds(subnet@);
            lemma_pool_total(prefix as int);
        }
        let total: u32 = subnet.size() as u32;
        let word_count: u32 = total / 64 + if total % 64 == 0 {
            0u32
        } else {
            1u32
        };
        let network = subnet.network().bits;
        let mut bits: Vec<u64> = Vec::new();
        let mut w: u32 = 0;
        while w < word_count
            invariant
                4 <= total <= 0x8000_0000,
                word_count == (total + 63) / 64,
                w <= word_count,
                bits@.len() == w,
                forall|off: int|
                    0 <= off < 64 * w ==> (#[trigger] word_bit(bits@, off) <==> off == 0 || off == 1
                        || off >= total - 1),
            decreases word_count - w,
        {
            let ghost before = bits@;
            let word = Self::fresh_word(w * 64, total);
            bits.push(word);
            w = w + 1;
            proof {
                assert forall|off: int| 0 <= off < 64 * w implies (#[trigger] word_bit(bits@, off)
                    <==> off == 0 || off == 1 || off >= total - 1) by {
                    if off < 64 * (w - 1) {
                        assert(word_bit(bits@, off) == word_bit(before, off));
                    } else {
                        assert(off / 64 == w - 1);
                        assert(bit(word, off % 64) == word_bit(bits@, off));
                    }
                }
            }
        }
        let pool = IpPool { network, total, bits };
        assert(pool@.free =~= PoolModel::fresh(subnet@).free);
        Ok(pool)
    }

    /// How many addresses are free.
    pub fn available_count(&self) -> (n: u32)
        requires
            self.wf(),
        ensures
            self@.free.finite(),
            n == self@.free.len(),
    {
        let mut n: u32 = 0;
        let mut i: usize = 0;
        while i < self.bits.len()
            invariant
                self.wf(),
                i <= self.bits@.len(),
                n == row_zeros(self.bits@, (64 * i) as nat),
                n <= 64 * i,
            decreases self.bits@.len() - i,
        {
            proof {
                lemma_row_zeros_word(self.bits@, i as int, 64);
                lemma_zero_bits_bound(self.bits@[i as int], 64);
            }
            n = n + self.bits[i].count_zeros();
            i = i + 1;
        }
        proof {
            let bound = (64 * self.bits@.len()) as nat;
            let counted = Set::new(|off: int| 0 <= off < bound && !word_bit(self.bits@, off));
            lemma_row_zeros_is_len(self.bits@, bound);
            assert(self@.free =~= counted);
        }
        n
    }

    /// Hands out the lowest free address.
    pub fn allocate(&mut self) -> (r: Result<Ipv4Addr, IpPoolError>)
        requires
            old(self).wf(),
        ensures
            final(self).wf(),
            match r {
                Ok(addr) => {
                    &&& old(self)@.is_lowest(addr.bits - old(self)@.network)
                    &&& final(self)@ == old(self)@.take(addr.bits - old(self)@.network)
                },
                Err(e) => {
                    &&& e == IpPoolError::PoolExhausted
                    &&& old(self)@.free == Set::<int>::empty()
                    &&& final(self)@ == old(self)@
                },
            },
    {
        let mut base: u32 = 0;
        let mut i: usize = 0;
        while i < self.bits.len()
            invariant
                self.wf(),
                *self == *old(self),
                i <= self.bits@.len(),
                base == 64 * i,
                forall|off: int| 0 <= off < base ==> #[trigger] word_bit(self.bits@, off),
            decreases self.bits@.len() - i,
        {
            let word = self.bits[i];
            if word != u64::MAX {
                let bit_no = (!word).trailing_zeros();
                proof {
                    lemma_first_zero(word);
                    assert(word_bit(self.bits@, base + bit_no) == bit(word, bit_no as int));
                    assert forall|off: int| 0 <= off < base + bit_no implies #[trigger] word_bit(
                        self.bits@,
                        off,
                    ) by {
                        if off >= base {
                            assert(off / 64 == i);
                            assert(bit(word, off % 64));
                        }
                    }
                    if base + bit_no >= self.total {
                        assert(word_bit(self.bits@, base + bit_no));
                    }
                }
                let ghost off = base + bit_no;
                let ghost before = self.bits@;
                self.bits.set(i, word | (1u64 << (bit_no as u64)));
                proof {
                    assert forall|o: int| 0 <= o < 64 * before.len() implies (#[trigger] word_bit(
                        self.bits@,
                        o,
                    ) <==> o == off || word_bit(before, o)) by {
                        lemma_set_bit(word, bit_no as u64, (o % 64) as u64);
                        assert(o == 64 * (o / 64) + o % 64);
                    }
                    assert(self@.free =~= old(self)@.free.remove(off));
                    assert(old(self)@.free.contains(off));
                }
                return Ok(Ipv4Addr { bits: self.network + base + bit_no });
            }
            proof {
                assert forall|off: int| 0 <= off < base + 64 implies #[trigger] word_bit(
                    self.bits@,
                    off,
                ) by {
                    if off >= base {
                        assert(off / 64 == i);
                        lemma_not_bit(word, (off % 64) as u64);
                    }
                }
            }
            base = base + u64::BITS;
            i = i + 1;
        }
        assert(self@.free =~= Set::<int>::empty());
        Err(IpPoolError::PoolExhausted)
    }

    /// Takes back an address that was handed out.
    pub fn free(&mut self, addr: Ipv4Addr) -> (r: Result<(), IpPoolError>)
        requires
            old(self).wf(),
        ensures
            final(self).wf(),
            match r {
                Ok(()) => {
                    let off = addr.bits - old(self)@.network;
                    &&& old(self)@.in_pool(off)
                    &&& !old(self)@.free.contains(off)
                    &&& final(self)@ == old(self)@.give(off)
                },
                Err(e) => {
                    let off = addr.bits - old(self)@.network;
                    &&& final(self)@ == old(self)@
                    &&& e == if old(self)@.in_pool(off) {
                        IpPoolError::NotAllocated(addr)
                    } else {
                        IpPoolError::OutOfPool(addr)
                    }
                    &&& old(self)@.in_pool(off) ==> old(self)@.free.contains(off)
                },
            },
    {
        let offset = match self.pool_offset(addr) {
            Some(offset) => offset,
            None => {
                return Err(IpPoolError::OutOfPool(addr));
            },
        };
        let word_idx = (offset / u64::BITS) as usize;
        let bit_no = (offset % u64::BITS) as u64;
        let mask = 1u64 << bit_no;
        let word = self.bits[word_idx];
        proof {
            lemma_test_bit(word, bit_no);
            assert(word_bit(self.bits@, offset as int) == bit(word, bit_no as int));
        }
        if word & mask == 0 {
            return Err(IpPoolError::NotAllocated(addr));
        }
        let ghost before = self.bits@;
        self.bits.set(word_idx, word & !mask);
        proof {
            assert forall|o: int| 0 <= o < 64 * before.len() implies (#[trigger] word_bit(
                self.bits@,
                o,
            ) <==> o != offset && word_bit(before, o)) by {
                lemma_clear_bit(word, bit_no, (o % 64) as u64);
                assert(o == 64 * (o / 64) + o % 64);
            }
            assert(self@.free =~= old(self)@.free.insert(offset as int));
        }
        Ok(())
    }

    /// Where an address stands in the pool, if it can be handed out at all.
    fn pool_offset(&self, addr: Ipv4Addr) -> (r: Option<u32>)
        requires
            self.wf(),
        ensures
            match r {
                Some(off) => off == addr.bits - self@.network && self@.in_pool(off as int),
                None => !self@.in_pool(addr.bits - self@.network),
            },
    {
        let off = addr.bits.wrapping_sub(self.network);
        if off >= self.total || off == 0 || off == 1 || off == self.total - 1 {
            return None;
        }
        Some(off)
    }
}

impl Clone for IpPool {
    fn clone(&self) -> (r: IpPool)
        ensures
            r@ == self@,
            r.wf() == self.wf(),
    {
        let r = IpPool { network: self.network, total: self.total, bits: self.bits.clone() };
        assert(r.bits@ =~= self.bits@);
        r
    }
}

/// The lowest zero bit of a word that has one is the lowest set bit of its complement.
proof fn lemma_first_zero(word: u64)
    requires
        word != 0xffff_ffff_ffff_ffffu64,
    ensures
        vstd::std_specs::bits::u64_trailing_zeros(!word) < 64,
        !bit(word, vstd::std_specs::bits::u64_trailing_zeros(!word) as int),
        forall|b: int|
            0 <= b < vstd::std_specs::bits::u64_trailing_zeros(!word) ==> #[trigger] bit(word, b),
{
    let n = vstd::std_specs::bits::u64_trailing_zeros(!word);
    vstd::std_specs::bits::axiom_u64_trailing_zeros(!word);
    lemma_all_ones(word);
    lemma_not_bit(word, n as u64);
    assert forall|b: int| 0 <= b < n implies #[trigger] bit(word, b) by {
        lemma_not_bit(word, b as u64);
        lemma_test_bit(word, b as u64);
        assert(((!word) >> (b as u64)) & 1u64 == 0u64);
    }
}

proof fn lemma_zero_bits_bound(w: u64, n: nat)
    ensures
        zero_bits(w, n) <= n,
    decreases n,
{
    if n > 0 {
        lemma_zero_bits_bound(w, (n - 1) as nat);
    }
}

/// The zeros of a row go on, past its first `i` words, with those of the next word.
proof fn lemma_row_zeros_word(words: Seq<u64>, i: int, n: nat)
    requires
        0 <= i < words.len(),
        n <= 64,
    ensures
        row_zeros(words, (64 * i + n) as nat) == row_zeros(words, (64 * i) as nat) + zero_bits(
            words[i],
            n,
        ),
    decreases n,
{
    if n > 0 {
        lemma_row_zeros_word(words, i, (n - 1) as nat);
        let off = 64 * i + n - 1;
        assert(off / 64 == i && off % 64 == n - 1);
    }
}

/// The count of zeros is the number of offsets whose bit is zero.
proof fn lemma_row_zeros_is_len(words: Seq<u64>, n: nat)
    ensures
        Set::new(|off: int| 0 <= off < n && !word_bit(words, off)).finite(),
        Set::new(|off: int| 0 <= off < n && !word_bit(words, off)).len() == row_zeros(words, n),
    decreases n,
{
    let now = Set::new(|off: int| 0 <= off < n && !word_bit(words, off));
    if n == 0 {
        assert(now =~= Set::<int>::empty());
    } else {
        let last = n - 1;
        let before = Set::new(|off: int| 0 <= off < last && !word_bit(words, off));
        lemma_row_zeros_is_len(words, last as nat);
        if word_bit(words, last) {
            assert(now =~= before);
        } else {
            assert(now =~= before.insert(last));
        }
    }
}

/// The size of a network with a prefix from 1 to 30 is at least four and at most half of
/// the address space.
proof fn lemma_pool_total(prefix: int)
    requires
        1 <= prefix <= 30,
    ensures
        4 <= vstd::arithmetic::power2::pow2((32 - prefix) as nat) <= 0x8000_0000,
{
    vstd::arithmetic::power2::lemma2_to64();
    if prefix > 1 {
        vstd::arithmetic::power2::lemma_pow2_strictly_increases((32 - prefix) as nat, 31);
    }
    if prefix < 30 {
        vstd::arithmetic::power2::lemma_pow2_strictly_increases(2, (32 - prefix) as nat);
    }
}

/// The set of the numbers from `lo` up to, but without, `hi`.
proof fn lemma_range_len(lo: int, hi: int)
    requires
        lo <= hi,
    ensures
        Set::new(|x: int| lo <= x < hi).finite(),
        Set::new(|x: int| lo <= x < hi).len() == hi - lo,
    decreases hi - lo,
{
    let now = Set::new(|x: int| lo <= x < hi);
    if lo == hi {
        assert(now =~= Set::<int>::empty());
    } else {
        lemma_range_len(lo, hi - 1);
        assert(now =~= Set::new(|x: int| lo <= x < hi - 1).insert(hi - 1));
    }
}

/// A pool of which nothing has been handed out has all addresses of its network but three:
/// the network's own, the gateway's and the broadcast address.
pub proof fn law_fresh_pool_has_all_but_three(subnet: net::NetModel)
    requires
        subnet.wf(),
        1 <= subnet.prefix <= 30,
    ensures
        PoolModel::fresh(subnet).wf(),
        PoolModel::fresh(subnet).free.len() == subnet.size() - 3,
{
    net::lemma_network_bounds(subnet);
    lemma_pool_total(subnet.prefix);
    lemma_range_len(2, subnet.size() - 1);
    assert(PoolModel::fresh(subnet).free =~= Set::new(|x: int| 2 <= x < subnet.size() - 1));
}

/// The free addresses of a pool are finitely many, and a subset of those in the pool.
proof fn lemma_free_finite(pool: PoolModel)
    requires
        pool.wf(),
    ensures
        pool.free.finite(),
{
    lemma_range_len(0, pool.total);
    vstd::set_lib::lemma_len_subset(pool.free, Set::new(|x: int| 0 <= x < pool.total));
}

/// What is free in a pool is never the network's own address, the gateway's or the broadcast
/// address, whatever was handed out and given back before.
pub proof fn law_free_addresses_are_in_the_pool(pool: IpPool)
    requires
        pool.wf(),
    ensures
        pool@.wf(),
{
}

/// Handing an address out leaves one free address fewer, and giving it back leaves the pool
/// as it was.
pub proof fn law_free_undoes_alloc(pool: PoolModel, off: int)
    requires
        pool.wf(),
        pool.is_lowest(off),
    ensures
        pool.take(off).wf(),
        pool.take(off).free.len() + 1 == pool.free.len(),
        pool.take(off).in_pool(off),
        !pool.take(off).free.contains(off),
        pool.take(off).give(off) == pool,
{
    lemma_free_finite(pool);
    assert(pool.free.remove(off).insert(off) =~= pool.free);
}

/// Giving an address back leaves one more free, and the pool stays well formed.
pub proof fn law_free_adds_one(pool: PoolModel, off: int)
    requires
        pool.wf(),
        pool.in_pool(off),
        !pool.free.contains(off),
    ensures
        pool.give(off).wf(),
        pool.give(off).free.len() == pool.free.len() + 1,
{
    lemma_free_finite(pool);
}

/// What is handed out next is above what was handed out before, as long as nothing is given
/// back in between: no address is handed out twice.
pub proof fn law_successive_allocs_ascend(pool: PoolModel, first: int, second: int)
    requires
        pool.is_lowest(first),
        pool.take(first).is_lowest(second),
    ensures
        first < second,
{
    assert(pool.free.contains(second));
}

/// An address that is given back is handed out next unless a lower one is free.
pub proof fn law_freed_address_comes_back(pool: PoolModel, off: int, next: int)
    requires
        pool.give(off).is_lowest(next),
    ensures
        next == off || (next < off && pool.is_lowest(next)),
{
    assert(pool.give(off).free.contains(off));
    if next != off {
        assert forall|o: int| #[trigger] pool.free.contains(o) implies next <= o by {
            assert(pool.give(off).free.contains(o));
        }
    }
}

/// No pool of a network hands out the network's own address, the gateway's, the broadcast
/// address, or an address outside of the network.
pub proof fn law_alloc_stays_in_network(subnet: net::NetModel, pool: PoolModel, addr: int)
    requires
        subnet.wf(),
        pool.wf(),
        pool.network == subnet.network(),
        pool.total == subnet.size(),
        pool.is_lowest(addr - pool.network),
    ensures
        subnet.holds(addr),
        addr != subnet.network(),
        addr != subnet.network() + 1,
        addr != subnet.network() + subnet.size() - 1,
{
}

/// What is done to a pool: an address is handed out, or given back.
pub enum PoolOp {
    Take(int),
    Give(int),
}

/// Whether `op` can be done to a pool: the lowest free address is handed out, and only one that
/// was handed out can be given back.
pub open spec fn can_do(pool: PoolModel, op: PoolOp) -> bool {
    match op {
        PoolOp::Take(off) => pool.is_lowest(off),
        PoolOp::Give(off) => pool.in_pool(off) && !pool.free.contains(off),
    }
}

/// The pool after all of `ops` were done to it, in order.
pub open spec fn after_all(pool: PoolModel, ops: Seq<PoolOp>) -> PoolModel
    decreases ops.len(),
{
    if ops.len() == 0 {
        pool
    } else {
        match ops.last() {
            PoolOp::Take(off) => after_all(pool, ops.drop_last()).take(off),
            PoolOp::Give(off) => after_all(pool, ops.drop_last()).give(off),
        }
    }
}

/// Whether all of `ops` can be done to a pool, in order.
pub open spec fn can_do_all(pool: PoolModel, ops: Seq<PoolOp>) -> bool
    decreases ops.len(),
{
    ops.len() == 0 || {
        &&& can_do_all(pool, ops.drop_last())
        &&& can_do(after_all(pool, ops.drop_last()), ops.last())
    }
}

/// How many more addresses `ops` hand out than give back.
pub open spec fn net_taken(ops: Seq<PoolOp>) -> int
    decreases ops.len(),
{
    if ops.len() == 0 {
        0
    } else {
        net_taken(ops.drop_last()) + match ops.last() {
            PoolOp::Take(_) => 1int,
            PoolOp::Give(_) => -1int,
        }
    }
}

/// An address that was handed out is not handed out again before it is given back, whatever
/// else is handed out and given back in the meantime: no two hold it at once.
pub proof fn law_held_address_is_not_handed_out(pool: PoolModel, ops: Seq<PoolOp>, off: int)
    requires
        can_do_all(pool, ops),
        !pool.free.contains(off),
        !ops.contains(PoolOp::Give(off)),
    ensures
        !ops.contains(PoolOp::Take(off)),
        !after_all(pool, ops).free.contains(off),
    decreases ops.len(),
{
    if ops.len() > 0 {
        let before = ops.drop_last();
        assert forall|op: PoolOp| #[trigger] before.contains(op) implies ops.contains(op) by {
            let i = choose|i: int| 0 <= i < before.len() && before[i] == op;
            assert(ops[i] == op);
        }
        law_held_address_is_not_handed_out(pool, before, off);
        assert(ops[ops.len() - 1] == ops.last());
        if ops.contains(PoolOp::Take(off)) {
            let i = choose|i: int| 0 <= i < ops.len() && ops[i] == PoolOp::Take(off);
            if i < before.len() {
                assert(before[i] == PoolOp::Take(off));
            }
        }
    }
}

/// Whatever is handed out and given back, the pool stays well formed and keeps its network, and
/// has as many fewer free addresses as were handed out and not given back.
pub proof fn law_free_and_held_add_up(pool: PoolModel, ops: Seq<PoolOp>)
    requires
        pool.wf(),
        can_do_all(pool, ops),
    ensures
        after_all(pool, ops).wf(),
        after_all(pool, ops).network == pool.network,
        after_all(pool, ops).total == pool.total,
        after_all(pool, ops).free.len() == pool.free.len() - net_taken(ops),
    decreases ops.len(),
{
    if ops.len() > 0 {
        let before = ops.drop_last();
        law_free_and_held_add_up(pool, before);
        match ops.last() {
            PoolOp::Take(off) => law_free_undoes_alloc(after_all(pool, before), off),
            PoolOp::Give(off) => law_free_adds_one(after_all(pool, before), off),
        }
    }
}

/// What can be handed out: every address of the network but the first two and the last, and of a
/// fresh pool all of them are free.
pub proof fn law_three_addresses_are_reserved(pool: PoolModel, subnet: net::NetModel, off: int)
    ensures
        pool.in_pool(off) <==> 2 <= off < pool.total - 1,
        PoolModel::fresh(subnet).network == subnet.network(),
        PoolModel::fresh(subnet).total == subnet.size(),
        PoolModel::fresh(subnet).free.contains(off) <==> 2 <= off < subnet.size() - 1,
{
}

/// Handing an address out and giving one back change that address and no other: where the pool
/// lies and how large it is stay the same.
pub proof fn law_only_the_one_address_changes(pool: PoolModel, off: int, other: int)
    ensures
        pool.take(off).network == pool.network,
        pool.take(off).total == pool.total,
        !pool.take(off).free.contains(off),
        other != off ==> pool.take(off).free.contains(other) == pool.free.contains(other),
        pool.give(off).network == pool.network,
        pool.give(off).total == pool.total,
        pool.give(off).free.contains(off),
        other != off ==> pool.give(off).free.contains(other) == pool.free.contains(other),
{
}

/// What is handed out is free, and nothing below it is; a pool in which something is free has
/// such an address.
pub proof fn law_lowest_free_address_is_handed_out(pool: PoolModel, off: int, other: int)
    ensures
        pool.is_lowest(off) ==> pool.free.contains(off) && (pool.free.contains(other) ==> off
            <= other),
        pool.free.contains(off) && (forall|o: int| #[trigger] pool.free.contains(o) ==> off <= o)
            ==> pool.is_lowest(off),
{
}

/// What the errors of a pool say.
pub proof fn law_pool_errors_have_their_words(a: Ipv4Addr)
    ensures
        IpPoolError::InvalidSubnet.text()
            == "invalid subnet: no allocatable addresses after reservations"@,
        IpPoolError::PoolExhausted.text() == "pool exhausted: no free address available"@,
        IpPoolError::OutOfPool(a).text() == "address "@ + net::addr_text(a.bits as int)
            + " is out of pool or reserved"@,
        IpPoolError::NotAllocated(a).text() == "address "@ + net::addr_text(a.bits as int)
            + " is not allocated"@,
{
}

} // verus!
