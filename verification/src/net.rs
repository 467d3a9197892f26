//! IPv4 addresses and networks.
use vstd::arithmetic::power2::*;
use vstd::prelude::*;

use crate::text;

verus! {

/// An IPv4 address, as the number that its four octets make up.
#[derive(Debug, Clone, Copy, PartialEq, Eq, PartialOrd, Ord, Hash, Structural)]
pub struct Ipv4Addr {
    pub bits: u32,
}

/// The number that four octets make up, the first one most significant.
pub open spec fn octets_value(o: Seq<int>) -> int {
    ((o[0] * 0x100 + o[1]) * 0x100 + o[2]) * 0x100 + o[3]
}

/// The four octets of `bits`.
pub open spec fn octets_of(bits: int) -> Seq<int> {
    seq![
        bits / 0x100 / 0x100 / 0x100,
        bits / 0x100 / 0x100 % 0x100,
        bits / 0x100 % 0x100,
        bits % 0x100,
    ]
}

/// Whether every number of `o` fits in an octet.
pub open spec fn in_octet_range(o: Seq<int>) -> bool {
    forall|i: int| 0 <= i < o.len() ==> 0 <= #[trigger] o[i] < 0x100
}

/// Whether `o` could be the octets of an address.
pub open spec fn are_octets(o: Seq<int>) -> bool {
    o.len() == 4 && in_octet_range(o)
}

/// Numerals joined by dots.
pub open spec fn dotted(o: Seq<int>) -> Seq<char>
    decreases o.len(),
{
    if o.len() == 0 {
        Seq::empty()
    } else if o.len() == 1 {
        text::decimal(o[0] as nat)
    } else {
        text::decimal(o[0] as nat) + seq!['.'] + dotted(o.drop_first())
    }
}

/// What follows the first numeral in the dotted form.
spec fn after_first(o: Seq<int>) -> Seq<char> {
    if o.len() == 1 {
        Seq::empty()
    } else {
        seq!['.'] + dotted(o.drop_first())
    }
}

/// The dotted form of the address `bits`.
pub open spec fn addr_text(bits: int) -> Seq<char> {
    dotted(octets_of(bits))
}

/// An address and its octets determine each other.
pub proof fn lemma_octets_roundtrip(bits: int, o: Seq<int>)
    ensures
        0 <= bits < 0x1_0000_0000 ==> are_octets(octets_of(bits)) && octets_value(octets_of(bits))
            == bits,
        are_octets(o) ==> 0 <= octets_value(o) < 0x1_0000_0000 && octets_of(octets_value(o)) == o,
{
    if are_octets(o) {
        assert(0 <= o[0] < 0x100 && 0 <= o[1] < 0x100 && 0 <= o[2] < 0x100 && 0 <= o[3] < 0x100);
        assert(octets_of(octets_value(o)) =~= o);
    }
}

/// A run of digits and what follows it can be told apart in one way only.
pub proof fn lemma_digits_then_other(a: Seq<char>, r: Seq<char>, b: Seq<char>, q: Seq<char>)
    requires
        text::all_digits(a),
        text::all_digits(b),
        r.len() == 0 || !text::is_digit(r[0]),
        q.len() == 0 || !text::is_digit(q[0]),
        a + r == b + q,
    ensures
        a == b,
        r == q,
{
    if a.len() < b.len() {
        assert((a + r)[a.len() as int] == r[0]);
        assert((b + q)[a.len() as int] == b[a.len() as int]);
        assert(false);
    }
    if b.len() < a.len() {
        assert((b + q)[b.len() as int] == q[0]);
        assert((a + r)[b.len() as int] == a[b.len() as int]);
        assert(false);
    }
    assert(a =~= (a + r).take(a.len() as int));
    assert(b =~= (b + q).take(a.len() as int));
    assert(r =~= (a + r).skip(a.len() as int));
    assert(q =~= (b + q).skip(a.len() as int));
}

/// Where the digits at `start` end.
fn digits_end(cs: &Vec<char>, start: usize) -> (end: usize)
    requires
        start <= cs@.len(),
    ensures
        start <= end <= cs@.len(),
        text::all_digits(cs@.subrange(start as int, end as int)),
        end == cs@.len() || !text::is_digit(cs@[end as int]),
{
    let mut end: usize = start;
    while end < cs.len() && '0' <= cs[end] && cs[end] <= '9'
        invariant
            start <= end <= cs@.len(),
            forall|i: int| start <= i < end ==> text::is_digit(#[trigger] cs@[i]),
        decreases cs@.len() - end,
    {
        end = end + 1;
    }
    end
}

/// What the text says where an octet is due at `start`: the octet, and where it ends.
fn octet_at(cs: &Vec<char>, start: usize) -> (r: Option<(u8, usize)>)
    requires
        start <= cs@.len(),
    ensures
        r matches Some((v, end)) ==> {
            &&& start < end <= cs@.len()
            &&& cs@.subrange(start as int, end as int) == text::decimal(v as nat)
            &&& end == cs@.len() || !text::is_digit(cs@[end as int])
        },
        r is None ==> forall|v: nat, rest: Seq<char>|
            #![trigger text::decimal(v) + rest]
            v < 0x100 && (rest.len() == 0 || !text::is_digit(rest[0])) ==> cs@.skip(start as int)
                != text::decimal(v) + rest,
{
    let end = digits_end(cs, start);
    let ghost run = cs@.subrange(start as int, end as int);
    let ghost after = cs@.skip(end as int);
    proof {
        assert(cs@.skip(start as int) =~= run + after);
        assert forall|v: nat, rest: Seq<char>|
            v < 0x100 && (rest.len() == 0 || !text::is_digit(rest[0])) && cs@.skip(start as int)
                == #[trigger] (text::decimal(v) + rest) implies run == text::decimal(v) by {
            text::lemma_decimal_is_plain(v);
            lemma_digits_then_other(run, after, text::decimal(v), rest);
        }
        assert forall|v: nat| run == #[trigger] text::decimal(v) && v < 0x100 implies {
            &&& 1 <= run.len() <= 3
            &&& run.len() == 1 || run[0] != '0'
            &&& text::numeral_value(run) == v
        } by {
            text::lemma_decimal_is_plain(v);
            reveal_with_fuel(text::decimal, 4);
        }
    }
    if end == start || end - start > 3 {
        return None;
    }
    if end - start > 1 && cs[start] == '0' {
        assert(run[0] == '0');
        return None;
    }
    assert forall|k: int| start <= k < end implies text::is_digit(#[trigger] cs@[k]) by {
        assert(cs@[k] == run[k - start]);
    }
    let mut v: u32 = 0;
    let mut i: usize = start;
    while i < end
        invariant
            start <= i <= end <= cs@.len(),
            end - start <= 3,
            forall|k: int| start <= k < end ==> text::is_digit(#[trigger] cs@[k]),
            v == text::numeral_value(cs@.subrange(start as int, i as int)),
            i - start == 0 ==> v == 0,
            i - start == 1 ==> v < 10,
            i - start == 2 ==> v < 100,
            i - start == 3 ==> v < 1000,
        decreases end - i,
    {
        assert(text::is_digit(cs@[i as int]));
        let d: u32 = cs[i] as u32 - '0' as u32;
        assert(cs@.subrange(start as int, i + 1).drop_last() =~= cs@.subrange(
            start as int,
            i as int,
        ));
        v = v * 10 + d;
        i = i + 1;
    }
    if v > 0xff {
        return None;
    }
    proof {
        assert(text::is_plain_numeral(run));
        text::lemma_plain_numeral_is_decimal(run);
    }
    Some((v as u8, end))
}

/// What the text says where `n` octets joined by dots, and nothing else, are due at `start`.
fn octets_at(cs: &Vec<char>, start: usize, n: usize) -> (r: Option<Vec<u8>>)
    requires
        start <= cs@.len(),
        n >= 1,
    ensures
        match r {
            Some(o) => {
                &&& o@.len() == n
                &&& cs@.skip(start as int) == dotted(o@.map_values(|b: u8| b as int))
            },
            None => forall|o: Seq<int>|
                o.len() == n && in_octet_range(o) ==> cs@.skip(start as int) != #[trigger] dotted(o),
        },
    decreases n,
{
    proof {
        assert forall|o: Seq<int>|
            o.len() == n && in_octet_range(o) && cs@.skip(start as int) == #[trigger] dotted(
                o,
            ) implies 0 <= o[0] < 0x100 && cs@.skip(start as int) == text::decimal(o[0] as nat)
            + after_first(o) by {
            assert(dotted(o) =~= text::decimal(o[0] as nat) + after_first(o));
        }
    }
    let (v, end) = match octet_at(cs, start) {
        Some(p) => p,
        None => {
            return None;
        },
    };
    let ghost rest = cs@.skip(end as int);
    proof {
        assert(cs@.skip(start as int) =~= text::decimal(v as nat) + rest);
        text::lemma_decimal_is_plain(v as nat);
        assert forall|o: Seq<int>|
            o.len() == n && in_octet_range(o) && cs@.skip(start as int) == #[trigger] dotted(
                o,
            ) implies rest == after_first(o) by {
            text::lemma_decimal_is_plain(o[0] as nat);
            lemma_digits_then_other(
                text::decimal(v as nat),
                rest,
                text::decimal(o[0] as nat),
                after_first(o),
            );
        }
    }
    let mut r: Vec<u8> = Vec::new();
    r.push(v);
    if n == 1 {
        if end < cs.len() {
            return None;
        }
        assert(r@.map_values(|b: u8| b as int) =~= seq![v as int]);
        assert(cs@.skip(start as int) =~= text::decimal(v as nat));
        return Some(r);
    }
    if end >= cs.len() || cs[end] != '.' {
        proof {
            assert forall|o: Seq<int>| o.len() == n && in_octet_range(o) implies cs@.skip(
                start as int,
            ) != #[trigger] dotted(o) by {
                if cs@.skip(start as int) == dotted(o) {
                    assert(after_first(o)[0] == '.');
                }
            }
        }
        return None;
    }
    assert(rest =~= seq!['.'] + cs@.skip(end + 1));
    match octets_at(cs, end + 1, n - 1) {
        Some(tail) => {
            let ghost t = tail@.map_values(|b: u8| b as int);
            let mut tail = tail;
            r.append(&mut tail);
            proof {
                let o = r@.map_values(|b: u8| b as int);
                assert(o =~= seq![v as int] + t);
                assert(o.drop_first() =~= t);
                assert(cs@.skip(start as int) =~= dotted(o));
            }
            Some(r)
        },
        None => {
            proof {
                assert forall|o: Seq<int>| o.len() == n && in_octet_range(o) implies cs@.skip(
                    start as int,
                ) != #[trigger] dotted(o) by {
                    if cs@.skip(start as int) == dotted(o) {
                        let t = o.drop_first();
                        assert(in_octet_range(t));
                        assert(after_first(o).skip(1) =~= dotted(t));
                        assert(rest.skip(1) =~= cs@.skip(end + 1));
                    }
                }
            }
            None
        },
    }
}

impl Ipv4Addr {
    /// The address of four octets.
    pub fn new(a: u8, b: u8, c: u8, d: u8) -> (r: Ipv4Addr)
        ensures
            r.bits == octets_value(seq![a as int, b as int, c as int, d as int]),
    {
        Ipv4Addr {
            bits: ((a as u32 * 0x100 + b as u32) * 0x100 + c as u32) * 0x100 + d as u32,
        }
    }

    /// The four octets of the address.
    pub fn octets(&self) -> (r: [u8; 4])
        ensures
            r@.map_values(|o: u8| o as int) == octets_of(self.bits as int),
    {
        let r: [u8; 4] = [
            (self.bits / 0x100 / 0x100 / 0x100) as u8,
            (self.bits / 0x100 / 0x100 % 0x100) as u8,
            (self.bits / 0x100 % 0x100) as u8,
            (self.bits % 0x100) as u8,
        ];
        assert(r@.map_values(|o: u8| o as int) =~= octets_of(self.bits as int));
        r
    }

    /// The dotted form of the address.
    pub fn to_text(&self) -> (r: String)
        ensures
            r@ == addr_text(self.bits as int),
    {
        let o = self.octets();
        let ghost os = octets_of(self.bits as int);
        assert(o@.map_values(|o: u8| o as int) == os);
        assert(o@[0] == os[0] && o@[1] == os[1] && o@[2] == os[2] && o@[3] == os[3]);
        let mut r = String::new();
        text::push_decimal(&mut r, o[0] as u64);
        r.append(".");
        text::push_decimal(&mut r, o[1] as u64);
        r.append(".");
        text::push_decimal(&mut r, o[2] as u64);
        r.append(".");
        text::push_decimal(&mut r, o[3] as u64);
        proof {
            reveal_strlit(".");
            reveal_with_fuel(dotted, 5);
            assert("."@ =~= seq!['.']);
            assert(os.drop_first().drop_first().drop_first()[0] == os[3]);
            assert(r@ =~= dotted(os));
        }
        r
    }

    /// Reads an address in its dotted form: four decimal octets without leading zeros.
    pub fn parse(s: &str) -> (r: Option<Ipv4Addr>)
        ensures
            match r {
                Some(a) => s@ == addr_text(a.bits as int),
                None => forall|bits: int|
                    0 <= bits < 0x1_0000_0000 ==> s@ != #[trigger] addr_text(bits),
            },
    {
        let cs = text::chars_of(s);
        assert(s@.skip(0) =~= s@);
        match octets_at(&cs, 0, 4) {
            Some(o) => {
                let ghost os = o@.map_values(|b: u8| b as int);
                assert(o@[0] == os[0] && o@[1] == os[1] && o@[2] == os[2] && o@[3] == os[3]);
                let r = Ipv4Addr::new(o[0], o[1], o[2], o[3]);
                proof {
                    assert(seq![o@[0] as int, o@[1] as int, o@[2] as int, o@[3] as int] =~= os);
                    assert(are_octets(os));
                    lemma_octets_roundtrip(0, os);
                }
                Some(r)
            },
            None => {
                proof {
                    assert forall|bits: int| 0 <= bits < 0x1_0000_0000 implies s@
                        != #[trigger] addr_text(bits) by {
                        lemma_octets_roundtrip(bits, octets_of(bits));
                    }
                }
                None
            },
        }
    }
}

/// An IPv4 network as mathematics sees it: an address in it, and how many leading bits all
/// its addresses share.
pub struct NetModel {
    pub addr: int,
    pub prefix: int,
}

impl NetModel {
    /// Whether the numbers can be those of a network.
    pub open spec fn wf(self) -> bool {
        &&& 0 <= self.addr < 0x1_0000_0000
        &&& 0 <= self.prefix <= 32
    }

    /// How many addresses the network has.
    pub open spec fn size(self) -> int {
        pow2((32 - self.prefix) as nat) as int
    }

    /// Its lowest address: the shared bits, then zeros.
    pub open spec fn network(self) -> int {
        self.addr - self.addr % self.size()
    }

    /// Whether the network holds the address `bits`.
    pub open spec fn holds(self, bits: int) -> bool {
        self.network() <= bits < self.network() + self.size()
    }

    /// The network's text: an address in dotted form, a slash and the number of shared bits.
    pub open spec fn text(self) -> Seq<char> {
        addr_text(self.addr) + seq!['/'] + text::decimal(self.prefix as nat)
    }
}

/// A network lies within the address space, on a multiple of its own size, and holds the
/// address that it was made from.
pub proof fn lemma_network_bounds(net: NetModel)
    requires
        net.wf(),
    ensures
        1 <= net.size() <= 0x1_0000_0000,
        0 <= net.network(),
        net.network() + net.size() <= 0x1_0000_0000,
        net.network() % net.size() == 0,
        net.holds(net.addr),
{
    let size = net.size();
    let groups = pow2(net.prefix as nat) as int;
    lemma2_to64();
    lemma_pow2_pos((32 - net.prefix) as nat);
    lemma_pow2_pos(net.prefix as nat);
    lemma_pow2_adds((32 - net.prefix) as nat, net.prefix as nat);
    assert(size * groups == 0x1_0000_0000);
    let q = net.addr / size;
    assert(net.network() == size * q && 0 <= net.addr % size < size) by (nonlinear_arith)
        requires
            net.network() == net.addr - net.addr % size,
            q == net.addr / size,
            size > 0,
    ;
    assert(0 <= q < groups) by (nonlinear_arith)
        requires
            size * groups == 0x1_0000_0000,
            0 <= net.addr < 0x1_0000_0000,
            q == net.addr / size,
            size > 0,
    ;
    assert(size * q + size <= size * groups) by (nonlinear_arith)
        requires
            0 <= q < groups,
            size > 0,
    ;
    assert(size * q >= 0) by (nonlinear_arith)
        requires
            q >= 0,
            size > 0,
    ;
    assert((size * q) % size == 0) by (nonlinear_arith)
        requires
            size > 0,
    ;
    assert(size <= 0x1_0000_0000) by (nonlinear_arith)
        requires
            size * groups == 0x1_0000_0000,
            groups >= 1,
            size > 0,
    ;
}

/// Whether `t` is a numeral of at most `width` digits, leading zeros allowed, for `v`.
pub open spec fn is_numeral(t: Seq<char>, width: int, v: int) -> bool {
    &&& 1 <= t.len() <= width
    &&& text::all_digits(t)
    &&& text::numeral_value(t) == v
}

/// Whether `t` holds the numerals of a network: its four octets, then its prefix.
pub open spec fn are_cidr_numerals(t: Seq<Seq<char>>, net: NetModel) -> bool {
    &&& net.wf()
    &&& t.len() == 5
    &&& forall|i: int| 0 <= i < 4 ==> is_numeral(#[trigger] t[i], 3, octets_of(net.addr)[i])
    &&& is_numeral(t[4], 2, net.prefix)
}

/// Five numerals as the text of a network writes them.
pub open spec fn cidr_joined(t: Seq<Seq<char>>) -> Seq<char> {
    t[0] + (seq!['.'] + (t[1] + (seq!['.'] + (t[2] + (seq!['.'] + (t[3] + (seq!['/'] + t[4])))))))
}

/// Whether `s` is a text of the network `net`, with leading zeros or without.
pub open spec fn is_cidr_text(s: Seq<char>, net: NetModel) -> bool {
    exists|t: Seq<Seq<char>>| #[trigger] are_cidr_numerals(t, net) && s == cidr_joined(t)
}

/// Reads the text of a network by `ipnet`'s `FromStr` for `ipnet::Ipv4Net`. That function
/// reads four decimal octets of at most three digits, joined by dots, a slash and a decimal
/// prefix of at most two digits; leading zeros are allowed, and nothing may follow. It keeps
/// the address as written, host bits included.
#[verifier::external_body]
fn ipnet_parse(s: &str) -> (r: Option<(u32, u8)>)
    ensures
        match r {
            Some((addr, prefix)) => is_cidr_text(
                s@,
                (NetModel { addr: addr as int, prefix: prefix as int }),
            ),
            None => forall|net: NetModel| !is_cidr_text(s@, net),
        },
{
    match s.parse::<ipnet::Ipv4Net>() {
        Ok(net) => Some((u32::from(net.addr()), net.prefix_len())),
        Err(_) => None,
    }
}

/// A text is that of one network at most.
pub proof fn lemma_cidr_text_unique(s: Seq<char>, a: NetModel, b: NetModel)
    requires
        is_cidr_text(s, a),
        is_cidr_text(s, b),
    ensures
        a == b,
{
    let t = choose|t: Seq<Seq<char>>| #[trigger] are_cidr_numerals(t, a) && s == cidr_joined(t);
    let u = choose|u: Seq<Seq<char>>| #[trigger] are_cidr_numerals(u, b) && s == cidr_joined(u);
    assert(is_numeral(t[0], 3, octets_of(a.addr)[0]) && is_numeral(u[0], 3, octets_of(b.addr)[0]));
    assert(is_numeral(t[1], 3, octets_of(a.addr)[1]) && is_numeral(u[1], 3, octets_of(b.addr)[1]));
    assert(is_numeral(t[2], 3, octets_of(a.addr)[2]) && is_numeral(u[2], 3, octets_of(b.addr)[2]));
    assert(is_numeral(t[3], 3, octets_of(a.addr)[3]) && is_numeral(u[3], 3, octets_of(b.addr)[3]));
    let dot = seq!['.'];
    let t3 = seq!['/'] + t[4];
    let u3 = seq!['/'] + u[4];
    let t2 = dot + (t[3] + t3);
    let u2 = dot + (u[3] + u3);
    let t1 = dot + (t[2] + t2);
    let u1 = dot + (u[2] + u2);
    let t0 = dot + (t[1] + t1);
    let u0 = dot + (u[1] + u1);
    lemma_digits_then_other(t[0], t0, u[0], u0);
    assert(t0.skip(1) =~= t[1] + t1 && u0.skip(1) =~= u[1] + u1);
    lemma_digits_then_other(t[1], t1, u[1], u1);
    assert(t1.skip(1) =~= t[2] + t2 && u1.skip(1) =~= u[2] + u2);
    lemma_digits_then_other(t[2], t2, u[2], u2);
    assert(t2.skip(1) =~= t[3] + t3 && u2.skip(1) =~= u[3] + u3);
    lemma_digits_then_other(t[3], t3, u[3], u3);
    assert(t3.skip(1) =~= t[4] && u3.skip(1) =~= u[4]);
    lemma_octets_roundtrip(a.addr, octets_of(a.addr));
    lemma_octets_roundtrip(b.addr, octets_of(b.addr));
    assert(octets_of(a.addr) =~= octets_of(b.addr));
}

/// How long the numerals of small numbers are.
proof fn lemma_short_decimal(n: nat)
    ensures
        n < 1000 ==> text::decimal(n).len() <= 3,
        n < 100 ==> text::decimal(n).len() <= 2,
{
    reveal_with_fuel(text::decimal, 4);
}

/// The dotted form of four numbers, written out.
proof fn lemma_dotted_four(o: Seq<int>)
    requires
        o.len() == 4,
    ensures
        dotted(o) == text::decimal(o[0] as nat) + (seq!['.'] + (text::decimal(o[1] as nat) + (
        seq!['.'] + (text::decimal(o[2] as nat) + (seq!['.'] + text::decimal(o[3] as nat)))))),
{
    let o1 = o.drop_first();
    let o2 = o1.drop_first();
    let o3 = o2.drop_first();
    assert(o1[0] == o[1] && o2[0] == o[2] && o3[0] == o[3]);
    assert(dotted(o3) == text::decimal(o[3] as nat));
    assert(dotted(o2) =~= text::decimal(o[2] as nat) + (seq!['.'] + dotted(o3)));
    assert(dotted(o1) =~= text::decimal(o[1] as nat) + (seq!['.'] + dotted(o2)));
    assert(dotted(o) =~= text::decimal(o[0] as nat) + (seq!['.'] + dotted(o1)));
}

/// The text that a network is written as is a text of it.
pub proof fn lemma_net_text_is_cidr(net: NetModel)
    requires
        net.wf(),
    ensures
        is_cidr_text(net.text(), net),
{
    let o = octets_of(net.addr);
    lemma_octets_roundtrip(net.addr, o);
    let t = seq![
        text::decimal(o[0] as nat),
        text::decimal(o[1] as nat),
        text::decimal(o[2] as nat),
        text::decimal(o[3] as nat),
        text::decimal(net.prefix as nat),
    ];
    assert forall|i: int| 0 <= i < 4 implies is_numeral(#[trigger] t[i], 3, o[i]) by {
        assert(0 <= o[i] < 0x100);
        assert(t[i] == text::decimal(o[i] as nat));
        text::lemma_decimal_is_plain(o[i] as nat);
        lemma_short_decimal(o[i] as nat);
    }
    text::lemma_decimal_is_plain(net.prefix as nat);
    lemma_short_decimal(net.prefix as nat);
    assert(are_cidr_numerals(t, net));
    lemma_dotted_four(o);
    assert(net.text() =~= cidr_joined(t));
}

/// An IPv4 network: an address in it, and how many leading bits all its addresses share.
#[derive(Debug, Clone, Copy, PartialEq, Eq, PartialOrd, Ord, Hash, Structural)]
pub struct Ipv4Net {
    addr: Ipv4Addr,
    prefix: u8,
}

impl View for Ipv4Net {
    type V = NetModel;

    closed spec fn view(&self) -> NetModel {
        NetModel { addr: self.addr.bits as int, prefix: self.prefix as int }
    }
}

/// Two networks with the same address and prefix are the same network.
pub proof fn law_net_is_address_and_prefix(a: Ipv4Net, b: Ipv4Net)
    ensures
        a@ == b@ <==> a == b,
{
}

impl Ipv4Net {
    #[verifier::type_invariant]
    spec fn prefix_fits(&self) -> bool {
        self.prefix <= 32
    }

    /// The network of `addr` whose addresses share `prefix` leading bits; none if there are
    /// not so many bits.
    pub fn new(addr: Ipv4Addr, prefix: u8) -> (r: Option<Ipv4Net>)
        ensures
            r is Some <==> prefix <= 32,
            r matches Some(net) ==> net@.wf() && net@ == (NetModel {
                addr: addr.bits as int,
                prefix: prefix as int,
            }),
    {
        if prefix <= 32 {
            Some(Ipv4Net { addr, prefix })
        } else {
            None
        }
    }

    /// The network of `addr` whose addresses share `prefix` leading bits.
    pub fn new_assert(addr: Ipv4Addr, prefix: u8) -> (net: Ipv4Net)
        requires
            prefix <= 32,
        ensures
            net@.wf(),
            net@ == (NetModel { addr: addr.bits as int, prefix: prefix as int }),
    {
        Ipv4Net { addr, prefix }
    }

    /// The address that the network was made from.
    pub fn addr(&self) -> (r: Ipv4Addr)
        ensures
            r.bits == self@.addr,
            self@.wf(),
    {
        proof {
            use_type_invariant(self);
        }
        self.addr
    }

    /// How many leading bits the addresses share.
    pub fn prefix_len(&self) -> (r: u8)
        ensures
            r == self@.prefix,
            self@.wf(),
    {
        proof {
            use_type_invariant(self);
        }
        self.prefix
    }

    /// How many addresses the network has.
    pub fn size(&self) -> (r: u64)
        ensures
            r == self@.size(),
            self@.wf(),
    {
        proof {
            use_type_invariant(self);
            lemma_network_bounds(self@);
            vstd::bits::lemma_u64_shl_is_mul(1, (32 - self.prefix) as u64);
        }
        1u64 << (32 - self.prefix) as u64
    }

    /// The lowest address of the network.
    pub fn network(&self) -> (r: Ipv4Addr)
        ensures
            r.bits == self@.network(),
            self@.wf(),
    {
        proof {
            use_type_invariant(self);
            lemma_network_bounds(self@);
        }
        let size = self.size();
        let addr = self.addr.bits as u64;
        Ipv4Addr { bits: (addr - addr % size) as u32 }
    }

    /// Whether `addr` belongs to the network.
    pub fn contains(&self, addr: Ipv4Addr) -> (r: bool)
        ensures
            r == self@.holds(addr.bits as int),
            self@.wf(),
    {
        proof {
            use_type_invariant(self);
            lemma_network_bounds(self@);
        }
        let first = self.network().bits as u64;
        let addr = addr.bits as u64;
        first <= addr && addr < first + self.size()
    }

    /// The network's text.
    pub fn to_text(&self) -> (r: String)
        ensures
            r@ == self@.text(),
            self@.wf(),
    {
        proof {
            use_type_invariant(self);
            reveal_strlit("/");
            assert("/"@ =~= seq!['/']);
        }
        let mut r = self.addr.to_text();
        r.append("/");
        text::push_decimal(&mut r, self.prefix as u64);
        r
    }

    /// Reads the text of a network: four octets, a slash and a prefix, leading zeros allowed.
    pub fn parse(s: &str) -> (r: Option<Ipv4Net>)
        ensures
            match r {
                Some(net) => net@.wf() && is_cidr_text(s@, net@),
                None => forall|net: NetModel| !is_cidr_text(s@, net),
            },
    {
        match ipnet_parse(s) {
            Some((bits, prefix)) => {
                assert(prefix <= 32);
                Some(Ipv4Net { addr: Ipv4Addr { bits }, prefix })
            },
            None => None,
        }
    }
}

/// A text stands for no more than one address.
pub proof fn law_addr_text_is_unique(a: Ipv4Addr, b: Ipv4Addr)
    requires
        addr_text(a.bits as int) == addr_text(b.bits as int),
    ensures
        a == b,
{
    let na = NetModel { addr: a.bits as int, prefix: 0 };
    let nb = NetModel { addr: b.bits as int, prefix: 0 };
    lemma_net_text_is_cidr(na);
    lemma_net_text_is_cidr(nb);
    lemma_cidr_text_unique(na.text(), na, nb);
}

/// The text of a network is read back as that network, and as no other.
pub proof fn law_net_text_reads_back(net: NetModel, read: NetModel)
    requires
        net.wf(),
    ensures
        is_cidr_text(net.text(), read) <==> read == net,
{
    lemma_net_text_is_cidr(net);
    if is_cidr_text(net.text(), read) {
        lemma_cidr_text_unique(net.text(), net, read);
    }
}

/// An address is written as its four octets in decimal, the most significant first, with dots in
/// between.
pub proof fn law_address_is_written_octet_by_octet(a: u8, b: u8, c: u8, d: u8)
    ensures
        addr_text(((a * 0x100 + b) * 0x100 + c) * 0x100 + d) == text::decimal(a as nat) + seq!['.']
            + text::decimal(b as nat) + seq!['.'] + text::decimal(c as nat) + seq!['.']
            + text::decimal(d as nat),
{
    let o = seq![a as int, b as int, c as int, d as int];
    lemma_octets_roundtrip(0, o);
    assert(octets_value(o) == ((a * 0x100 + b) * 0x100 + c) * 0x100 + d);
    reveal_with_fuel(dotted, 5);
    assert(o.drop_first().drop_first().drop_first()[0] == o[3]);
    assert(dotted(o) =~= text::decimal(a as nat) + seq!['.'] + text::decimal(b as nat) + seq!['.']
        + text::decimal(c as nat) + seq!['.'] + text::decimal(d as nat));
}

/// A network whose addresses share all bits has one address, and each bit fewer that they share
/// makes twice as many.
pub proof fn law_each_bit_halves_a_network(addr: int, prefix: int)
    requires
        0 <= prefix < 32,
    ensures
        (NetModel { addr, prefix: 32 }).size() == 1,
        (NetModel { addr, prefix }).size() == 2 * (NetModel { addr, prefix: prefix + 1 }).size(),
{
    lemma_pow2_unfold((32 - prefix) as nat);
    lemma2_to64();
}

/// A network holds the address that it was made from; its addresses are the run of as many as it
/// has, from its lowest one on, and the lowest one is a multiple of how many there are.
pub proof fn law_network_is_an_aligned_run(net: NetModel, bits: int)
    requires
        0 <= net.addr < 0x1_0000_0000,
        0 <= net.prefix <= 32,
    ensures
        net.network() <= net.addr < net.network() + net.size(),
        exists|k: int| #[trigger] (k * net.size()) == net.network(),
        net.holds(bits) <==> net.network() <= bits < net.network() + net.size(),
        0 <= net.network() && net.network() + net.size() <= 0x1_0000_0000,
{
    lemma_network_bounds(net);
    vstd::arithmetic::div_mod::lemma_fundamental_div_mod(net.addr, net.size());
    let k = net.addr / net.size();
    assert(net.size() * k == k * net.size()) by (nonlinear_arith);
    assert(k * net.size() == net.network());
}

/// A network is written as the address that it was made from, a slash, and how many bits its
/// addresses share.
pub proof fn law_network_is_written_with_its_prefix(net: NetModel)
    ensures
        net.text() == addr_text(net.addr) + seq!['/'] + text::decimal(net.prefix as nat),
{
}

/// What reads as a network is five runs of digits: four numbers below 256 with dots in between,
/// which make up its address, a slash, and a number of at most 32, its prefix.
pub proof fn law_network_text_has_five_numbers(s: Seq<char>, net: NetModel) -> (t: Seq<Seq<char>>)
    requires
        is_cidr_text(s, net),
    ensures
        t.len() == 5,
        s == t[0] + seq!['.'] + t[1] + seq!['.'] + t[2] + seq!['.'] + t[3] + seq!['/'] + t[4],
        forall|i: int| 0 <= i < 4 ==> 1 <= (#[trigger] t[i]).len() <= 3,
        1 <= t[4].len() <= 2,
        forall|i: int| 0 <= i < 4 ==> 0 <= text::numeral_value(#[trigger] t[i]) < 0x100,
        net.addr == ((text::numeral_value(t[0]) * 0x100 + text::numeral_value(t[1])) * 0x100
            + text::numeral_value(t[2])) * 0x100 + text::numeral_value(t[3]),
        net.prefix == text::numeral_value(t[4]),
        0 <= net.prefix <= 32,
{
    let t = choose|t: Seq<Seq<char>>| #[trigger] are_cidr_numerals(t, net) && s == cidr_joined(t);
    lemma_octets_roundtrip(net.addr, Seq::empty());
    let o = octets_of(net.addr);
    assert(are_octets(o));
    assert(is_numeral(t[0], 3, o[0]) && is_numeral(t[1], 3, o[1]) && is_numeral(t[2], 3, o[2])
        && is_numeral(t[3], 3, o[3]));
    assert forall|i: int| 0 <= i < 4 implies 0 <= text::numeral_value(#[trigger] t[i]) < 0x100 by {
        assert(is_numeral(t[i], 3, o[i]));
        assert(0 <= o[i] < 0x100);
    }
    assert(s =~= t[0] + seq!['.'] + t[1] + seq!['.'] + t[2] + seq!['.'] + t[3] + seq!['/'] + t[4]);
    t
}

} // verus!
