//! The tables of open ports that the kernel keeps, as text.
//!
//! After a heading, a table has one line for each port. The second word of a line is the
//! local address and port, in hexadecimal, with a colon in between; the fourth is the state.
use vstd::prelude::*;

use crate::net;
use crate::sysprobe::proto::{PortEntry, PortList, PortModel};
use crate::text;

verus! {

/// Whether a text falls into pieces of two bytes each without cutting a character.
pub open spec fn falls_into_pairs(s: Seq<char>) -> bool
    decreases s.len(),
{
    if s.len() == 0 {
        true
    } else if text::utf8_width(s[0]) == 2 {
        falls_into_pairs(s.skip(1))
    } else if text::utf8_width(s[0]) == 1 && s.len() > 1 && text::utf8_width(s[1]) == 1 {
        falls_into_pairs(s.skip(2))
    } else {
        false
    }
}

/// The number that each piece of two bytes writes in hexadecimal, if it does.
pub open spec fn pair_numbers(s: Seq<char>) -> Seq<Option<int>>
    decreases s.len(),
{
    if s.len() == 0 {
        Seq::empty()
    } else if text::utf8_width(s[0]) == 2 || s.len() == 1 {
        seq![None] + pair_numbers(s.skip(1))
    } else {
        seq![text::hex_u32(s.take(2))] + pair_numbers(s.skip(2))
    }
}

/// An IPv4 address from the table: four numbers of two digits each, the last octet first. Any
/// other text stands for itself.
pub open spec fn ipv4_text(hex: Seq<char>) -> Seq<char> {
    let n = pair_numbers(hex);
    if n.len() == 4 && n[0] is Some && n[1] is Some && n[2] is Some && n[3] is Some {
        net::dotted(seq![n[3].unwrap(), n[2].unwrap(), n[1].unwrap(), n[0].unwrap()])
    } else {
        hex
    }
}

/// Where the address ends.
pub open spec fn colon(s: Seq<char>) -> int {
    text::find(s, |c: char| c == ':')
}

/// An address from the table: of eight bytes for IPv4, of any other number for IPv6.
pub open spec fn table_addr(hex: Seq<char>) -> Seq<char> {
    if text::utf8_len(hex) == 8 {
        ipv4_text(hex)
    } else {
        "::"@ + hex
    }
}

/// The address and the port that a word of the table stands for.
pub open spec fn addr_port(s: Seq<char>) -> Option<(Seq<char>, int)> {
    if s.contains(':') {
        match text::hex_u32(s.skip(colon(s) + 1)) {
            Some(port) => Some((table_addr(s.take(colon(s))), port)),
            None => None,
        }
    } else {
        None
    }
}

/// Whether an address and a port can be read without cutting a character: an address of eight
/// bytes in front of a port must fall into pairs.
pub open spec fn addr_port_is_whole(s: Seq<char>) -> bool {
    addr_port(s) is Some && text::utf8_len(s.take(colon(s))) == 8 ==> falls_into_pairs(
        s.take(colon(s)),
    )
}

/// The name of a state.
pub open spec fn state_name(code: Seq<char>) -> Seq<char> {
    if code == "01"@ {
        "ESTABLISHED"@
    } else if code == "0A"@ {
        "LISTEN"@
    } else if code == "06"@ {
        "TIME_WAIT"@
    } else {
        text::lower(code)
    }
}

/// The port that a line of the table stands for.
pub open spec fn line_entry(line: Seq<char>, proto: Seq<char>) -> Option<PortModel> {
    let cols = text::words(line);
    if cols.len() < 2 {
        None
    } else {
        match addr_port(cols[1]) {
            Some((local_addr, local_port)) => Some(
                PortModel {
                    proto,
                    local_addr,
                    local_port,
                    state: state_name(
                        if cols.len() > 3 {
                            cols[3]
                        } else {
                            "00"@
                        },
                    ),
                    pid: 0,
                },
            ),
            None => None,
        }
    }
}

/// Whether a line can be read without cutting a character.
pub open spec fn line_is_whole(line: Seq<char>) -> bool {
    text::words(line).len() > 1 ==> addr_port_is_whole(text::words(line)[1])
}

/// The ports that lines of the table stand for.
pub open spec fn entries(lines: Seq<Seq<char>>, proto: Seq<char>) -> Seq<PortModel>
    decreases lines.len(),
{
    if lines.len() == 0 {
        Seq::empty()
    } else {
        match line_entry(lines.last(), proto) {
            Some(entry) => entries(lines.drop_last(), proto).push(entry),
            None => entries(lines.drop_last(), proto),
        }
    }
}

/// The lines behind the heading.
pub open spec fn table_lines(content: Seq<char>) -> Seq<Seq<char>> {
    let all = text::lines(content);
    if all.len() == 0 {
        all
    } else {
        all.skip(1)
    }
}

/// The ports in a table.
pub open spec fn table_entries(content: Seq<char>, proto: Seq<char>) -> Seq<PortModel> {
    entries(table_lines(content), proto)
}

/// Whether a table can be read without cutting a character.
pub open spec fn table_is_whole(content: Seq<char>) -> bool {
    forall|i: int|
        0 <= i < table_lines(content).len() ==> line_is_whole(#[trigger] table_lines(content)[i])
}

/// The views of ports.
pub open spec fn port_models(ports: Seq<PortEntry>) -> Seq<PortModel> {
    ports.map_values(|p: PortEntry| p@)
}

/// The number in a slot, as mathematics sees it.
spec fn slot(n: Option<u32>) -> Option<int> {
    match n {
        Some(v) => Some(v as int),
        None => None,
    }
}

/// The numbers that the pieces of two bytes write.
fn pairs_of(cs: &Vec<char>) -> (r: Vec<Option<u32>>)
    requires
        falls_into_pairs(cs@),
    ensures
        r@.map_values(|n: Option<u32>| slot(n)) == pair_numbers(cs@),
{
    let mut r: Vec<Option<u32>> = Vec::new();
    let mut i: usize = 0;
    assert(cs@.skip(0) =~= cs@);
    assert(r@.map_values(|n: Option<u32>| slot(n)) + pair_numbers(cs@) =~= pair_numbers(cs@));
    while i < cs.len()
        invariant
            i <= cs@.len(),
            falls_into_pairs(cs@.skip(i as int)),
            r@.map_values(|n: Option<u32>| slot(n)) + pair_numbers(cs@.skip(i as int))
                == pair_numbers(cs@),
        decreases cs@.len() - i,
    {
        let ghost rest = cs@.skip(i as int);
        let ghost done = r@.map_values(|n: Option<u32>| slot(n));
        let ghost before = i as int;
        if text::char_width(cs[i]) == 2 {
            r.push(None);
            i = i + 1;
            proof {
                assert(rest.skip(1) =~= cs@.skip(i as int));
            }
        } else {
            let n = text::parse_hex_u32(vstd::slice::slice_subrange(cs.as_slice(), i, i + 2));
            r.push(n);
            i = i + 2;
            proof {
                assert(rest.take(2) =~= cs@.subrange(before, before + 2));
                assert(rest.skip(2) =~= cs@.skip(i as int));
            }
        }
        proof {
            let last = slot(r@.last());
            assert(r@.map_values(|n: Option<u32>| slot(n)) =~= done.push(last));
            assert(done.push(last) + pair_numbers(cs@.skip(i as int)) =~= done + (seq![last]
                + pair_numbers(cs@.skip(i as int))));
        }
    }
    proof {
        assert(cs@.skip(i as int) =~= Seq::<char>::empty());
        assert(r@.map_values(|n: Option<u32>| slot(n)) =~= pair_numbers(cs@));
    }
    r
}

/// Writes an IPv4 address from the table in dotted form; any other text stays as it is.
pub fn format_ipv4(hex: &str) -> (r: String)
    requires
        falls_into_pairs(hex@),
    ensures
        r@ == ipv4_text(hex@),
{
    let cs = text::chars_of(hex);
    let n = pairs_of(&cs);
    let ghost ns = pair_numbers(hex@);
    assert(ns.len() == n@.len());
    assert(forall|i: int| 0 <= i < n@.len() ==> ns[i] == slot(#[trigger] n@[i]));
    if n.len() == 4 {
        if let (Some(a), Some(b), Some(c), Some(d)) = (n[0], n[1], n[2], n[3]) {
            let mut r = String::new();
            text::push_decimal(&mut r, d as u64);
            r.append(".");
            text::push_decimal(&mut r, c as u64);
            r.append(".");
            text::push_decimal(&mut r, b as u64);
            r.append(".");
            text::push_decimal(&mut r, a as u64);
            proof {
                let os: Seq<int> = seq![d as int, c as int, b as int, a as int];
                assert(os == seq![ns[3].unwrap(), ns[2].unwrap(), ns[1].unwrap(), ns[0].unwrap()]);
                reveal_strlit(".");
                reveal_with_fuel(net::dotted, 5);
                assert("."@ =~= seq!['.']);
                assert(os.drop_first().drop_first().drop_first()[0] == os[3]);
                assert(r@ =~= net::dotted(os));
            }
            return r;
        }
    }
    hex.to_string()
}

/// Reads an address and a port.
pub fn parse_addr_port(s: &str) -> (r: Option<(String, u32)>)
    requires
        addr_port_is_whole(s@),
    ensures
        match r {
            Some((addr, port)) => addr_port(s@) == Some((addr@, port as int)),
            None => addr_port(s@) is None,
        },
{
    let (addr_hex, port_hex) = match text::split_at_first(s, ':') {
        Some(parts) => parts,
        None => {
            return None;
        },
    };
    proof {
        text::lemma_find(s@, |c: char| c == ':');
        assert(s@.contains(s@[colon(s@)]));
    }
    let digits = text::chars_of(port_hex);
    let port = match text::parse_hex_u32(digits.as_slice()) {
        Some(port) => port,
        None => {
            return None;
        },
    };
    let hex = text::chars_of(addr_hex);
    let addr = if text::has_utf8_len(&hex, 8) {
        format_ipv4(addr_hex)
    } else {
        text::join2("::", addr_hex)
    };
    Some((addr, port))
}

/// The name of a state.
pub fn tcp_state_name(code: &str) -> (r: String)
    ensures
        r@ == state_name(code@),
{
    if text::same_text(code, "01") {
        "ESTABLISHED".to_string()
    } else if text::same_text(code, "0A") {
        "LISTEN".to_string()
    } else if text::same_text(code, "06") {
        "TIME_WAIT".to_string()
    } else {
        text::to_lowercase(code)
    }
}

/// Reads a line of the table.
pub fn parse_proc_line(line: &str, proto: &str) -> (r: Option<PortEntry>)
    requires
        line_is_whole(line@),
    ensures
        match r {
            Some(entry) => line_entry(line@, proto@) == Some(entry@),
            None => line_entry(line@, proto@) is None,
        },
        r is Some <==> text::words(line@).len() >= 2 && addr_port(text::words(line@)[1]) is Some,
{
    let cols = text::split_words(line);
    let ghost words = text::words(line@);
    assert(words.len() == cols@.len());
    assert(forall|i: int| 0 <= i < cols@.len() ==> words[i] == (#[trigger] cols@[i])@);
    if cols.len() < 2 {
        return None;
    }
    let (local_addr, local_port) = match parse_addr_port(cols[1]) {
        Some(parts) => parts,
        None => {
            return None;
        },
    };
    let code = if cols.len() > 3 {
        cols[3]
    } else {
        "00"
    };
    let state = tcp_state_name(code);
    Some(PortEntry { proto: proto.to_string(), local_addr, local_port, state, pid: 0 })
}

/// Reads a table. Lines that stand for no port are passed over.
pub fn parse_proc_net(content: &str, proto: &str) -> (r: Vec<PortEntry>)
    requires
        table_is_whole(content@),
    ensures
        port_models(r@) == table_entries(content@, proto@),
{
    let lines = text::split_lines(content);
    let ghost all = text::lines(content@);
    let ghost rows = table_lines(content@);
    assert(all.len() == lines@.len());
    assert(forall|i: int| 0 <= i < lines@.len() ==> all[i] == (#[trigger] lines@[i])@);
    let mut r: Vec<PortEntry> = Vec::new();
    if lines.len() == 0 {
        assert(port_models(r@) =~= table_entries(content@, proto@));
        return r;
    }
    let mut i: usize = 1;
    assert(rows.take(0) =~= Seq::<Seq<char>>::empty());
    assert(port_models(r@) =~= entries(rows.take(0), proto@));
    while i < lines.len()
        invariant
            1 <= i <= lines@.len(),
            all.len() == lines@.len(),
            rows == all.skip(1),
            rows == table_lines(content@),
            table_is_whole(content@),
            forall|i: int| 0 <= i < lines@.len() ==> all[i] == (#[trigger] lines@[i])@,
            port_models(r@) == entries(rows.take(i - 1), proto@),
        decreases lines@.len() - i,
    {
        let ghost before = port_models(r@);
        let line = lines[i];
        proof {
            assert(rows[i - 1] == line@);
            assert(rows.take(i as int).drop_last() =~= rows.take(i - 1));
            assert(rows.take(i as int).last() == line@);
        }
        if let Some(entry) = parse_proc_line(line, proto) {
            r.push(entry);
            assert(port_models(r@) =~= before.push(entry@));
        }
        i = i + 1;
    }
    assert(rows.take(i - 1) =~= rows);
    r
}

/// Whether a text falls into pieces of two bytes each without cutting a character.
fn pairs_are_whole(cs: &Vec<char>) -> (r: bool)
    ensures
        r == falls_into_pairs(cs@),
{
    let mut i: usize = 0;
    assert(cs@.skip(0) =~= cs@);
    while i < cs.len()
        invariant
            i <= cs@.len(),
            falls_into_pairs(cs@.skip(i as int)) == falls_into_pairs(cs@),
        decreases cs@.len() - i,
    {
        let ghost rest = cs@.skip(i as int);
        let w = text::char_width(cs[i]);
        if w == 2 {
            assert(rest.skip(1) =~= cs@.skip(i + 1));
            i = i + 1;
        } else if w == 1 && cs.len() - i > 1 && text::char_width(cs[i + 1]) == 1 {
            assert(rest.skip(2) =~= cs@.skip(i + 2));
            i = i + 2;
        } else {
            return false;
        }
    }
    true
}

/// Whether a line can be read without cutting a character.
fn line_reads_whole(line: &str) -> (r: bool)
    ensures
        r == line_is_whole(line@),
{
    let cols = text::split_words(line);
    let ghost words = text::words(line@);
    assert(words.len() == cols@.len());
    if cols.len() < 2 {
        return true;
    }
    let word = cols[1];
    assert(words[1] == word@);
    match text::split_at_first(word, ':') {
        Some((addr_hex, port_hex)) => {
            proof {
                text::lemma_find(word@, |c: char| c == ':');
                assert(word@.contains(word@[colon(word@)]));
            }
            let digits = text::chars_of(port_hex);
            if text::parse_hex_u32(digits.as_slice()).is_none() {
                return true;
            }
            let hex = text::chars_of(addr_hex);
            !text::has_utf8_len(&hex, 8) || pairs_are_whole(&hex)
        },
        None => true,
    }
}

/// Whether a table can be read without cutting a character.
pub fn table_reads_whole(content: &str) -> (r: bool)
    ensures
        r == table_is_whole(content@),
{
    let lines = text::split_lines(content);
    let ghost all = text::lines(content@);
    assert(all.len() == lines@.len());
    assert(forall|i: int| 0 <= i < lines@.len() ==> all[i] == (#[trigger] lines@[i])@);
    let mut i: usize = 1;
    while i < lines.len()
        invariant
            1 <= i,
            all == text::lines(content@),
            all.len() == lines@.len(),
            forall|i: int| 0 <= i < lines@.len() ==> all[i] == (#[trigger] lines@[i])@,
            forall|j: int|
                0 <= j < i - 1 && j < table_lines(content@).len() ==> line_is_whole(
                    #[trigger] table_lines(content@)[j],
                ),
        decreases lines@.len() - i,
    {
        assert(table_lines(content@)[i - 1] == lines@[i as int]@);
        if !line_reads_whole(lines[i]) {
            return false;
        }
        i = i + 1;
    }
    true
}

/// The ports in a table that may be missing.
pub open spec fn entries_if_read(content: Option<String>, proto: Seq<char>) -> Seq<PortModel> {
    match content {
        Some(text) => table_entries(text@, proto),
        None => Seq::empty(),
    }
}

/// Whether a table that may be missing can be read without cutting a character.
pub open spec fn whole_if_read(content: Option<String>) -> bool {
    match content {
        Some(text) => table_is_whole(text@),
        None => true,
    }
}

fn add_table(ports: &mut Vec<PortEntry>, content: &Option<String>, proto: &str)
    requires
        whole_if_read(*content),
    ensures
        port_models(final(ports)@) == port_models(old(ports)@) + entries_if_read(*content, proto@),
{
    if let Some(content) = content {
        let mut more = parse_proc_net(content.as_str(), proto);
        let ghost added = more@;
        ports.append(&mut more);
        assert(port_models(ports@) =~= port_models(old(ports)@) + port_models(added));
    } else {
        assert(port_models(ports@) =~= port_models(old(ports)@) + Seq::<PortModel>::empty());
    }
}

/// All open ports, from the tables for TCP and UDP over IPv4 and IPv6. A table that could not
/// be read adds nothing.
pub fn ports_of_tables(
    tcp: &Option<String>,
    tcp6: &Option<String>,
    udp: &Option<String>,
    udp6: &Option<String>,
) -> (r: PortList)
    requires
        whole_if_read(*tcp),
        whole_if_read(*tcp6),
        whole_if_read(*udp),
        whole_if_read(*udp6),
    ensures
        port_models(r.ports@) == entries_if_read(*tcp, "tcp"@) + entries_if_read(*tcp6, "tcp"@)
            + entries_if_read(*udp, "udp"@) + entries_if_read(*udp6, "udp"@),
{
    let mut ports: Vec<PortEntry> = Vec::new();
    assert(port_models(ports@) =~= Seq::<PortModel>::empty());
    add_table(&mut ports, tcp, "tcp");
    assert(port_models(ports@) =~= entries_if_read(*tcp, "tcp"@));
    add_table(&mut ports, tcp6, "tcp");
    add_table(&mut ports, udp, "udp");
    add_table(&mut ports, udp6, "udp");
    PortList { ports }
}

/// A line stands for a port if and only if it has a second word and that word reads as an
/// address and a port: no other word of the line has a say in it. The entry has the protocol of
/// its table, the address and the port of that word, no process, and the state that the fourth
/// word names, or the state 00 where there is none.
pub proof fn law_second_word_decides(line: Seq<char>, proto: Seq<char>)
    ensures
        line_entry(line, proto) is Some <==> text::words(line).len() >= 2 && addr_port(
            text::words(line)[1],
        ) is Some,
        line_entry(line, proto) matches Some(entry) ==> {
            let cols = text::words(line);
            &&& entry.proto == proto
            &&& addr_port(cols[1]) == Some((entry.local_addr, entry.local_port))
            &&& entry.pid == 0
            &&& cols.len() >= 4 ==> entry.state == state_name(cols[3])
            &&& cols.len() < 4 ==> entry.state == state_name("00"@)
        },
{
}

/// Two lines with the same second word and the same fourth word stand for the same port,
/// whatever their other words are.
pub proof fn law_other_words_do_not_count(a: Seq<char>, b: Seq<char>, proto: Seq<char>)
    requires
        text::words(a).len() >= 4,
        text::words(b).len() >= 4,
        text::words(a)[1] == text::words(b)[1],
        text::words(a)[3] == text::words(b)[3],
    ensures
        line_entry(a, proto) == line_entry(b, proto),
{
}

/// A word without a colon stands for no address and port. One with a colon stands for a port if
/// and only if what is behind its first colon reads as a number, and then for that number.
pub proof fn law_port_is_behind_the_colon(a: Seq<char>, p: Seq<char>)
    requires
        !a.contains(':'),
    ensures
        addr_port(a) is None,
        addr_port(a.push(':') + p) is Some <==> text::hex_u32(p) is Some,
        addr_port(a.push(':') + p) matches Some(found) ==> Some(found.1) == text::hex_u32(p)
            && found.0 == table_addr(a),
{
    let s = a.push(':') + p;
    assert(s[a.len() as int] == ':');
    assert(s.contains(':'));
    assert forall|i: int| 0 <= i < a.len() implies #[trigger] s[i] != ':' by {
        assert(s[i] == a[i]);
    }
    text::lemma_find(s, |c: char| c == ':');
    let k = colon(s);
    assert(k == a.len()) by {
        if k < a.len() {
            assert(s[k] != ':');
        }
    }
    assert(s.take(k) =~= a);
    assert(s.skip(k + 1) =~= p);
}

/// Eight digits are the four octets of an address, two digits each, the last octet first.
pub proof fn law_octets_are_turned_round(hex: Seq<char>, d: Seq<int>)
    requires
        hex.len() == 8,
        d.len() == 8,
        forall|i: int|
            0 <= i < 8 ==> (#[trigger] d[i]) >= 0 && (d[i] <= 9 && hex[i] as int == 48 + d[i]
                || 10 <= d[i] <= 15 && (hex[i] as int == 55 + d[i] || hex[i] as int == 87 + d[i])),
    ensures
        falls_into_pairs(hex),
        table_addr(hex) == text::decimal((16 * d[6] + d[7]) as nat) + seq!['.'] + text::decimal(
            (16 * d[4] + d[5]) as nat,
        ) + seq!['.'] + text::decimal((16 * d[2] + d[3]) as nat) + seq!['.'] + text::decimal(
            (16 * d[0] + d[1]) as nat,
        ),
{
    assert forall|i: int| 0 <= i < 8 implies (#[trigger] hex[i]) as u32 <= 0x7f by {
        assert(d[i] >= 0);
    }
    text::law_ascii_takes_a_byte_each(hex);
    assert(d[0] >= 0 && d[1] >= 0 && d[2] >= 0 && d[3] >= 0);
    assert(d[4] >= 0 && d[5] >= 0 && d[6] >= 0 && d[7] >= 0);
    let s2 = hex.skip(2);
    let s4 = s2.skip(2);
    let s6 = s4.skip(2);
    assert(s6.skip(2) =~= Seq::<char>::empty());
    lemma_pair(hex, d[0], d[1]);
    lemma_pair(s2, d[2], d[3]);
    lemma_pair(s4, d[4], d[5]);
    lemma_pair(s6, d[6], d[7]);
    assert(pair_numbers(s6) =~= seq![Some(16 * d[6] + d[7])]);
    assert(pair_numbers(s4) =~= seq![Some(16 * d[4] + d[5]), Some(16 * d[6] + d[7])]);
    assert(pair_numbers(hex) =~= seq![
        Some(16 * d[0] + d[1]),
        Some(16 * d[2] + d[3]),
        Some(16 * d[4] + d[5]),
        Some(16 * d[6] + d[7]),
    ]);
    let o = seq![16 * d[6] + d[7], 16 * d[4] + d[5], 16 * d[2] + d[3], 16 * d[0] + d[1]];
    reveal_with_fuel(net::dotted, 5);
    assert(o.drop_first().drop_first().drop_first()[0] == o[3]);
    assert(table_addr(hex) == net::dotted(o));
    assert(net::dotted(o) =~= text::decimal(o[0] as nat) + seq!['.'] + text::decimal(o[1] as nat)
        + seq!['.'] + text::decimal(o[2] as nat) + seq!['.'] + text::decimal(o[3] as nat));
}

proof fn lemma_pair(s: Seq<char>, high: int, low: int)
    requires
        s.len() >= 2,
        text::is_hex_digit(s[0], high),
        text::is_hex_digit(s[1], low),
    ensures
        pair_numbers(s) == seq![Some(16 * high + low)] + pair_numbers(s.skip(2)),
        falls_into_pairs(s) == falls_into_pairs(s.skip(2)),
{
    text::law_hex_reads_by_place(Seq::empty(), s[0], high);
    text::law_hex_reads_by_place(seq![s[0]], s[1], low);
    assert(s.take(2) =~= seq![s[0]].push(s[1]));
}

/// The text of an address that does not take eight bytes is that of an IPv6 address: two colons,
/// and the digits as they are.
pub proof fn law_longer_address_keeps_its_digits(hex: Seq<char>)
    requires
        forall|i: int| 0 <= i < hex.len() ==> (#[trigger] hex[i]) as u32 <= 0x7f,
        hex.len() != 8,
    ensures
        table_addr(hex) == seq![':', ':'] + hex,
{
    text::law_ascii_takes_a_byte_each(hex);
    reveal_strlit("::");
    assert("::"@ =~= seq![':', ':']);
}

/// Three states have names of their own; any other is called by its code in lower case.
pub proof fn law_states_have_names(a: char, b: char)
    requires
        a as u32 <= 0x7f,
        b as u32 <= 0x7f,
    ensures
        state_name(seq!['0', '1']) == "ESTABLISHED"@,
        state_name(seq!['0', 'A']) == "LISTEN"@,
        state_name(seq!['0', '6']) == "TIME_WAIT"@,
        !(a == '0' && (b == '1' || b == 'A' || b == '6')) && !('A' <= a <= 'Z') && !('A' <= b
            <= 'Z') ==> state_name(seq![a, b]) == seq![a, b],
        !(a == '0' && (b == '1' || b == 'A' || b == '6')) ==> state_name(seq![a, b])
            == text::lower(seq![a, b]),
{
    reveal_strlit("01");
    reveal_strlit("0A");
    reveal_strlit("06");
    assert("01"@ =~= seq!['0', '1']);
    assert("0A"@ =~= seq!['0', 'A']);
    assert("06"@ =~= seq!['0', '6']);
    let s = seq![a, b];
    assert("01"@[0] == '0' && "01"@[1] == '1');
    assert("0A"@[0] == '0' && "0A"@[1] == 'A');
    assert("06"@[0] == '0' && "06"@[1] == '6');
    assert(s[0] == a && s[1] == b);
    if !(a == '0' && (b == '1' || b == 'A' || b == '6')) {
        assert(s != "01"@ && s != "0A"@ && s != "06"@);
        if !('A' <= a <= 'Z') && !('A' <= b <= 'Z') {
            assert(text::all_ascii(s));
            assert(text::lower(s) =~= s);
        }
    }
}

/// A table's ports come line by line: one entry for each line that stands for a port, in the
/// order of the lines, and none for any other.
pub proof fn law_table_is_read_line_by_line(
    a: Seq<Seq<char>>,
    b: Seq<Seq<char>>,
    line: Seq<char>,
    proto: Seq<char>,
)
    ensures
        entries(Seq::empty(), proto) == Seq::<PortModel>::empty(),
        entries(seq![line], proto).len() == if text::words(line).len() >= 2 && addr_port(
            text::words(line)[1],
        ) is Some {
            1nat
        } else {
            0nat
        },
        entries(seq![line], proto).len() == 1 ==> line_entry(line, proto) == Some(
            entries(seq![line], proto)[0],
        ),
        entries(a + b, proto) == entries(a, proto) + entries(b, proto),
    decreases b.len(),
{
    assert(seq![line].drop_last() =~= Seq::<Seq<char>>::empty());
    assert(entries(Seq::<Seq<char>>::empty(), proto) =~= Seq::<PortModel>::empty());
    if b.len() == 0 {
        assert(a + b =~= a);
        assert(entries(a, proto) + entries(b, proto) =~= entries(a, proto));
    } else {
        law_table_is_read_line_by_line(a, b.drop_last(), line, proto);
        assert((a + b).drop_last() =~= a + b.drop_last());
        assert((a + b).last() == b.last());
        assert(entries(a + b, proto) =~= entries(a, proto) + entries(b, proto));
    }
}

/// A table has as many entries as it has lines whose second word reads as an address and a port.
pub proof fn law_every_readable_line_counts(lines: Seq<Seq<char>>, proto: Seq<char>)
    ensures
        entries(lines, proto).len() == lines.filter(
            |line: Seq<char>|
                text::words(line).len() >= 2 && addr_port(text::words(line)[1]) is Some,
        ).len(),
    decreases lines.len(),
{
    reveal(Seq::filter);
    if lines.len() > 0 {
        law_every_readable_line_counts(lines.drop_last(), proto);
    }
}

/// The first line of a table is its heading and stands for no port; every line behind it is
/// looked at.
pub proof fn law_heading_is_passed_over(content: Seq<char>, proto: Seq<char>)
    ensures
        text::lines(content).len() == 0 ==> table_entries(content, proto).len() == 0,
        text::lines(content).len() > 0 ==> table_entries(content, proto) == entries(
            text::lines(content).skip(1),
            proto,
        ),
{
}

/// A table that is missing has no ports; one that was read has those of its text.
pub proof fn law_missing_table_has_no_ports(content: Option<String>, proto: Seq<char>)
    ensures
        content is None ==> entries_if_read(content, proto).len() == 0,
        content matches Some(text) ==> entries_if_read(content, proto) == table_entries(
            text@,
            proto,
        ),
{
}

/// Of texts of ASCII only a port of which the address has eight characters must fall into pairs,
/// and eight characters of ASCII always do: a table of ASCII can be read.
pub proof fn law_table_of_ascii_can_be_read(word: Seq<char>)
    requires
        forall|i: int| 0 <= i < word.len() ==> (#[trigger] word[i]) as u32 <= 0x7f,
    ensures
        addr_port_is_whole(word),
{
    if word.contains(':') {
        text::lemma_find(word, |c: char| c == ':');
        let k = colon(word);
        let a = word.take(k);
        assert forall|i: int| 0 <= i < a.len() implies (#[trigger] a[i]) as u32 <= 0x7f by {
            assert(a[i] == word[i]);
        }
        text::law_ascii_takes_a_byte_each(a);
        if text::utf8_len(a) == 8 {
            lemma_ascii_falls_into_pairs(a);
        }
    }
}

proof fn lemma_ascii_falls_into_pairs(s: Seq<char>)
    requires
        forall|i: int| 0 <= i < s.len() ==> (#[trigger] s[i]) as u32 <= 0x7f,
        s.len() % 2 == 0,
    ensures
        falls_into_pairs(s),
    decreases s.len(),
{
    if s.len() > 0 {
        let rest = s.skip(2);
        assert forall|i: int| 0 <= i < rest.len() implies (#[trigger] rest[i]) as u32 <= 0x7f by {
            assert(rest[i] == s[i + 2]);
        }
        lemma_ascii_falls_into_pairs(rest);
        assert(s[0] as u32 <= 0x7f && s[1] as u32 <= 0x7f);
    }
}

/// Eight characters of ASCII of which two that belong together are no number stay as they are.
pub proof fn law_what_is_no_address_stays(hex: Seq<char>, i: int)
    requires
        hex.len() == 8,
        forall|j: int| 0 <= j < 8 ==> (#[trigger] hex[j]) as u32 <= 0x7f,
        0 <= i < 4,
        text::hex_u32(hex.subrange(2 * i, 2 * i + 2)) is None,
    ensures
        table_addr(hex) == hex,
{
    text::law_ascii_takes_a_byte_each(hex);
    let s2 = hex.skip(2);
    let s4 = s2.skip(2);
    let s6 = s4.skip(2);
    assert(hex[0] as u32 <= 0x7f && hex[2] as u32 <= 0x7f && hex[4] as u32 <= 0x7f && hex[6] as u32
        <= 0x7f);
    assert(s6.skip(2) =~= Seq::<char>::empty());
    assert(hex.take(2) =~= hex.subrange(0, 2));
    assert(s2.take(2) =~= hex.subrange(2, 4));
    assert(s4.take(2) =~= hex.subrange(4, 6));
    assert(s6.take(2) =~= hex.subrange(6, 8));
    let n = seq![
        text::hex_u32(hex.subrange(0, 2)),
        text::hex_u32(hex.subrange(2, 4)),
        text::hex_u32(hex.subrange(4, 6)),
        text::hex_u32(hex.subrange(6, 8)),
    ];
    assert(s2[0] == hex[2] && s4[0] == hex[4] && s6[0] == hex[6]);
    lemma_pair_of_ascii(s6);
    lemma_pair_of_ascii(s4);
    lemma_pair_of_ascii(s2);
    lemma_pair_of_ascii(hex);
    assert(pair_numbers(s6) =~= seq![n[3]]);
    assert(pair_numbers(s4) =~= seq![n[2], n[3]]);
    assert(pair_numbers(s2) =~= seq![n[1], n[2], n[3]]);
    assert(pair_numbers(hex) =~= n);
    assert(n[i] is None);
}

proof fn lemma_pair_of_ascii(s: Seq<char>)
    requires
        s.len() >= 2,
        s[0] as u32 <= 0x7f,
    ensures
        pair_numbers(s) == seq![text::hex_u32(s.take(2))] + pair_numbers(s.skip(2)),
{
}

/// A table has one entry for each line behind its heading whose second word reads as an address
/// and a port, whatever else stands in the line.
pub proof fn law_table_has_an_entry_for_each_readable_line(content: Seq<char>, proto: Seq<char>)
    requires
        text::lines(content).len() > 0,
    ensures
        table_entries(content, proto).len() == text::lines(content).skip(1).filter(
            |line: Seq<char>|
                text::words(line).len() >= 2 && addr_port(text::words(line)[1]) is Some,
        ).len(),
{
    law_every_readable_line_counts(text::lines(content).skip(1), proto);
}

/// A table can be read if the second word of each of its lines is of ASCII; its other words may
/// be anything.
pub proof fn law_only_second_words_must_be_whole(content: Seq<char>)
    requires
        forall|i: int, j: int|
            0 < i < text::lines(content).len() && text::words(text::lines(content)[i]).len() > 1
                && 0 <= j < text::words(text::lines(content)[i])[1].len() ==> (
            #[trigger] text::words(text::lines(content)[i])[1][j]) as u32 <= 0x7f,
    ensures
        table_is_whole(content),
{
    let rows = table_lines(content);
    assert forall|i: int| 0 <= i < rows.len() implies line_is_whole(#[trigger] rows[i]) by {
        assert(rows[i] == text::lines(content)[i + 1]);
        let cols = text::words(rows[i]);
        if cols.len() > 1 {
            let word = cols[1];
            assert forall|j: int| 0 <= j < word.len() implies (#[trigger] word[j]) as u32 <= 0x7f by {
                assert(text::words(text::lines(content)[i + 1])[1][j] as u32 <= 0x7f);
            }
            law_table_of_ascii_can_be_read(word);
        }
    }
}

/// A table that is missing can always be read, and one that is there if its text can.
pub proof fn law_missing_table_is_whole(content: Option<String>)
    ensures
        content is None ==> whole_if_read(content),
        content matches Some(text) ==> whole_if_read(content) == table_is_whole(text@),
{
}

/// Two pieces of text fall into pairs as both do: a character of two bytes is a pair, and so are
/// two of one byte each; one of one byte alone is none.
pub proof fn law_pairs_are_two_bytes(a: char, b: char, rest: Seq<char>)
    ensures
        falls_into_pairs(Seq::empty()),
        0x7f < a as u32 <= 0x7ff ==> falls_into_pairs(seq![a] + rest) == falls_into_pairs(rest),
        a as u32 <= 0x7f && b as u32 <= 0x7f ==> falls_into_pairs(seq![a, b] + rest)
            == falls_into_pairs(rest),
        a as u32 <= 0x7f ==> !falls_into_pairs(seq![a]),
        a as u32 > 0x7ff ==> !falls_into_pairs(seq![a] + rest),
        a as u32 <= 0x7f && b as u32 > 0x7f ==> !falls_into_pairs(seq![a, b] + rest),
{
    assert((seq![a] + rest).skip(1) =~= rest);
    assert((seq![a, b] + rest).skip(2) =~= rest);
    assert((seq![a] + rest)[0] == a);
    assert((seq![a, b] + rest)[0] == a);
    assert((seq![a, b] + rest)[1] == b);
}

/// The views of ports are as many as the ports, and each is that of its port.
pub proof fn law_ports_are_seen_one_by_one(ports: Seq<PortEntry>, i: int)
    requires
        0 <= i < ports.len(),
    ensures
        port_models(ports).len() == ports.len(),
        port_models(ports)[i] == ports[i]@,
{
}

} // verus!
