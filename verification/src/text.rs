//! Decimal numerals and the small pieces of text that addresses and messages are made of.
use vstd::prelude::*;

verus! {

/// The character that stands for the digit `d`.
pub open spec fn digit_char(d: int) -> char {
    (48 + d) as char
}

/// Whether `c` is one of the ten decimal digits.
pub open spec fn is_digit(c: char) -> bool {
    '0' <= c && c <= '9'
}

/// What the decimal digit `c` stands for.
pub open spec fn digit_value(c: char) -> int {
    c as int - 48
}

/// The decimal numeral of `n`, without leading zeros.
pub open spec fn decimal(n: nat) -> Seq<char>
    decreases n,
{
    if n < 10 {
        seq![digit_char(n as int)]
    } else {
        decimal(n / 10).push(digit_char((n % 10) as int))
    }
}

/// Whether `s` consists of decimal digits only.
pub open spec fn all_digits(s: Seq<char>) -> bool {
    forall|i: int| 0 <= i < s.len() ==> is_digit(#[trigger] s[i])
}

/// The number that a sequence of decimal digits stands for, leading zeros allowed.
pub open spec fn numeral_value(s: Seq<char>) -> int
    decreases s.len(),
{
    if s.len() == 0 {
        0
    } else {
        10 * numeral_value(s.drop_last()) + digit_value(s.last())
    }
}

/// Whether `s` is a run of digits that has no leading zero, or is a single digit.
pub open spec fn is_plain_numeral(s: Seq<char>) -> bool {
    &&& s.len() >= 1
    &&& all_digits(s)
    &&& s.len() == 1 || s[0] != '0'
}

/// A numeral without leading zeros is plain, and reading it gives the number back.
pub proof fn lemma_decimal_is_plain(n: nat)
    ensures
        is_plain_numeral(decimal(n)),
        numeral_value(decimal(n)) == n,
        n > 0 ==> decimal(n)[0] != '0',
    decreases n,
{
    if n < 10 {
        assert(decimal(n).drop_last() =~= Seq::<char>::empty());
        assert(numeral_value(Seq::<char>::empty()) == 0);
    } else {
        lemma_decimal_is_plain(n / 10);
        let head = decimal(n / 10);
        assert(decimal(n).drop_last() =~= head);
    }
}

/// Reading a run of digits gives a number that is not negative.
pub proof fn lemma_numeral_value_nonneg(s: Seq<char>)
    requires
        all_digits(s),
    ensures
        numeral_value(s) >= 0,
    decreases s.len(),
{
    if s.len() > 0 {
        assert(all_digits(s.drop_last()));
        lemma_numeral_value_nonneg(s.drop_last());
        assert(is_digit(s.last()));
    }
}

/// A plain numeral is the numeral of the number that it stands for.
pub proof fn lemma_plain_numeral_is_decimal(s: Seq<char>)
    requires
        is_plain_numeral(s),
    ensures
        s == decimal(numeral_value(s) as nat),
        s[0] != '0' ==> numeral_value(s) > 0,
        numeral_value(s) >= 0,
    decreases s.len(),
{
    lemma_numeral_value_nonneg(s);
    assert(is_digit(s.last()));
    if s.len() == 1 {
        assert(numeral_value(s.drop_last()) == 0);
        let v = numeral_value(s);
        assert(v < 10);
        assert(decimal(v as nat) =~= s);
    } else {
        let head = s.drop_last();
        assert(head[0] == s[0]);
        assert forall|i: int| 0 <= i < head.len() implies is_digit(#[trigger] head[i]) by {
            assert(head[i] == s[i]);
        }
        lemma_plain_numeral_is_decimal(head);
        let v = numeral_value(s);
        assert(v / 10 == numeral_value(head));
        assert(v >= 10);
        assert(decimal(v as nat) =~= head.push(s.last()));
        assert(head.push(s.last()) =~= s);
    }
}

/// The characters of `s`, in order.
pub fn chars_of(s: &str) -> (r: Vec<char>)
    ensures
        r@ == s@,
{
    let mut r: Vec<char> = Vec::new();
    for c in it: s.chars()
        invariant
            it.seq() == s@,
            r@ == s@.take(it.index() as int),
    {
        r.push(c);
    }
    assert(s@.take(s@.len() as int) =~= s@);
    r
}

/// Whether `a` and `b` are the same text.
pub fn same_text(a: &str, b: &str) -> (r: bool)
    ensures
        r == (a@ == b@),
{
    a.to_string() == b.to_string()
}

/// The text of the digit `d`.
fn digit_text(d: u8) -> (r: &'static str)
    requires
        d < 10,
    ensures
        r@ == seq![digit_char(d as int)],
{
    proof {
        reveal_strlit("0");
        reveal_strlit("1");
        reveal_strlit("2");
        reveal_strlit("3");
        reveal_strlit("4");
        reveal_strlit("5");
        reveal_strlit("6");
        reveal_strlit("7");
        reveal_strlit("8");
        reveal_strlit("9");
    }
    let r: &'static str = match d {
        0 => "0",
        1 => "1",
        2 => "2",
        3 => "3",
        4 => "4",
        5 => "5",
        6 => "6",
        7 => "7",
        8 => "8",
        _ => "9",
    };
    assert(r@ =~= seq![digit_char(d as int)]);
    r
}

/// Appends the decimal numeral of `n` to `out`.
pub fn push_decimal(out: &mut String, n: u64)
    ensures
        final(out)@ == old(out)@ + decimal(n as nat),
    decreases n,
{
    if n >= 10 {
        push_decimal(out, n / 10);
    }
    out.append(digit_text((n % 10) as u8));
    assert(out@ =~= old(out)@ + decimal(n as nat));
}

/// Two texts, one behind the other.
pub fn join2(a: &str, b: &str) -> (r: String)
    ensures
        r@ == a@ + b@,
{
    let mut r = String::new();
    r.append(a);
    r.append(b);
    assert(r@ =~= a@ + b@);
    r
}

/// Three texts, one behind the other.
pub fn join3(a: &str, b: &str, c: &str) -> (r: String)
    ensures
        r@ == a@ + b@ + c@,
{
    let mut r = join2(a, b);
    r.append(c);
    r
}

/// The place of the first character of `s` for which `p` holds, or the length of `s`.
pub open spec fn find(s: Seq<char>, p: spec_fn(char) -> bool) -> int
    decreases s.len(),
{
    if s.len() == 0 || p(s[0]) {
        0
    } else {
        1 + find(s.drop_first(), p)
    }
}

/// What marks the place that `find` gives.
pub proof fn lemma_find(s: Seq<char>, p: spec_fn(char) -> bool)
    ensures
        0 <= find(s, p) <= s.len(),
        forall|i: int| 0 <= i < find(s, p) ==> !p(#[trigger] s[i]),
        find(s, p) < s.len() ==> p(s[find(s, p)]),
    decreases s.len(),
{
    if s.len() > 0 && !p(s[0]) {
        lemma_find(s.drop_first(), p);
        assert forall|i: int| 0 <= i < find(s, p) implies !p(#[trigger] s[i]) by {
            if i > 0 {
                assert(s[i] == s.drop_first()[i - 1]);
            }
        }
    }
}

/// A place with that mark is the one that `find` gives.
pub proof fn lemma_find_is(s: Seq<char>, p: spec_fn(char) -> bool, n: int)
    requires
        0 <= n <= s.len(),
        forall|i: int| 0 <= i < n ==> !p(#[trigger] s[i]),
        n < s.len() ==> p(s[n]),
    ensures
        find(s, p) == n,
{
    lemma_find(s, p);
    let k = find(s, p);
    if k < n {
        assert(!p(s[k]));
    } else if n < k {
        assert(!p(s[n]));
    }
}

/// Whether `c` is a space in the sense of Unicode's `White_Space` property.
pub open spec fn is_white(c: char) -> bool {
    ||| '\u{9}' <= c <= '\u{d}'
    ||| c == '\u{20}'
    ||| c == '\u{85}'
    ||| c == '\u{a0}'
    ||| c == '\u{1680}'
    ||| '\u{2000}' <= c <= '\u{200a}'
    ||| c == '\u{2028}'
    ||| c == '\u{2029}'
    ||| c == '\u{202f}'
    ||| c == '\u{205f}'
    ||| c == '\u{3000}'
}

/// Whether `c` is a space in the sense of Unicode's `White_Space` property.
pub fn white(c: char) -> (r: bool)
    ensures
        r == is_white(c),
{
    let n = c as u32;
    (0x9 <= n && n <= 0xd) || n == 0x20 || n == 0x85 || n == 0xa0 || n == 0x1680 || (0x2000 <= n
        && n <= 0x200a) || n == 0x2028 || n == 0x2029 || n == 0x202f || n == 0x205f || n == 0x3000
}

/// The words of a text: what stands between spaces.
pub open spec fn words(s: Seq<char>) -> Seq<Seq<char>>
    decreases s.len(),
{
    let start = find(s, |c: char| !is_white(c));
    if start >= s.len() {
        Seq::empty()
    } else {
        let rest = s.skip(start);
        let n = find(rest, |c: char| is_white(c));
        if 0 < n <= rest.len() && 0 <= start {
            seq![rest.take(n)] + words(rest.skip(n))
        } else {
            Seq::empty()
        }
    }
}

/// The lines of a text. A line ends with a line feed, which may have a carriage return before
/// it; what follows the last line feed is a line too, unless it is empty.
pub open spec fn lines(s: Seq<char>) -> Seq<Seq<char>>
    decreases s.len(),
{
    if s.len() == 0 {
        Seq::empty()
    } else {
        let n = find(s, |c: char| c == '\n');
        if 0 <= n < s.len() {
            seq![without_return(s.take(n))] + lines(s.skip(n + 1))
        } else {
            seq![s]
        }
    }
}

/// A line without the carriage return at its end.
pub open spec fn without_return(s: Seq<char>) -> Seq<char> {
    if s.len() > 0 && s.last() == '\r' {
        s.drop_last()
    } else {
        s
    }
}

/// A text without the spaces at its two ends.
pub open spec fn trimmed(s: Seq<char>) -> Seq<char>
    decreases s.len(),
{
    if s.len() > 0 && is_white(s[0]) {
        trimmed(s.drop_first())
    } else if s.len() > 0 && is_white(s.last()) {
        trimmed(s.drop_last())
    } else {
        s
    }
}

/// The views of texts.
pub open spec fn texts(v: Seq<&str>) -> Seq<Seq<char>> {
    v.map_values(|t: &str| t@)
}

/// The words of a text.
pub fn split_words<'a>(s: &'a str) -> (r: Vec<&'a str>)
    ensures
        texts(r@) == words(s@),
{
    let cs = chars_of(s);
    let mut r: Vec<&'a str> = Vec::new();
    let mut pos: usize = 0;
    assert(s@.skip(0) =~= s@);
    assert(texts(r@) + words(s@) =~= words(s@));
    while pos < cs.len()
        invariant
            cs@ == s@,
            pos <= cs@.len(),
            texts(r@) + words(s@.skip(pos as int)) == words(s@),
        decreases cs@.len() - pos,
    {
        let ghost rest = s@.skip(pos as int);
        let ghost done = texts(r@);
        let mut start = pos;
        while start < cs.len() && white(cs[start])
            invariant
                cs@ == s@,
                pos <= start <= cs@.len(),
                forall|i: int| pos <= i < start ==> is_white(#[trigger] s@[i]),
            decreases cs@.len() - start,
        {
            start = start + 1;
        }
        proof {
            lemma_find_is(rest, |c: char| !is_white(c), start - pos);
        }
        if start == cs.len() {
            assert(words(rest) =~= Seq::<Seq<char>>::empty());
            assert(texts(r@) =~= words(s@));
            return r;
        }
        let mut end = start;
        while end < cs.len() && !white(cs[end])
            invariant
                cs@ == s@,
                start <= end <= cs@.len(),
                forall|i: int| start <= i < end ==> !is_white(#[trigger] s@[i]),
            decreases cs@.len() - end,
        {
            end = end + 1;
        }
        proof {
            let tail = rest.skip(start - pos);
            assert(tail =~= s@.skip(start as int));
            lemma_find_is(tail, |c: char| is_white(c), end - start);
            assert(!is_white(s@[start as int]));
            assert(tail.take(end - start) =~= s@.subrange(start as int, end as int));
            assert(tail.skip(end - start) =~= s@.skip(end as int));
        }
        let word = s.substring_char(start, end);
        r.push(word);
        proof {
            assert(texts(r@) =~= done.push(word@));
            assert(texts(r@) + words(s@.skip(end as int)) =~= done + (seq![word@] + words(
                s@.skip(end as int),
            )));
        }
        pos = end;
    }
    proof {
        let rest = s@.skip(pos as int);
        assert(rest.len() == 0);
        lemma_find(rest, |c: char| !is_white(c));
        assert(texts(r@) =~= words(s@));
    }
    r
}

/// The lines of a text.
pub fn split_lines<'a>(s: &'a str) -> (r: Vec<&'a str>)
    ensures
        texts(r@) == lines(s@),
{
    let cs = chars_of(s);
    let mut r: Vec<&'a str> = Vec::new();
    let mut pos: usize = 0;
    assert(s@.skip(0) =~= s@);
    assert(texts(r@) + lines(s@) =~= lines(s@));
    while pos < cs.len()
        invariant
            cs@ == s@,
            pos <= cs@.len(),
            texts(r@) + lines(s@.skip(pos as int)) == lines(s@),
        decreases cs@.len() - pos,
    {
        let ghost rest = s@.skip(pos as int);
        let ghost done = texts(r@);
        let mut end = pos;
        while end < cs.len() && cs[end] != '\n'
            invariant
                cs@ == s@,
                pos <= end <= cs@.len(),
                forall|i: int| pos <= i < end ==> #[trigger] s@[i] != '\n',
            decreases cs@.len() - end,
        {
            end = end + 1;
        }
        proof {
            lemma_find_is(rest, |c: char| c == '\n', end - pos);
        }
        if end == cs.len() {
            let line = s.substring_char(pos, end);
            r.push(line);
            proof {
                assert(line@ =~= rest);
                assert(texts(r@) =~= done.push(line@));
                assert(texts(r@) =~= done + seq![rest]);
            }
            return r;
        }
        let mut stop = end;
        if end > pos && cs[end - 1] == '\r' {
            stop = end - 1;
        }
        let line = s.substring_char(pos, stop);
        r.push(line);
        proof {
            assert(line@ =~= without_return(rest.take(end - pos)));
            assert(rest.skip(end - pos + 1) =~= s@.skip(end + 1));
            assert(texts(r@) =~= done.push(line@));
            assert(texts(r@) + lines(s@.skip(end + 1)) =~= done + (seq![line@] + lines(
                s@.skip(end + 1),
            )));
        }
        pos = end + 1;
    }
    proof {
        assert(s@.skip(pos as int) =~= Seq::<char>::empty());
        assert(texts(r@) =~= lines(s@));
    }
    r
}

/// A text cut in two at the first place where `sep` stands, which goes to neither part.
pub fn split_at_first<'a>(s: &'a str, sep: char) -> (r: Option<(&'a str, &'a str)>)
    ensures
        match r {
            Some((a, b)) => {
                let n = find(s@, |c: char| c == sep);
                &&& n < s@.len()
                &&& a@ == s@.take(n)
                &&& b@ == s@.skip(n + 1)
            },
            None => !s@.contains(sep),
        },
{
    let cs = chars_of(s);
    let mut i: usize = 0;
    while i < cs.len()
        invariant
            cs@ == s@,
            i <= cs@.len(),
            forall|j: int| 0 <= j < i ==> #[trigger] s@[j] != sep,
        decreases cs@.len() - i,
    {
        if cs[i] == sep {
            proof {
                lemma_find_is(s@, |c: char| c == sep, i as int);
            }
            return Some((s.substring_char(0, i), s.substring_char(i + 1, cs.len())));
        }
        i = i + 1;
    }
    None
}

/// A text without the spaces at its two ends.
pub fn trim<'a>(s: &'a str) -> (r: &'a str)
    ensures
        r@ == trimmed(s@),
{
    let cs = chars_of(s);
    let mut start: usize = 0;
    let mut end: usize = cs.len();
    assert(s@.subrange(0, s@.len() as int) =~= s@);
    while start < end && white(cs[start])
        invariant
            cs@ == s@,
            start <= end <= cs@.len(),
            trimmed(s@.subrange(start as int, end as int)) == trimmed(s@),
        decreases end - start,
    {
        assert(s@.subrange(start as int, end as int).drop_first() =~= s@.subrange(
            start + 1,
            end as int,
        ));
        start = start + 1;
    }
    while start < end && white(cs[end - 1])
        invariant
            cs@ == s@,
            start <= end <= cs@.len(),
            start < end ==> !is_white(s@[start as int]),
            trimmed(s@.subrange(start as int, end as int)) == trimmed(s@),
        decreases end - start,
    {
        assert(s@.subrange(start as int, end as int).drop_last() =~= s@.subrange(
            start as int,
            end - 1,
        ));
        end = end - 1;
    }
    s.substring_char(start, end)
}

/// How many bytes a character takes in UTF-8.
pub open spec fn utf8_width(c: char) -> nat {
    if c as u32 <= 0x7f {
        1
    } else if c as u32 <= 0x7ff {
        2
    } else if c as u32 <= 0xffff {
        3
    } else {
        4
    }
}

/// How many bytes a text takes in UTF-8.
pub open spec fn utf8_len(s: Seq<char>) -> nat
    decreases s.len(),
{
    if s.len() == 0 {
        0
    } else {
        utf8_len(s.drop_last()) + utf8_width(s.last())
    }
}

/// How many bytes a character takes in UTF-8.
pub fn char_width(c: char) -> (n: usize)
    ensures
        n == utf8_width(c),
{
    let n = c as u32;
    if n <= 0x7f {
        1
    } else if n <= 0x7ff {
        2
    } else if n <= 0xffff {
        3
    } else {
        4
    }
}

proof fn lemma_utf8_len_mono(s: Seq<char>, i: int)
    requires
        0 <= i <= s.len(),
    ensures
        utf8_len(s.take(i)) <= utf8_len(s),
    decreases s.len() - i,
{
    if i < s.len() {
        lemma_utf8_len_mono(s, i + 1);
        assert(s.take(i + 1).drop_last() =~= s.take(i));
    } else {
        assert(s.take(i) =~= s);
    }
}

/// Whether a text takes exactly `n` bytes in UTF-8.
pub fn has_utf8_len(cs: &Vec<char>, n: usize) -> (r: bool)
    requires
        n < 0x1000_0000,
    ensures
        r == (utf8_len(cs@) == n),
{
    let mut sum: usize = 0;
    let mut i: usize = 0;
    while i < cs.len()
        invariant
            i <= cs@.len(),
            sum == utf8_len(cs@.take(i as int)),
            sum <= n < 0x1000_0000,
        decreases cs@.len() - i,
    {
        sum = sum + char_width(cs[i]);
        proof {
            assert(cs@.take(i + 1).drop_last() =~= cs@.take(i as int));
            lemma_utf8_len_mono(cs@, i + 1);
        }
        i = i + 1;
        if sum > n {
            return false;
        }
    }
    assert(cs@.take(i as int) =~= cs@);
    sum == n
}

/// The value of a hexadecimal digit, in either case; no digit has the value 16.
pub open spec fn hex_value(c: char) -> int {
    if '0' <= c <= '9' {
        c as int - '0' as int
    } else if 'a' <= c <= 'f' {
        c as int - 'a' as int + 10
    } else if 'A' <= c <= 'F' {
        c as int - 'A' as int + 10
    } else {
        16
    }
}

/// Whether every character is a hexadecimal digit.
pub open spec fn all_hex(s: Seq<char>) -> bool {
    forall|i: int| 0 <= i < s.len() ==> hex_value(#[trigger] s[i]) < 16
}

/// The number that hexadecimal digits write.
pub open spec fn hex_number(s: Seq<char>) -> int
    decreases s.len(),
{
    if s.len() == 0 {
        0
    } else {
        hex_number(s.drop_last()) * 16 + hex_value(s.last())
    }
}

/// A text without one plus sign at its start.
pub open spec fn unsigned(s: Seq<char>) -> Seq<char> {
    if s.len() > 0 && s[0] == '+' {
        s.skip(1)
    } else {
        s
    }
}

/// The 32-bit number that a text writes in hexadecimal, if it does: digits of either case, at
/// least one of them, after a plus sign if there is one.
pub open spec fn hex_u32(s: Seq<char>) -> Option<int> {
    let digits = unsigned(s);
    if digits.len() > 0 && all_hex(digits) && hex_number(digits) < 0x1_0000_0000 {
        Some(hex_number(digits))
    } else {
        None
    }
}

proof fn lemma_hex_number_mono(s: Seq<char>, i: int)
    requires
        0 <= i <= s.len(),
        all_hex(s),
    ensures
        0 <= hex_number(s.take(i)) <= hex_number(s),
    decreases s.len() - i,
{
    if i < s.len() {
        lemma_hex_number_mono(s, i + 1);
        assert(s.take(i + 1).drop_last() =~= s.take(i));
        lemma_hex_number_nonneg(s.take(i));
        assert(s.take(i + 1).last() == s[i]);
    } else {
        assert(s.take(i) =~= s);
        lemma_hex_number_nonneg(s);
    }
}

proof fn lemma_hex_number_nonneg(s: Seq<char>)
    ensures
        0 <= hex_number(s),
    decreases s.len(),
{
    if s.len() > 0 {
        lemma_hex_number_nonneg(s.drop_last());
    }
}

fn hex_digit(c: char) -> (d: u32)
    ensures
        d == hex_value(c),
        d <= 16,
{
    let n = c as u32;
    if 0x30 <= n && n <= 0x39 {
        n - 0x30
    } else if 0x61 <= n && n <= 0x66 {
        n - 0x61 + 10
    } else if 0x41 <= n && n <= 0x46 {
        n - 0x41 + 10
    } else {
        16
    }
}

/// Reads a 32-bit number from hexadecimal digits.
pub fn parse_hex_u32(cs: &[char]) -> (r: Option<u32>)
    ensures
        match r {
            Some(v) => hex_u32(cs@) == Some(v as int),
            None => hex_u32(cs@) is None,
        },
{
    let mut i: usize = 0;
    if cs.len() > 0 && cs[0] == '+' {
        i = 1;
    }
    let ghost from = i as int;
    let ghost digits = unsigned(cs@);
    assert(digits =~= cs@.skip(from));
    if i == cs.len() {
        return None;
    }
    let mut v: u64 = 0;
    assert(digits.take(0) =~= Seq::<char>::empty());
    while i < cs.len()
        invariant
            0 <= from <= i <= cs@.len(),
            from < cs@.len(),
            digits == cs@.skip(from),
            digits == unsigned(cs@),
            v == hex_number(digits.take(i - from)),
            v < 0x1_0000_0000,
            forall|j: int| 0 <= j < i - from ==> hex_value(#[trigger] digits[j]) < 16,
        decreases cs@.len() - i,
    {
        let d = hex_digit(cs[i]);
        assert(digits[i - from] == cs@[i as int]);
        if d == 16 {
            return None;
        }
        v = v * 16 + d as u64;
        proof {
            assert(digits.take(i - from + 1).drop_last() =~= digits.take(i - from));
        }
        i = i + 1;
        if v >= 0x1_0000_0000 {
            proof {
                if all_hex(digits) {
                    lemma_hex_number_mono(digits, i - from);
                }
            }
            return None;
        }
    }
    assert(digits.take(i - from) =~= digits);
    Some(v as u32)
}

/// What `str::to_lowercase` makes of a text that is not all ASCII.
pub uninterp spec fn lowercase(s: Seq<char>) -> Seq<char>;

/// Whether every character is one of ASCII.
pub open spec fn all_ascii(s: Seq<char>) -> bool {
    forall|i: int| 0 <= i < s.len() ==> (#[trigger] s[i]) as u32 <= 0x7f
}

/// The lower-case form of a character of ASCII.
pub open spec fn ascii_lower(c: char) -> char {
    if 'A' <= c <= 'Z' {
        (c as int + 32) as char
    } else {
        c
    }
}

/// The lower-case form of a text.
pub open spec fn lower(s: Seq<char>) -> Seq<char> {
    if all_ascii(s) {
        s.map_values(|c: char| ascii_lower(c))
    } else {
        lowercase(s)
    }
}

/// `str::to_lowercase`: the lower-case form of a text, which depends on nothing but the text. In
/// a text of ASCII the letters from A to Z become those from a to z, and nothing else changes.
/// Which form other texts have is not stated.
#[verifier::external_body]
pub(crate) fn to_lowercase(s: &str) -> (r: String)
    ensures
        all_ascii(s@) ==> r@ == s@.map_values(|c: char| ascii_lower(c)),
        !all_ascii(s@) ==> r@ == lowercase(s@),
{
    s.to_lowercase()
}

/// Whether `a` comes before `b` in the order of texts, character by character.
pub open spec fn comes_before(a: Seq<char>, b: Seq<char>) -> bool
    decreases a.len(),
{
    if b.len() == 0 {
        false
    } else if a.len() == 0 {
        true
    } else if a[0] != b[0] {
        a[0] < b[0]
    } else {
        comes_before(a.drop_first(), b.drop_first())
    }
}

/// Of two texts one comes before the other, unless they are the same.
pub proof fn lemma_order_total(a: Seq<char>, b: Seq<char>)
    ensures
        comes_before(a, b) ==> !comes_before(b, a) && a != b,
        a == b || comes_before(a, b) || comes_before(b, a),
    decreases a.len(),
{
    if a.len() > 0 && b.len() > 0 && a[0] == b[0] {
        lemma_order_total(a.drop_first(), b.drop_first());
        if a.drop_first() == b.drop_first() {
            assert(a =~= seq![a[0]] + a.drop_first());
            assert(b =~= seq![b[0]] + b.drop_first());
        }
    } else if a.len() == 0 && b.len() == 0 {
        assert(a =~= b);
    }
}

/// What comes before a text comes before all that it comes before.
pub proof fn lemma_order_transitive(a: Seq<char>, b: Seq<char>, c: Seq<char>)
    requires
        comes_before(a, b),
        comes_before(b, c),
    ensures
        comes_before(a, c),
    decreases a.len(),
{
    if a.len() > 0 && a[0] == b[0] && b[0] == c[0] {
        lemma_order_transitive(a.drop_first(), b.drop_first(), c.drop_first());
    }
}

/// Whether `a` comes before `b` in the order of texts.
pub fn less(a: &str, b: &str) -> (r: bool)
    ensures
        r == comes_before(a@, b@),
{
    let x = chars_of(a);
    let y = chars_of(b);
    let mut i: usize = 0;
    assert(a@.skip(0) =~= a@);
    assert(b@.skip(0) =~= b@);
    while i < x.len() && i < y.len() && x[i] == y[i]
        invariant
            x@ == a@,
            y@ == b@,
            i <= x@.len(),
            i <= y@.len(),
            comes_before(a@.skip(i as int), b@.skip(i as int)) == comes_before(a@, b@),
        decreases x@.len() - i,
    {
        assert(a@.skip(i as int).drop_first() =~= a@.skip(i + 1));
        assert(b@.skip(i as int).drop_first() =~= b@.skip(i + 1));
        i = i + 1;
    }
    if i == y.len() {
        false
    } else if i == x.len() {
        true
    } else {
        assert(a@.skip(i as int)[0] == x@[i as int]);
        assert(b@.skip(i as int)[0] == y@[i as int]);
        x[i] < y[i]
    }
}

/// Whether `s` begins with `prefix`.
pub open spec fn begins_with(s: Seq<char>, prefix: Seq<char>) -> bool {
    prefix.len() <= s.len() && s.take(prefix.len() as int) == prefix
}

/// Whether `s` begins with `prefix`.
pub fn starts_with(s: &str, prefix: &str) -> (r: bool)
    ensures
        r == begins_with(s@, prefix@),
{
    let x = chars_of(s);
    let y = chars_of(prefix);
    if x.len() < y.len() {
        return false;
    }
    let mut i: usize = 0;
    while i < y.len()
        invariant
            x@ == s@,
            y@ == prefix@,
            i <= y@.len() <= x@.len(),
            forall|j: int| 0 <= j < i ==> #[trigger] x@[j] == y@[j],
        decreases y@.len() - i,
    {
        if x[i] != y[i] {
            assert(s@.take(prefix@.len() as int)[i as int] != prefix@[i as int]);
            return false;
        }
        i = i + 1;
    }
    assert(s@.take(prefix@.len() as int) =~= prefix@);
    true
}

/// The decimal form of a number that may be negative.
pub open spec fn signed_decimal(n: int) -> Seq<char> {
    if n < 0 {
        "-"@ + decimal((-n) as nat)
    } else {
        decimal(n as nat)
    }
}

/// Appends the decimal form of a number that may be negative.
pub fn push_signed(out: &mut String, n: i32)
    ensures
        final(out)@ == old(out)@ + signed_decimal(n as int),
{
    if n < 0 {
        out.append("-");
        push_decimal(out, (-(n as i64)) as u64);
        assert(out@ =~= old(out)@ + signed_decimal(n as int));
    } else {
        push_decimal(out, n as u64);
    }
}

/// The numeral of a number of more than one digit is that of the number without its last digit,
/// and then the last digit.
pub proof fn law_numeral_digit_by_digit(n: nat, d: nat)
    requires
        d < 10,
    ensures
        decimal(d) == seq![(48 + d) as char],
        n > 0 ==> decimal(10 * n + d) == decimal(n).push((48 + d) as char),
{
    assert((10 * n + d) / 10 == n);
    assert((10 * n + d) % 10 == d);
}

/// A digit behind a numeral counts once, and what stood before it ten times.
pub proof fn law_numeral_reads_by_place(s: Seq<char>, c: char)
    ensures
        numeral_value(Seq::empty()) == 0,
        numeral_value(s.push(c)) == 10 * numeral_value(s) + (c as int - 48),
{
    assert(s.push(c).drop_last() =~= s);
}

/// Among the characters of ASCII, the spaces are the five from the tabulator to the carriage
/// return, and the blank.
pub proof fn law_spaces_of_ascii(c: char)
    requires
        c as u32 <= 0x7f,
    ensures
        is_white(c) <==> 9 <= c as u32 <= 13 || c as u32 == 32,
{
}

/// A text without spaces is one word, unless it is empty.
pub proof fn law_text_without_spaces_is_a_word(s: Seq<char>)
    requires
        forall|i: int| 0 <= i < s.len() ==> !is_white(#[trigger] s[i]),
    ensures
        s.len() == 0 ==> words(s) == Seq::<Seq<char>>::empty(),
        s.len() > 0 ==> words(s) == seq![s],
{
    let black = |c: char| !is_white(c);
    let white = |c: char| is_white(c);
    lemma_find(s, black);
    lemma_find(s, white);
    if s.len() > 0 {
        assert(find(s, black) == 0);
        assert(s.skip(0) =~= s);
        let n = find(s, white);
        if n < s.len() {
            assert(white(s[n]));
        }
        assert(s.take(n) =~= s);
        assert(s.skip(n) =~= Seq::<char>::empty());
        lemma_find(Seq::<char>::empty(), black);
        assert(words(Seq::<char>::empty()) =~= Seq::<Seq<char>>::empty());
        assert(words(s) =~= seq![s]);
    }
}

/// Where a text has a space, its words are those before the space, and then those behind it.
pub proof fn law_space_parts_words(a: Seq<char>, space: char, b: Seq<char>)
    requires
        is_white(space),
    ensures
        words(a.push(space) + b) == words(a) + words(b),
    decreases a.len(),
{
    let black = |c: char| !is_white(c);
    let white = |c: char| is_white(c);
    let s = a.push(space) + b;
    lemma_find(a, black);
    lemma_find(b, black);
    lemma_find(s, black);
    let start = find(a, black);
    if start < a.len() {
        assert(black(a[start]));
        assert forall|i: int| 0 <= i < start implies !black(#[trigger] s[i]) by {
            assert(s[i] == a[i]);
        }
        assert(s[start] == a[start]);
        lemma_find_is(s, black, start);
        let ra = a.skip(start);
        let rs = s.skip(start);
        assert(rs =~= ra.push(space) + b);
        lemma_find(ra, white);
        lemma_find(rs, white);
        let n = find(ra, white);
        assert forall|i: int| 0 <= i < n implies !white(#[trigger] rs[i]) by {
            assert(rs[i] == ra[i]);
        }
        if n < ra.len() {
            assert(rs[n] == ra[n]);
        } else {
            assert(rs[n] == space);
        }
        lemma_find_is(rs, white, n);
        if n == 0 {
            assert(ra[0] == a[start]);
            assert(white(ra[0]));
        }
        assert(rs.take(n) =~= ra.take(n));
        assert(rs.skip(n) =~= ra.skip(n).push(space) + b);
        law_space_parts_words(ra.skip(n), space, b);
        assert(words(s) =~= words(a) + words(b));
    } else {
        // Nothing but spaces up to where `b` begins.
        assert forall|i: int| 0 <= i < a.len() implies !black(#[trigger] a[i]) by {}
        let at = find(b, black);
        let m: int = a.len() + 1 + at;
        assert forall|i: int| 0 <= i < m implies !black(#[trigger] s[i]) by {
            if i < a.len() {
                assert(s[i] == a[i]);
            } else if i > a.len() {
                assert(s[i] == b[i - a.len() - 1]);
            }
        }
        if at < b.len() {
            assert(s[m] == b[at]);
            assert(black(s[m]));
        }
        lemma_find_is(s, black, m);
        assert(words(a) =~= Seq::<Seq<char>>::empty());
        if at < b.len() {
            assert(s.skip(m) =~= b.skip(at));
        }
        assert(words(s) =~= words(b));
        assert(words(a) + words(b) =~= words(b));
    }
}

/// A text without a line feed is one line, unless it is empty.
pub proof fn law_text_without_feeds_is_a_line(s: Seq<char>)
    requires
        forall|i: int| 0 <= i < s.len() ==> #[trigger] s[i] != '\n',
    ensures
        s.len() == 0 ==> lines(s) == Seq::<Seq<char>>::empty(),
        s.len() > 0 ==> lines(s) == seq![s],
{
    lemma_find(s, |c: char| c == '\n');
}

/// A line feed ends a line: what stands before it is the first line, without a carriage return
/// at its end, and the others are those behind it.
pub proof fn law_feed_ends_a_line(a: Seq<char>, b: Seq<char>)
    requires
        forall|i: int| 0 <= i < a.len() ==> #[trigger] a[i] != '\n',
    ensures
        a.len() > 0 && a.last() == '\r' ==> lines(a.push('\n') + b) == seq![a.drop_last()] + lines(
            b,
        ),
        a.len() == 0 || a.last() != '\r' ==> lines(a.push('\n') + b) == seq![a] + lines(b),
{
    let s = a.push('\n') + b;
    let feed = |c: char| c == '\n';
    assert forall|i: int| 0 <= i < a.len() implies !feed(#[trigger] s[i]) by {
        assert(s[i] == a[i]);
    }
    assert(s[a.len() as int] == '\n');
    lemma_find_is(s, feed, a.len() as int);
    assert(s.take(a.len() as int) =~= a);
    assert(s.skip(a.len() as int + 1) =~= b);
}

/// Trimming takes spaces away from the two ends, all of them, and nothing else.
pub proof fn law_trimming_takes_spaces_at_the_ends(s: Seq<char>) -> (at: (int, int))
    ensures
        0 <= at.0 <= at.1 <= s.len(),
        trimmed(s) == s.subrange(at.0, at.1),
        forall|i: int| 0 <= i < at.0 ==> is_white(#[trigger] s[i]),
        forall|i: int| at.1 <= i < s.len() ==> is_white(#[trigger] s[i]),
        trimmed(s).len() > 0 ==> !is_white(trimmed(s)[0]) && !is_white(trimmed(s).last()),
    decreases s.len(),
{
    if s.len() > 0 && is_white(s[0]) {
        let t = s.drop_first();
        let (a, b) = law_trimming_takes_spaces_at_the_ends(t);
        assert(t.subrange(a, b) =~= s.subrange(a + 1, b + 1));
        assert forall|i: int| 0 <= i < a + 1 implies is_white(#[trigger] s[i]) by {
            if i > 0 {
                assert(t[i - 1] == s[i]);
            }
        }
        assert forall|i: int| b + 1 <= i < s.len() implies is_white(#[trigger] s[i]) by {
            assert(t[i - 1] == s[i]);
        }
        (a + 1, b + 1)
    } else if s.len() > 0 && is_white(s.last()) {
        let t = s.drop_last();
        let (a, b) = law_trimming_takes_spaces_at_the_ends(t);
        assert(t.subrange(a, b) =~= s.subrange(a, b));
        assert forall|i: int| 0 <= i < a implies is_white(#[trigger] s[i]) by {
            assert(t[i] == s[i]);
        }
        assert forall|i: int| b <= i < s.len() implies is_white(#[trigger] s[i]) by {
            if i < t.len() {
                assert(t[i] == s[i]);
            }
        }
        (a, b)
    } else {
        assert(s.subrange(0, s.len() as int) =~= s);
        (0, s.len() as int)
    }
}

/// A text of ASCII takes as many bytes as it has characters.
pub proof fn law_ascii_takes_a_byte_each(s: Seq<char>)
    requires
        forall|i: int| 0 <= i < s.len() ==> (#[trigger] s[i]) as u32 <= 0x7f,
    ensures
        utf8_len(s) == s.len(),
    decreases s.len(),
{
    if s.len() > 0 {
        law_ascii_takes_a_byte_each(s.drop_last());
    }
}

/// Texts behind each other take as many bytes as both; a character takes one byte, two, three or
/// four, by how large its number is.
pub proof fn law_bytes_add_up(s: Seq<char>, c: char)
    ensures
        utf8_len(Seq::empty()) == 0,
        utf8_len(s.push(c)) == utf8_len(s) + if c as u32 <= 0x7f {
            1int
        } else if c as u32 <= 0x7ff {
            2
        } else if c as u32 <= 0xffff {
            3
        } else {
            4
        },
{
    assert(s.push(c).drop_last() =~= s);
}

/// Whether a character is a hexadecimal digit, of either case, for the number `v`.
pub open spec fn is_hex_digit(c: char, v: int) -> bool {
    ||| 0 <= v <= 9 && c as u32 == 48 + v
    ||| 10 <= v <= 15 && c as u32 == 55 + v
    ||| 10 <= v <= 15 && c as u32 == 87 + v
}

/// A hexadecimal numeral reads by place: one digit stands for itself, and a digit behind a
/// numeral counts once, and what stood before it sixteen times, as long as 32 bits can hold it.
/// One plus sign in front of a numeral changes nothing.
pub proof fn law_hex_reads_by_place(s: Seq<char>, c: char, v: int)
    requires
        is_hex_digit(c, v),
    ensures
        hex_u32(seq![c]) == Some(v),
        s.len() > 0 && hex_u32(s) is Some && 16 * hex_u32(s).unwrap() + v < 0x1_0000_0000
            ==> hex_u32(s.push(c)) == Some(16 * hex_u32(s).unwrap() + v),
        s.len() > 0 && hex_u32(s) is Some && 16 * hex_u32(s).unwrap() + v >= 0x1_0000_0000
            ==> hex_u32(s.push(c)) is None,
        s.len() > 0 && s[0] != '+' ==> hex_u32(seq!['+'] + s) == hex_u32(s),
{
    assert(hex_value(c) == v);
    assert(unsigned(seq![c]) =~= seq![c]);
    assert(seq![c].drop_last() =~= Seq::<char>::empty());
    assert(hex_number(Seq::<char>::empty()) == 0);
    let d = unsigned(s);
    if s.len() > 0 && hex_u32(s) is Some {
        assert(unsigned(s.push(c)) =~= d.push(c));
        assert(d.push(c).drop_last() =~= d);
        assert forall|i: int| 0 <= i < d.push(c).len() implies hex_value(
            #[trigger] d.push(c)[i],
        ) < 16 by {
            if i < d.len() {
                assert(d.push(c)[i] == d[i]);
            }
        }
    }
    if s.len() > 0 && s[0] != '+' {
        assert((seq!['+'] + s).skip(1) =~= s);
    }
}

/// A text writes no number in hexadecimal if it is empty, if it is a plus sign alone, or if it
/// holds anything but digits behind its first character.
pub proof fn law_no_number_without_digits(s: Seq<char>, i: int)
    ensures
        hex_u32(Seq::empty()) is None,
        hex_u32(seq!['+']) is None,
        0 <= i < s.len() && (i > 0 || s[0] != '+') && (forall|v: int| !is_hex_digit(s[i], v))
            ==> hex_u32(s) is None,
{
    assert(unsigned(seq!['+']) =~= Seq::<char>::empty());
    if 0 <= i < s.len() && (i > 0 || s[0] != '+') && (forall|v: int| !is_hex_digit(s[i], v)) {
        let d = unsigned(s);
        let j = if s[0] == '+' {
            i - 1
        } else {
            i
        };
        assert(d[j] == s[i]);
        if hex_value(s[i]) < 16 {
            assert(is_hex_digit(s[i], hex_value(s[i])));
        }
    }
}

/// In lower case the letters of ASCII are those 32 further on, and nothing else changes.
pub proof fn law_lower_case_of_ascii(s: Seq<char>)
    requires
        forall|i: int| 0 <= i < s.len() ==> (#[trigger] s[i]) as u32 <= 0x7f,
    ensures
        lower(s).len() == s.len(),
        forall|i: int|
            0 <= i < s.len() ==> (#[trigger] lower(s)[i]) as int == if 65 <= s[i] as int <= 90 {
                s[i] as int + 32
            } else {
                s[i] as int
            },
{
}

/// The first character in which two texts differ decides which comes first; where one goes on
/// after the other has ended, the shorter does.
pub proof fn law_first_difference_decides(common: Seq<char>, a: Seq<char>, b: Seq<char>)
    ensures
        a.len() > 0 && b.len() > 0 && a[0] != b[0] ==> (comes_before(common + a, common + b)
            <==> (a[0] as int) < (b[0] as int)),
        a.len() == 0 && b.len() > 0 ==> comes_before(common + a, common + b),
        b.len() == 0 ==> !comes_before(common + a, common + b),
    decreases common.len(),
{
    if common.len() == 0 {
        assert(common + a =~= a);
        assert(common + b =~= b);
    } else {
        let rest = common.drop_first();
        law_first_difference_decides(rest, a, b);
        assert((common + a).drop_first() =~= rest + a);
        assert((common + b).drop_first() =~= rest + b);
    }
}

/// A number below zero is written as a minus sign and its size.
pub proof fn law_minus_stands_before_the_size(n: nat)
    ensures
        signed_decimal(n as int) == decimal(n),
        n > 0 ==> signed_decimal(-(n as int)) == "-"@ + decimal(n),
{
}

/// A text begins with each of its first parts, and with nothing else.
pub proof fn law_text_begins_with_its_first_part(a: Seq<char>, b: Seq<char>, s: Seq<char>)
    ensures
        begins_with(a + b, a),
        begins_with(s, a) ==> s == a + s.skip(a.len() as int),
        a.len() == b.len() && begins_with(s, a) && begins_with(s, b) ==> a == b,
{
    assert((a + b).take(a.len() as int) =~= a);
    if begins_with(s, a) {
        assert(s =~= a + s.skip(a.len() as int));
    }
}

/// Beyond ASCII the spaces are the next line, the blanks that do not break, those of the writing
/// of old Irish and of Chinese, those of given widths, and the separators of lines and
/// paragraphs; there are no others.
pub proof fn law_spaces_beyond_ascii(c: char)
    requires
        c as u32 > 0x7f,
    ensures
        is_white(c) <==> c as int == 133 || c as int == 160 || c as int == 5760 || 8192 <= c as int
            <= 8202 || c as int == 8232 || c as int == 8233 || c as int == 8239 || c as int == 8287
            || c as int == 12288,
{
}

/// The views of texts are as many as the texts, and each is that of its text.
pub proof fn law_texts_are_seen_as_they_are(v: Seq<&str>, i: int)
    requires
        0 <= i < v.len(),
    ensures
        texts(v).len() == v.len(),
        texts(v)[i] == v[i]@,
{
}

} // verus!
