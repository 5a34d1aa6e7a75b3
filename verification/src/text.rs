//! Text: decimal numbers, dotted quads, and white space at the ends of input.

use vstd::prelude::*;
use vstd::string::*;

verus! {

/// The texts of a sequence of strings.
pub open spec fn texts(strings: Seq<String>) -> Seq<Seq<char>> {
    strings.map_values(|s: String| s@)
}

/// The character of a decimal digit.
pub open spec fn digit_char(d: nat) -> char
    recommends
        d < 10,
{
    ('0' as nat + d) as char
}

/// The decimal notation of `n`, without leading zeros.
pub open spec fn decimal(n: nat) -> Seq<char>
    decreases n,
{
    if n < 10 {
        seq![digit_char(n)]
    } else {
        decimal(n / 10).push(digit_char(n % 10))
    }
}

/// The text of one decimal digit.
fn digit_str(d: u8) -> (s: &'static str)
    requires
        d < 10,
    ensures
        s@ == seq![digit_char(d as nat)],
{
    proof {
        reveal_strlit("0");
        reveal_strlit("1");
        reveal_strlit("2");
        reveal_strlit("3");
        reveal_strlit("4");
        reveal_strlit("5");
        reveal_strlit("6");
        reveal_strlit("7");
        reveal_strlit("8");
        reveal_strlit("9");
    }
    match d {
        0 => "0",
        1 => "1",
        2 => "2",
        3 => "3",
        4 => "4",
        5 => "5",
        6 => "6",
        7 => "7",
        8 => "8",
        _ => "9",
    }
}

/// Appends the decimal notation of `n` to `s`.
pub fn push_decimal(s: &mut String, n: u128)
    ensures
        final(s)@ == old(s)@ + decimal(n as nat),
    decreases n,
{
    if n >= 10 {
        push_decimal(s, n / 10);
    }
    let digit: u8 = (n % 10) as u8;
    s.append(digit_str(digit));
}

/// The text `a.b.c.d` of an IPv4 address.
pub open spec fn dotted(octets: Seq<u8>) -> Seq<char>
    recommends
        octets.len() == 4,
{
    decimal(octets[0] as nat) + seq!['.'] + decimal(octets[1] as nat) + seq!['.'] + decimal(
        octets[2] as nat,
    ) + seq!['.'] + decimal(octets[3] as nat)
}

/// Writes an IPv4 address in the usual notation.
pub fn dotted_quad(a: u8, b: u8, c: u8, d: u8) -> (s: String)
    ensures
        s@ == dotted(seq![a, b, c, d]),
{
    proof {
        reveal_strlit(".");
        assert("."@ =~= seq!['.']);
    }
    let mut s = String::new();
    push_decimal(&mut s, a as u128);
    s.append(".");
    push_decimal(&mut s, b as u128);
    s.append(".");
    push_decimal(&mut s, c as u128);
    s.append(".");
    push_decimal(&mut s, d as u128);
    assert(s@ =~= dotted(seq![a, b, c, d]));
    s
}

/// Whether `s` ends with `suffix`.
pub open spec fn ends_with(s: Seq<char>, suffix: Seq<char>) -> bool {
    s.len() >= suffix.len() && s.subrange(s.len() - suffix.len(), s.len() as int) == suffix
}

/// The code points with the Unicode property `White_Space`.
pub open spec fn is_white_space(c: char) -> bool {
    let u = c as u32;
    ||| 0x9 <= u <= 0xd
    ||| u == 0x20
    ||| u == 0x85
    ||| u == 0xa0
    ||| u == 0x1680
    ||| 0x2000 <= u <= 0x200a
    ||| u == 0x2028
    ||| u == 0x2029
    ||| u == 0x202f
    ||| u == 0x205f
    ||| u == 0x3000
}

/// `s` without the white space at its two ends.
pub open spec fn trimmed(s: Seq<char>) -> Seq<char>
    decreases s.len(),
{
    if s.len() == 0 {
        s
    } else if is_white_space(s.first()) {
        trimmed(s.drop_first())
    } else if is_white_space(s.last()) {
        trimmed(s.drop_last())
    } else {
        s
    }
}

/// `str::trim` of the standard library: the slice of `s` without its leading and
/// trailing characters of the Unicode property `White_Space`.
#[verifier::external_body]
pub(crate) fn trim(s: &str) -> (r: &str)
    ensures
        r@ == trimmed(s@),
{
    s.trim()
}

/// Whether `s` is white space but for what stands from position `i` to before
/// position `j`.
pub open spec fn blank_outside(s: Seq<char>, i: int, j: int) -> bool {
    &&& 0 <= i <= j <= s.len()
    &&& forall|k: int| 0 <= k < i || j <= k < s.len() ==> #[trigger] is_white_space(s[k])
}

/// White space in front of a text makes for one more blank position.
proof fn lemma_blank_in_front(s: Seq<char>, i: int, j: int)
    requires
        s.len() > 0,
        is_white_space(s[0]),
        blank_outside(s.drop_first(), i, j),
    ensures
        blank_outside(s, i + 1, j + 1),
        s.subrange(i + 1, j + 1) == s.drop_first().subrange(i, j),
{
    let t = s.drop_first();
    assert forall|k: int| 0 <= k < i + 1 || j + 1 <= k < s.len() implies #[trigger] is_white_space(
        s[k],
    ) by {
        if k > 0 {
            assert(is_white_space(t[k - 1]));
        }
    }
    assert(s.subrange(i + 1, j + 1) =~= t.subrange(i, j));
}

/// White space behind a text makes for one more blank position.
proof fn lemma_blank_behind(s: Seq<char>, i: int, j: int)
    requires
        s.len() > 0,
        is_white_space(s[s.len() - 1]),
        blank_outside(s.drop_last(), i, j),
    ensures
        blank_outside(s, i, j),
        s.subrange(i, j) == s.drop_last().subrange(i, j),
{
    let t = s.drop_last();
    assert forall|k: int| 0 <= k < i || j <= k < s.len() implies #[trigger] is_white_space(
        s[k],
    ) by {
        if k < s.len() - 1 {
            assert(is_white_space(t[k]));
        }
    }
    assert(s.subrange(i, j) =~= t.subrange(i, j));
}

/// Trimmed text has no white space at either end. It is a contiguous part of the text
/// that it came from, and what stands before and behind that part is white space.
pub proof fn law_trimmed(s: Seq<char>)
    ensures
        trimmed(s).len() > 0 ==> !is_white_space(trimmed(s)[0]) && !is_white_space(
            trimmed(s)[trimmed(s).len() - 1],
        ),
        exists|i: int, j: int| #[trigger]
            blank_outside(s, i, j) && trimmed(s) == s.subrange(i, j),
    decreases s.len(),
{
    if s.len() == 0 || (!is_white_space(s.first()) && !is_white_space(s.last())) {
        assert(s.subrange(0, s.len() as int) =~= s);
        assert(blank_outside(s, 0, s.len() as int));
    } else if is_white_space(s.first()) {
        let t = s.drop_first();
        law_trimmed(t);
        let (i, j) = choose|i: int, j: int| #[trigger]
            blank_outside(t, i, j) && trimmed(t) == t.subrange(i, j);
        lemma_blank_in_front(s, i, j);
    } else {
        let t = s.drop_last();
        law_trimmed(t);
        let (i, j) = choose|i: int, j: int| #[trigger]
            blank_outside(t, i, j) && trimmed(t) == t.subrange(i, j);
        lemma_blank_behind(s, i, j);
    }
}

/// Something is left of a text after trimming if and only if it is not white space
/// throughout.
pub proof fn law_trimmed_empty(s: Seq<char>)
    ensures
        trimmed(s).len() == 0 <==> forall|k: int|
            0 <= k < s.len() ==> #[trigger] is_white_space(s[k]),
{
    law_trimmed(s);
    let (i, j) = choose|i: int, j: int| #[trigger]
        blank_outside(s, i, j) && trimmed(s) == s.subrange(i, j);
    if trimmed(s).len() > 0 {
        assert(trimmed(s)[0] == s[i]);
        assert(!is_white_space(s[i]));
    }
}

/// White space is what Unicode counts as such: the controls from tab to carriage
/// return, the next-line control, and the separators of words, lines and paragraphs.
pub proof fn law_white_space()
    ensures
        forall|c: char| #[trigger]
            is_white_space(c) <==> seq![
                0x9u32, 0xa, 0xb, 0xc, 0xd, 0x20, 0x85, 0xa0, 0x1680, 0x2000, 0x2001, 0x2002,
                0x2003, 0x2004, 0x2005, 0x2006, 0x2007, 0x2008, 0x2009, 0x200a, 0x2028, 0x2029,
                0x202f, 0x205f, 0x3000,
            ].contains(c as u32),
{
    let all = seq![
        0x9u32, 0xa, 0xb, 0xc, 0xd, 0x20, 0x85, 0xa0, 0x1680, 0x2000, 0x2001, 0x2002, 0x2003,
        0x2004, 0x2005, 0x2006, 0x2007, 0x2008, 0x2009, 0x200a, 0x2028, 0x2029, 0x202f, 0x205f,
        0x3000,
    ];
    assert forall|c: char| #[trigger] is_white_space(c) <==> all.contains(c as u32) by {
        let u = c as u32;
        if 0x9 <= u <= 0xd {
            assert(all[u - 0x9] == u);
        } else if 0x2000 <= u <= 0x200a {
            assert(all[u - 0x2000 + 9] == u);
        }
        assert(all[5] == 0x20 && all[6] == 0x85 && all[7] == 0xa0 && all[8] == 0x1680);
        assert(all[20] == 0x2028 && all[21] == 0x2029 && all[22] == 0x202f);
        assert(all[23] == 0x205f && all[24] == 0x3000);
    }
}

/// The lexicographic order of byte strings, in which a prefix comes first.
pub open spec fn bytes_at_most(a: Seq<u8>, b: Seq<u8>) -> bool
    decreases a.len(),
{
    if a.len() == 0 {
        true
    } else if b.len() == 0 {
        false
    } else if a[0] != b[0] {
        a[0] < b[0]
    } else {
        bytes_at_most(a.drop_first(), b.drop_first())
    }
}

/// Whether `a` comes before `b`, or is equal to it, in the order of strings, which
/// is the order of their bytes.
pub fn str_at_most(a: &str, b: &str) -> (r: bool)
    ensures
        r == bytes_at_most(a.spec_bytes(), b.spec_bytes()),
{
    let x = a.as_bytes();
    let y = b.as_bytes();
    let mut i: usize = 0;
    proof {
        assert(x@.skip(0) =~= x@);
        assert(y@.skip(0) =~= y@);
    }
    while i < x.len() && i < y.len()
        invariant
            x@ == a.spec_bytes(),
            y@ == b.spec_bytes(),
            i <= x@.len(),
            i <= y@.len(),
            bytes_at_most(x@, y@) == bytes_at_most(x@.skip(i as int), y@.skip(i as int)),
        decreases x@.len() - i,
    {
        if x[i] != y[i] {
            return x[i] < y[i];
        }
        proof {
            assert(x@.skip(i as int).drop_first() =~= x@.skip(i + 1));
            assert(y@.skip(i as int).drop_first() =~= y@.skip(i + 1));
        }
        i += 1;
    }
    x.len() == i
}

/// The order of byte strings is total, and only equal strings precede each other.
pub proof fn law_bytes_at_most_total(a: Seq<u8>, b: Seq<u8>)
    ensures
        bytes_at_most(a, b) || bytes_at_most(b, a),
        bytes_at_most(a, b) && bytes_at_most(b, a) ==> a == b,
    decreases a.len(),
{
    if a.len() > 0 && b.len() > 0 && a[0] == b[0] {
        law_bytes_at_most_total(a.drop_first(), b.drop_first());
        if bytes_at_most(a, b) && bytes_at_most(b, a) {
            assert(a =~= seq![a[0]] + a.drop_first());
            assert(b =~= seq![b[0]] + b.drop_first());
        }
    } else if a.len() == 0 && b.len() == 0 {
        assert(a =~= b);
    }
}

/// Of two byte strings that agree in their first `k` bytes and not in the next, the
/// one with the smaller byte there comes first. A string comes before those that it
/// is a prefix of.
pub proof fn law_first_difference_decides(a: Seq<u8>, b: Seq<u8>, k: int)
    requires
        0 <= k <= a.len(),
        k <= b.len(),
        forall|i: int| 0 <= i < k ==> a[i] == b[i],
    ensures
        k < a.len() && k < b.len() && a[k] < b[k] ==> bytes_at_most(a, b) && !bytes_at_most(b, a),
        k < a.len() && k < b.len() && a[k] > b[k] ==> !bytes_at_most(a, b) && bytes_at_most(b, a),
        k == a.len() ==> bytes_at_most(a, b),
        k == b.len() && k < a.len() ==> !bytes_at_most(a, b),
    decreases k,
{
    if k > 0 {
        let x = a.drop_first();
        let y = b.drop_first();
        assert(a[0] == b[0]);
        assert forall|i: int| 0 <= i < k - 1 implies x[i] == y[i] by {
            assert(a[i + 1] == b[i + 1]);
        }
        law_first_difference_decides(x, y, k - 1);
    }
}

/// The number that decimal digits stand for.
pub open spec fn digits_value(s: Seq<char>) -> int
    decreases s.len(),
{
    if s.len() == 0 {
        0
    } else {
        10 * digits_value(s.drop_last()) + (s.last() as int - '0' as int)
    }
}

/// Whether `s` is a number as people write it: digits only, none of them a needless
/// zero in front, that stand for `n`.
pub open spec fn is_numeral(s: Seq<char>, n: int) -> bool {
    &&& s.len() > 0
    &&& forall|i: int| 0 <= i < s.len() ==> '0' as u32 <= (#[trigger] s[i]) as u32 <= '9' as u32
    &&& s.len() > 1 ==> s[0] != '0'
    &&& digits_value(s) == n
}

/// The decimal notation of a number is a number as people write it, and stands for
/// that number.
pub proof fn law_decimal(n: nat)
    ensures
        is_numeral(decimal(n), n as int),
    decreases n,
{
    reveal_with_fuel(digits_value, 2);
    let s = decimal(n);
    if n < 10 {
        assert(s.drop_last() =~= Seq::<char>::empty());
        assert(s[0] == digit_char(n));
    } else {
        law_decimal(n / 10);
        let t = decimal(n / 10);
        assert(s.drop_last() =~= t);
        assert(s.last() == digit_char(n % 10));
        assert(s[0] == t[0]);
        if t.len() == 1 && t[0] == '0' {
            assert(t.drop_last() =~= Seq::<char>::empty());
            assert(digits_value(t) == 0);
        }
        assert forall|i: int| 0 <= i < s.len() implies '0' as u32 <= (#[trigger] s[i]) as u32
            <= '9' as u32 by {
            if i < t.len() {
                assert(s[i] == t[i]);
            }
        }
    }
}

/// Whether `text` is the four numbers `a`, `b`, `c` and `d` with dots between them, and
/// these stand for the four octets.
pub open spec fn spells_quad(
    text: Seq<char>,
    octets: Seq<u8>,
    a: Seq<char>,
    b: Seq<char>,
    c: Seq<char>,
    d: Seq<char>,
) -> bool {
    &&& text == a + seq!['.'] + b + seq!['.'] + c + seq!['.'] + d
    &&& is_numeral(a, octets[0] as int)
    &&& is_numeral(b, octets[1] as int)
    &&& is_numeral(c, octets[2] as int)
    &&& is_numeral(d, octets[3] as int)
}

/// The text of an IPv4 address is its four octets in order, each as people write
/// numbers, with dots between them.
pub proof fn law_dotted(octets: Seq<u8>)
    requires
        octets.len() == 4,
    ensures
        exists|a: Seq<char>, b: Seq<char>, c: Seq<char>, d: Seq<char>|
            spells_quad(dotted(octets), octets, a, b, c, d),
{
    let a = decimal(octets[0] as nat);
    let b = decimal(octets[1] as nat);
    let c = decimal(octets[2] as nat);
    let d = decimal(octets[3] as nat);
    law_decimal(octets[0] as nat);
    law_decimal(octets[1] as nat);
    law_decimal(octets[2] as nat);
    law_decimal(octets[3] as nat);
    assert(spells_quad(dotted(octets), octets, a, b, c, d));
}

/// The texts of a sequence of strings are as many, and are the strings' own, in order.
pub proof fn law_texts(strings: Seq<String>, i: int)
    requires
        0 <= i < strings.len(),
    ensures
        texts(strings).len() == strings.len(),
        texts(strings)[i] == strings[i]@,
{
}

} // verus!
