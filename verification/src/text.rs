//! Text building blocks: numerals, ASCII case, and the order of strings.

use std::cmp::Ordering;
use vstd::prelude::*;
use vstd::string::StringExecFns;

verus! {

/// The digit of value `d`, in lower case past nine.
pub open spec fn digit_char(d: nat) -> char {
    if d < 10 {
        (48 + d) as char
    } else {
        (87 + d) as char
    }
}

/// The numeral of `n` in base `radix`, without leading zeros.
pub open spec fn numeral(n: nat, radix: nat) -> Seq<char>
    decreases n,
{
    if radix < 2 {
        Seq::empty()
    } else if n < radix {
        seq![digit_char(n)]
    } else {
        proof {
            vstd::arithmetic::div_mod::lemma_div_decreases(n as int, radix as int);
        }
        numeral(n / radix, radix).push(digit_char(n % radix))
    }
}

/// The one-character string of the digit of value `d`.
fn digit_str(d: u64) -> (s: &'static str)
    requires
        d < 16,
    ensures
        s@ == seq![digit_char(d as nat)],
{
    proof {
        reveal_strlit("0");
        reveal_strlit("1");
        reveal_strlit("2");
        reveal_strlit("3");
        reveal_strlit("4");
        reveal_strlit("5");
        reveal_strlit("6");
        reveal_strlit("7");
        reveal_strlit("8");
        reveal_strlit("9");
        reveal_strlit("a");
        reveal_strlit("b");
        reveal_strlit("c");
        reveal_strlit("d");
        reveal_strlit("e");
        reveal_strlit("f");
    }
    match d {
        0 => "0",
        1 => "1",
        2 => "2",
        3 => "3",
        4 => "4",
        5 => "5",
        6 => "6",
        7 => "7",
        8 => "8",
        9 => "9",
        10 => "a",
        11 => "b",
        12 => "c",
        13 => "d",
        14 => "e",
        _ => "f",
    }
}

/// Appends the numeral of `n` in base `radix` to `out`.
pub fn append_numeral(out: &mut String, n: u64, radix: u64)
    requires
        2 <= radix <= 16,
    ensures
        final(out)@ == old(out)@ + numeral(n as nat, radix as nat),
    decreases n,
{
    let ghost before = out@;
    if n >= radix {
        proof {
            vstd::arithmetic::div_mod::lemma_div_decreases(n as int, radix as int);
        }
        append_numeral(out, n / radix, radix);
        out.append(digit_str(n % radix));
        assert(out@ =~= before + numeral((n / radix) as nat, radix as nat).push(
            digit_char((n % radix) as nat),
        ));
    } else {
        out.append(digit_str(n));
        assert(out@ =~= before + seq![digit_char(n as nat)]);
    }
}

/// The characters of `s`, in order.
pub fn chars_of(s: &str) -> (chars: Vec<char>)
    ensures
        chars@ == s@,
{
    let mut chars: Vec<char> = Vec::new();
    for c in it: s.chars()
        invariant
            it.seq() == s@,
            chars@ == s@.take(it.index() as int),
    {
        chars.push(c);
    }
    assert(s@.take(s@.len() as int) == s@);
    chars
}

/// Calls `String::from_utf8`. Claims that bytes become a string exactly when they
/// are valid UTF-8, and that the string is the one that they encode.
#[verifier::external_body]
pub(crate) fn string_from_utf8(bytes: Vec<u8>) -> (r: Option<String>)
    ensures
        r is Some == vstd::utf8::valid_utf8(bytes@),
        r matches Some(s) ==> vstd::utf8::encode_utf8(s@) == bytes@,
{
    String::from_utf8(bytes).ok()
}

/// `c` in lower case if it is an ASCII letter, else `c` itself.
pub open spec fn ascii_lower(c: char) -> char {
    if 'A' <= c <= 'Z' {
        (c as int + 32) as char
    } else {
        c
    }
}

/// `s` with its ASCII letters in lower case.
pub open spec fn ascii_lowercase(s: Seq<char>) -> Seq<char> {
    s.map_values(|c: char| ascii_lower(c))
}

fn lower_char(c: char) -> (r: char)
    ensures
        r == ascii_lower(c),
{
    if 'A' <= c && c <= 'Z' {
        (c as u8 + 32) as char
    } else {
        c
    }
}

/// Tells whether `s` is `name` once its ASCII letters are put in lower case.
pub fn lowercases_to(s: &str, name: &str) -> (r: bool)
    ensures
        r == (ascii_lowercase(s@) == name@),
{
    let a: Vec<char> = chars_of(s);
    let b: Vec<char> = chars_of(name);
    if a.len() != b.len() {
        return false;
    }
    let mut i: usize = 0;
    while i < a.len()
        invariant
            i <= a.len(),
            a.len() == b.len(),
            a@ == s@,
            b@ == name@,
            forall|j: int| 0 <= j < i ==> ascii_lower(a@[j]) == b@[j],
        decreases a.len() - i,
    {
        if lower_char(a[i]) != b[i] {
            assert(ascii_lowercase(s@)[i as int] != name@[i as int]);
            return false;
        }
        i += 1;
    }
    assert(ascii_lowercase(s@) =~= name@);
    true
}

/// Tells whether `c` is an ASCII decimal digit.
pub open spec fn is_digit(c: char) -> bool {
    '0' <= c <= '9'
}

/// Tells whether `s` holds ASCII decimal digits and nothing else.
pub open spec fn all_digits(s: Seq<char>) -> bool {
    forall|i: int| 0 <= i < s.len() ==> is_digit(#[trigger] s[i])
}

/// The number that a string of decimal digits denotes.
pub open spec fn decimal_value(s: Seq<char>) -> nat
    decreases s.len(),
{
    if s.len() == 0 {
        0
    } else {
        10 * decimal_value(s.drop_last()) + (s.last() as int - '0' as int) as nat
    }
}

/// `s` without its leading plus sign, if it has one.
pub open spec fn without_plus(s: Seq<char>) -> Seq<char> {
    if s.len() > 0 && s[0] == '+' {
        s.skip(1)
    } else {
        s
    }
}

/// The `u32` that `s` writes in decimal, if it does: an optional plus sign, then
/// at least one digit, for a number that fits.
pub open spec fn u32_numeral(s: Seq<char>) -> Option<u32> {
    let digits = without_plus(s);
    if digits.len() > 0 && all_digits(digits) && decimal_value(digits) <= u32::MAX {
        Some(decimal_value(digits) as u32)
    } else {
        None
    }
}

proof fn lemma_decimal_value_grows(s: Seq<char>, n: int)
    requires
        0 <= n <= s.len(),
    ensures
        decimal_value(s.take(n)) <= decimal_value(s),
    decreases s.len() - n,
{
    if n < s.len() {
        assert(s.take(n + 1).drop_last() == s.take(n));
        lemma_decimal_value_grows(s, n + 1);
    } else {
        assert(s.take(n) == s);
    }
}

/// Reads `s` as a decimal `u32`.
pub fn parse_u32(s: &str) -> (r: Option<u32>)
    ensures
        r == u32_numeral(s@),
{
    let chars: Vec<char> = chars_of(s);
    let mut i: usize = 0;
    if chars.len() > 0 && chars[0] == '+' {
        i = 1;
    }
    let ghost digits = without_plus(s@);
    let ghost start: int = i as int;
    if i == chars.len() {
        return None;
    }
    let mut value: u64 = 0;
    assert(digits.take(0) =~= Seq::empty());
    while i < chars.len()
        invariant
            chars@ == s@,
            start == 0 || start == 1,
            start <= i <= chars@.len(),
            digits == without_plus(s@),
            digits == s@.skip(start),
            digits.len() > 0,
            all_digits(digits.take(i - start)),
            value == decimal_value(digits.take(i - start)),
            value <= u32::MAX,
        decreases chars@.len() - i,
    {
        let c: char = chars[i];
        assert(digits[i - start] == c);
        if c < '0' || '9' < c {
            assert(!all_digits(digits));
            return None;
        }
        assert(digits.take(i - start + 1).drop_last() == digits.take(i - start));
        assert(all_digits(digits.take(i - start + 1))) by {
            assert forall|j: int| 0 <= j < i - start + 1 implies is_digit(
                #[trigger] digits.take(i - start + 1)[j],
            ) by {
                if j < i - start {
                    assert(is_digit(digits.take(i - start)[j]));
                }
            }
        }
        value = value * 10 + (c as u64 - 48);
        if value > 4294967295 {
            proof {
                lemma_decimal_value_grows(digits, i - start + 1);
            }
            return None;
        }
        i += 1;
    }
    assert(digits.take(i - start) == digits);
    Some(value as u32)
}

/// A numeral is written digit by digit: a digit stands for itself, and behind the numeral
/// of `n` it makes the numeral of `n * radix + d`.
pub proof fn numeral_grows_by_digits(n: nat, d: nat, radix: nat)
    requires
        2 <= radix <= 16,
        d < radix,
    ensures
        ({
            let digit = seq![
                '0', '1', '2', '3', '4', '5', '6', '7', '8', '9', 'a', 'b', 'c', 'd', 'e', 'f',
            ][d as int];
            &&& numeral(d, radix) == seq![digit]
            &&& n > 0 ==> numeral(n * radix + d, radix) == numeral(n, radix).push(digit)
        }),
{
    let m = n * radix + d;
    if n > 0 {
        vstd::arithmetic::div_mod::lemma_fundamental_div_mod_converse(
            m as int,
            radix as int,
            n as int,
            d as int,
        );
        assert(m >= radix) by (nonlinear_arith)
            requires
                m == n * radix + d,
                n > 0,
        ;
    }
}

/// A `u32` is read digit by digit: one more digit behind what reads as `v` makes `10 * v`
/// and the digit if that fits, and nothing else can follow. Nothing and a plus sign alone
/// are no number, and a digit behind them is itself.
pub proof fn u32_is_read_by_digits(s: Seq<char>, c: char)
    ensures
        s.len() == 0 || s == seq!['+'] ==> {
            &&& u32_numeral(s) is None
            &&& '0' <= c <= '9' ==> u32_numeral(s.push(c)) == Some((c as int - 48) as u32)
            &&& !('0' <= c <= '9') ==> u32_numeral(s.push(c)) is None
        },
        s.len() > 0 && s != seq!['+'] ==> match u32_numeral(s) {
            Some(v) => {
                let next = 10 * v + (c as int - 48);
                if '0' <= c <= '9' && next <= 4294967295 {
                    u32_numeral(s.push(c)) == Some(next as u32)
                } else {
                    u32_numeral(s.push(c)) is None
                }
            },
            None => u32_numeral(s.push(c)) is None,
        },
{
    let t = s.push(c);
    let digits = without_plus(s);
    assert(t.last() == c);
    if s.len() == 0 {
        assert(t[0] == c);
        assert(t.drop_last() =~= s);
        assert(decimal_value(s) == 0);
        if c == '+' {
            assert(t.skip(1).len() == 0);
        } else {
            assert(is_digit(t[0]) == is_digit(c));
        }
    } else {
        assert(t[0] == s[0]);
        assert(without_plus(t) =~= digits.push(c));
        let more = digits.push(c);
        assert(more.drop_last() =~= digits);
        assert(more.last() == c);
        assert(is_digit(more[digits.len() as int]) == is_digit(c));
        if all_digits(more) {
            assert forall|i: int| 0 <= i < digits.len() implies is_digit(#[trigger] digits[i]) by {
                assert(is_digit(more[i]));
            }
        }
        if s == seq!['+'] {
            assert(digits.len() == 0);
            assert(decimal_value(digits) == 0);
        } else if digits.len() == 0 {
            assert(s =~= seq!['+']);
        }
    }
}

/// ASCII letters are put in lower case one by one, and nothing else is touched.
pub proof fn only_ascii_letters_change(s: Seq<char>, i: int)
    requires
        0 <= i < s.len(),
    ensures
        ascii_lowercase(s).len() == s.len(),
        65 <= s[i] as int <= 90 ==> ascii_lowercase(s)[i] as int == s[i] as int + 32,
        !(65 <= s[i] as int <= 90) ==> ascii_lowercase(s)[i] == s[i],
{
}

/// The decimal numeral of a number that fits is read as that number.
pub proof fn numeral_reads_back(n: u32)
    ensures
        u32_numeral(numeral(n as nat, 10)) == Some(n),
{
    lemma_numeral_digits(n as nat);
    assert(is_digit(numeral(n as nat, 10)[0]));
}

proof fn lemma_numeral_digits(n: nat)
    ensures
        numeral(n, 10).len() > 0,
        all_digits(numeral(n, 10)),
        decimal_value(numeral(n, 10)) == n,
    decreases n,
{
    let s = numeral(n, 10);
    if n < 10 {
        assert(s.drop_last() =~= Seq::empty());
        assert(decimal_value(s.drop_last()) == 0);
    } else {
        lemma_numeral_digits(n / 10);
        assert(s.drop_last() =~= numeral(n / 10, 10));
    }
}

/// The lexicographic order of two byte sequences.
pub open spec fn byte_order(a: Seq<u8>, b: Seq<u8>) -> Ordering
    decreases a.len(),
{
    if a.len() == 0 {
        if b.len() == 0 {
            Ordering::Equal
        } else {
            Ordering::Less
        }
    } else if b.len() == 0 {
        Ordering::Greater
    } else if a[0] < b[0] {
        Ordering::Less
    } else if b[0] < a[0] {
        Ordering::Greater
    } else {
        byte_order(a.drop_first(), b.drop_first())
    }
}

/// The order of two strings: that of their UTF-8 bytes.
pub open spec fn text_order(a: Seq<char>, b: Seq<char>) -> Ordering {
    byte_order(vstd::utf8::encode_utf8(a), vstd::utf8::encode_utf8(b))
}

/// Compares two strings byte by byte.
pub fn compare_text(a: &str, b: &str) -> (order: Ordering)
    ensures
        order == text_order(a@, b@),
{
    let x: &[u8] = a.as_bytes();
    let y: &[u8] = b.as_bytes();
    let mut i: usize = 0;
    let ghost mut k: int = 0;
    assert(x@.skip(0) == x@ && y@.skip(0) == y@);
    while i < x.len() && i < y.len()
        invariant
            k == i,
            i <= x@.len(),
            i <= y@.len(),
            x@ == vstd::utf8::encode_utf8(a@),
            y@ == vstd::utf8::encode_utf8(b@),
            byte_order(x@, y@) == byte_order(x@.skip(k), y@.skip(k)),
        decreases x@.len() - i,
    {
        assert(x@.skip(k).drop_first() == x@.skip(k + 1));
        assert(y@.skip(k).drop_first() == y@.skip(k + 1));
        if x[i] < y[i] {
            return Ordering::Less;
        }
        if y[i] < x[i] {
            return Ordering::Greater;
        }
        i += 1;
        proof {
            k = k + 1;
        }
    }
    if i < y.len() {
        Ordering::Less
    } else if i < x.len() {
        Ordering::Greater
    } else {
        Ordering::Equal
    }
}

/// The order of strings is that of the first bytes in which they differ, and a string
/// comes before those that it is the start of.
pub proof fn text_order_is_lexicographic(a: Seq<char>, b: Seq<char>, i: int)
    requires
        0 <= i <= vstd::utf8::encode_utf8(a).len(),
        0 <= i <= vstd::utf8::encode_utf8(b).len(),
        vstd::utf8::encode_utf8(a).take(i) == vstd::utf8::encode_utf8(b).take(i),
    ensures
        ({
            let (x, y) = (vstd::utf8::encode_utf8(a), vstd::utf8::encode_utf8(b));
            &&& i < x.len() && i < y.len() && x[i] < y[i] ==> text_order(a, b) is Less
            &&& i < x.len() && i < y.len() && x[i] > y[i] ==> text_order(a, b) is Greater
            &&& i == x.len() && i < y.len() ==> text_order(a, b) is Less
            &&& i < x.len() && i == y.len() ==> text_order(a, b) is Greater
            &&& i == x.len() && i == y.len() ==> text_order(a, b) is Equal
        }),
{
    lemma_byte_order_prefix(vstd::utf8::encode_utf8(a), vstd::utf8::encode_utf8(b), i);
}

proof fn lemma_byte_order_prefix(a: Seq<u8>, b: Seq<u8>, i: int)
    requires
        0 <= i <= a.len(),
        0 <= i <= b.len(),
        a.take(i) == b.take(i),
    ensures
        byte_order(a, b) == byte_order(a.skip(i), b.skip(i)),
    decreases i,
{
    if i == 0 {
        assert(a.skip(0) =~= a && b.skip(0) =~= b);
    } else {
        assert(a.take(i)[0] == a[0] && b.take(i)[0] == b[0]);
        let (x, y) = (a.drop_first(), b.drop_first());
        assert forall|j: int| 0 <= j < i - 1 implies x[j] == y[j] by {
            assert(a.take(i)[j + 1] == a[j + 1] && b.take(i)[j + 1] == b[j + 1]);
        }
        assert(x.take(i - 1) =~= y.take(i - 1));
        lemma_byte_order_prefix(x, y, i - 1);
        assert(x.skip(i - 1) =~= a.skip(i));
        assert(y.skip(i - 1) =~= b.skip(i));
    }
}

/// The order of strings is reversed when its arguments are swapped.
pub proof fn text_order_is_antisymmetric(a: Seq<char>, b: Seq<char>)
    ensures
        (text_order(a, b) is Less) == (text_order(b, a) is Greater),
        (text_order(a, b) is Greater) == (text_order(b, a) is Less),
        (text_order(a, b) is Equal) == (text_order(b, a) is Equal),
{
    lemma_byte_order_reverses(vstd::utf8::encode_utf8(a), vstd::utf8::encode_utf8(b));
}

/// Two strings are equal in the order exactly when they are the same string.
pub proof fn text_order_equal_is_identity(a: Seq<char>, b: Seq<char>)
    ensures
        (text_order(a, b) is Equal) == (a == b),
{
    broadcast use {vstd::utf8::encode_utf8_decode_utf8, vstd::utf8::encode_utf8_valid_utf8};

    lemma_byte_order_equal(vstd::utf8::encode_utf8(a), vstd::utf8::encode_utf8(b));
    assert(vstd::utf8::decode_utf8(vstd::utf8::encode_utf8(a)) == a);
    assert(vstd::utf8::decode_utf8(vstd::utf8::encode_utf8(b)) == b);
}

/// The order of strings is transitive.
pub proof fn text_order_is_transitive(a: Seq<char>, b: Seq<char>, c: Seq<char>)
    requires
        text_order(a, b) is Less,
        text_order(b, c) is Less,
    ensures
        text_order(a, c) is Less,
{
    lemma_byte_order_transitive(
        vstd::utf8::encode_utf8(a),
        vstd::utf8::encode_utf8(b),
        vstd::utf8::encode_utf8(c),
    );
}

proof fn lemma_byte_order_reverses(a: Seq<u8>, b: Seq<u8>)
    ensures
        (byte_order(a, b) is Less) == (byte_order(b, a) is Greater),
        (byte_order(a, b) is Greater) == (byte_order(b, a) is Less),
        (byte_order(a, b) is Equal) == (byte_order(b, a) is Equal),
    decreases a.len(),
{
    if a.len() > 0 && b.len() > 0 {
        lemma_byte_order_reverses(a.drop_first(), b.drop_first());
    }
}

proof fn lemma_byte_order_equal(a: Seq<u8>, b: Seq<u8>)
    ensures
        (byte_order(a, b) is Equal) == (a == b),
    decreases a.len(),
{
    if a.len() > 0 && b.len() > 0 {
        lemma_byte_order_equal(a.drop_first(), b.drop_first());
        if a[0] == b[0] && a.drop_first() == b.drop_first() {
            assert(a == seq![a[0]] + a.drop_first());
            assert(b == seq![b[0]] + b.drop_first());
        }
    } else {
        assert(a.len() == 0 && b.len() == 0 ==> a == b);
    }
}

proof fn lemma_byte_order_transitive(a: Seq<u8>, b: Seq<u8>, c: Seq<u8>)
    requires
        byte_order(a, b) is Less,
        byte_order(b, c) is Less,
    ensures
        byte_order(a, c) is Less,
    decreases a.len(),
{
    if a.len() > 0 && a[0] == b[0] && b[0] == c[0] {
        lemma_byte_order_transitive(a.drop_first(), b.drop_first(), c.drop_first());
    }
}

} // verus!
