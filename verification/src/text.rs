//! Byte-level text primitives shared by the configuration file grammar:
//! decimal numbers, quoted strings, and line splitting.

use vstd::prelude::*;

verus! {

/// ASCII code of the line feed that ends every line of the file.
pub open spec fn newline() -> u8 {
    10
}

/// ASCII code of the double quote that delimits string values.
pub open spec fn quote() -> u8 {
    34
}

/// The bytes of an ASCII string, character by character.
pub open spec fn ascii_bytes(s: Seq<char>) -> Seq<u8> {
    s.map_values(|c: char| c as u8)
}

/// A decimal digit byte, `'0'` to `'9'`.
pub open spec fn is_digit(b: u8) -> bool {
    48 <= b <= 57
}

/// Every byte of `s` is a decimal digit.
pub open spec fn all_digits(s: Seq<u8>) -> bool {
    forall|i: int| 0 <= i < s.len() ==> is_digit(#[trigger] s[i])
}

/// The number denoted by a sequence of digit bytes, most significant first.
pub open spec fn digits_val(s: Seq<u8>) -> nat
    decreases s.len(),
{
    if s.len() == 0 {
        0
    } else {
        (digits_val(s.drop_last()) * 10 + (s.last() - 48)) as nat
    }
}

/// The canonical decimal rendering of `n`: no sign, no leading zeros
/// (except for `n == 0` itself).
pub open spec fn spec_render_nat(n: nat) -> Seq<u8>
    decreases n,
{
    if n < 10 {
        seq![(48 + n) as u8]
    } else {
        spec_render_nat(n / 10).push((48 + n % 10) as u8)
    }
}

/// The canonical rendering consists of digits and reads back as `n`.
pub proof fn lemma_render_nat_val(n: nat)
    ensures
        spec_render_nat(n).len() >= 1,
        all_digits(spec_render_nat(n)),
        digits_val(spec_render_nat(n)) == n,
    decreases n,
{
    if n < 10 {
        let s = spec_render_nat(n);
        assert(s.len() == 1);
        assert(s.drop_last().len() == 0);
        assert(digits_val(s.drop_last()) == 0);
        assert(s.last() == (48 + n) as u8);
        assert(digits_val(s) == n);
    } else {
        lemma_render_nat_val(n / 10);
        let p = spec_render_nat(n / 10);
        let d = (48 + n % 10) as u8;
        let s = p.push(d);
        assert(s.drop_last() =~= p);
        assert(s.last() == d);
        assert(digits_val(s) == (n / 10) * 10 + n % 10);
        assert((n / 10) * 10 + n % 10 == n) by (nonlinear_arith);
        assert(forall|i: int| 0 <= i < s.len() ==> is_digit(#[trigger] s[i])) by {
            assert(forall|i: int| 0 <= i < p.len() ==> is_digit(#[trigger] p[i]));
            assert(forall|i: int| 0 <= i < s.len() && i < p.len() ==> s[i] == p[i]);
        }
    }
}

/// Reading one more digit multiplies the value read so far by ten.
pub proof fn lemma_digits_val_extend(s: Seq<u8>, i: int)
    requires
        0 <= i < s.len(),
        is_digit(s[i]),
    ensures
        digits_val(s.subrange(0, i + 1)) == digits_val(s.subrange(0, i)) * 10 + (s[i] - 48),
{
    let t = s.subrange(0, i + 1);
    assert(t.drop_last() =~= s.subrange(0, i));
    assert(t.last() == s[i]);
}

/// The value of a digit prefix never shrinks as the prefix grows.
pub proof fn lemma_digits_val_prefix_mono(s: Seq<u8>, i: int, j: int)
    requires
        0 <= i <= j <= s.len(),
        all_digits(s),
    ensures
        digits_val(s.subrange(0, i)) <= digits_val(s.subrange(0, j)),
    decreases j - i,
{
    if i < j {
        lemma_digits_val_prefix_mono(s, i, j - 1);
        lemma_digits_val_extend(s, j - 1);
        let v = digits_val(s.subrange(0, j - 1));
        assert(digits_val(s.subrange(0, j)) == v * 10 + (s[j - 1] - 48));
        assert(v <= v * 10) by (nonlinear_arith);
    }
}

/// The whole sequence is its own prefix of full length.
pub proof fn lemma_digits_val_full(s: Seq<u8>)
    ensures
        digits_val(s.subrange(0, s.len() as int)) == digits_val(s),
{
    assert(s.subrange(0, s.len() as int) =~= s);
}

/// A decimal number as stored in the file: at least one digit, value
/// within `u32`.
pub open spec fn spec_parse_u32(s: Seq<u8>) -> Option<u32> {
    if s.len() >= 1 && all_digits(s) && digits_val(s) <= u32::MAX {
        Some(digits_val(s) as u32)
    } else {
        None
    }
}

/// A decimal number whose value must fit in a byte.
pub open spec fn spec_parse_u8(s: Seq<u8>) -> Option<u8> {
    if s.len() >= 1 && all_digits(s) && digits_val(s) <= u8::MAX {
        Some(digits_val(s) as u8)
    } else {
        None
    }
}

/// Parses a decimal `u32`, accepting exactly the strings of digits whose
/// value fits.
pub fn parse_u32_bytes(s: &[u8]) -> (r: Option<u32>)
    ensures
        r == spec_parse_u32(s@),
{
    if s.len() == 0 {
        return None;
    }
    let mut acc: u32 = 0;
    let mut i: usize = 0;
    while i < s.len()
        invariant
            0 <= i <= s@.len(),
            all_digits(s@.subrange(0, i as int)),
            acc == digits_val(s@.subrange(0, i as int)),
        decreases s@.len() - i,
    {
        let b = *vstd::slice::slice_index_get(s, i);
        if b < 48 || b > 57 {
            assert(!is_digit(s@[i as int]));
            return None;
        }
        let d: u32 = (b - 48) as u32;
        if acc > (u32::MAX - d) / 10 {
            proof {
                lemma_digits_val_extend(s@, i as int);
                assert(digits_val(s@.subrange(0, i as int + 1)) > u32::MAX) by (nonlinear_arith)
                    requires
                        digits_val(s@.subrange(0, i as int + 1)) == acc * 10 + d,
                        acc > (u32::MAX - d) / 10,
                        d < 10,
                ;
                if all_digits(s@) {
                    lemma_digits_val_prefix_mono(s@, i as int + 1, s@.len() as int);
                    lemma_digits_val_full(s@);
                }
            }
            return None;
        }
        proof {
            lemma_digits_val_extend(s@, i as int);
            assert(acc * 10 + d <= u32::MAX) by (nonlinear_arith)
                requires
                    acc <= (u32::MAX - d) / 10,
                    d < 10,
            ;
        }
        acc = acc * 10 + d;
        i = i + 1;
    }
    proof {
        lemma_digits_val_full(s@);
        assert(s@.subrange(0, i as int) =~= s@);
    }
    Some(acc)
}

/// Parses a decimal `u8`, accepting exactly the strings of digits whose
/// value fits in a byte.
pub fn parse_u8_bytes(s: &[u8]) -> (r: Option<u8>)
    ensures
        r == spec_parse_u8(s@),
{
    match parse_u32_bytes(s) {
        Some(v) => {
            if v <= 255 {
                Some(v as u8)
            } else {
                None
            }
        },
        None => {
            proof {
                if s@.len() >= 1 && all_digits(s@) {
                    assert(digits_val(s@) > u32::MAX);
                }
            }
            None
        },
    }
}

/// Appends the canonical decimal rendering of `n` to `out`.
pub fn push_render_u32(out: &mut Vec<u8>, n: u32)
    ensures
        final(out)@ == old(out)@ + spec_render_nat(n as nat),
    decreases n,
{
    if n < 10 {
        out.push((48 + n) as u8);
    } else {
        push_render_u32(out, n / 10);
        out.push((48 + (n % 10)) as u8);
    }
}

/// Index of the first occurrence of `b` in `s`, or `-1` if absent.
pub open spec fn find_byte(s: Seq<u8>, b: u8) -> int
    decreases s.len(),
{
    if s.len() == 0 {
        -1
    } else if s.first() == b {
        0
    } else if find_byte(s.drop_first(), b) == -1 {
        -1
    } else {
        1 + find_byte(s.drop_first(), b)
    }
}

/// A position with the first-occurrence property determines `find_byte`.
pub proof fn lemma_find_byte_at(s: Seq<u8>, b: u8, i: int)
    requires
        0 <= i < s.len(),
        s[i] == b,
        forall|j: int| 0 <= j < i ==> s[j] != b,
    ensures
        find_byte(s, b) == i,
    decreases s.len(),
{
    if i > 0 {
        assert(forall|j: int| 0 <= j < s.drop_first().len() ==> s.drop_first()[j] == s[j + 1]);
        lemma_find_byte_at(s.drop_first(), b, i - 1);
    }
}

/// If no byte of `s` is `b`, `find_byte` reports absence.
pub proof fn lemma_find_byte_none(s: Seq<u8>, b: u8)
    requires
        forall|j: int| 0 <= j < s.len() ==> s[j] != b,
    ensures
        find_byte(s, b) == -1,
    decreases s.len(),
{
    if s.len() > 0 {
        assert(forall|j: int| 0 <= j < s.drop_first().len() ==> s.drop_first()[j] == s[j + 1]);
        lemma_find_byte_none(s.drop_first(), b);
    }
}

/// Splits off the first line: the bytes before the first line feed and
/// the bytes after it.  `None` when no line feed remains.
pub open spec fn take_line(s: Seq<u8>) -> Option<(Seq<u8>, Seq<u8>)> {
    let i = find_byte(s, newline());
    if i == -1 {
        None
    } else {
        Some((s.subrange(0, i), s.subrange(i + 1, s.len() as int)))
    }
}

/// Splitting a sequence that starts with a newline-free line finds
/// exactly that line.
pub proof fn lemma_take_line_concat(content: Seq<u8>, rest: Seq<u8>)
    requires
        forall|j: int| 0 <= j < content.len() ==> content[j] != newline(),
    ensures
        take_line(content + seq![newline()] + rest) == Some((content, rest)),
{
    let s = content + seq![newline()] + rest;
    assert(s[content.len() as int] == newline());
    assert(forall|j: int| 0 <= j < content.len() ==> s[j] == content[j]);
    lemma_find_byte_at(s, newline(), content.len() as int);
    assert(s.subrange(0, content.len() as int) =~= content);
    assert(s.subrange(content.len() as int + 1, s.len() as int) =~= rest);
}

/// `p` is a prefix of `s`.
pub open spec fn starts_with(s: Seq<u8>, p: Seq<u8>) -> bool {
    s.len() >= p.len() && s.subrange(0, p.len() as int) == p
}

/// Compares two byte slices for equality.
pub fn bytes_eq(a: &[u8], b: &[u8]) -> (r: bool)
    ensures
        r == (a@ == b@),
{
    if a.len() != b.len() {
        assert(a@ != b@);
        return false;
    }
    let mut i: usize = 0;
    while i < a.len()
        invariant
            0 <= i <= a@.len(),
            a@.len() == b@.len(),
            forall|j: int| 0 <= j < i ==> a@[j] == b@[j],
        decreases a@.len() - i,
    {
        if *vstd::slice::slice_index_get(a, i) != *vstd::slice::slice_index_get(b, i) {
            assert(a@[i as int] != b@[i as int]);
            return false;
        }
        i = i + 1;
    }
    proof {
        assert(a@ =~= b@);
    }
    true
}

/// Removes `prefix` from the front of `line`, or reports that `line`
/// does not start with it.
pub fn strip_prefix<'a>(line: &'a [u8], prefix: &[u8]) -> (r: Option<&'a [u8]>)
    ensures
        r is Some <==> starts_with(line@, prefix@),
        r matches Some(rest) ==> rest@ == line@.subrange(prefix@.len() as int, line@.len() as int),
{
    if line.len() < prefix.len() {
        return None;
    }
    let head = vstd::slice::slice_subrange(line, 0, prefix.len());
    if bytes_eq(head, prefix) {
        Some(vstd::slice::slice_subrange(line, prefix.len(), line.len()))
    } else {
        None
    }
}

/// A quoted string value: a double quote, unescaped printable content,
/// a double quote.  Yields the content.
pub open spec fn spec_parse_quoted(s: Seq<u8>) -> Option<Seq<u8>> {
    if s.len() >= 2 && s.first() == quote() && s.last() == quote() && (forall|i: int|
        1 <= i < s.len() - 1 ==> crate::config::plain_string_byte(#[trigger] s[i])) {
        Some(s.subrange(1, s.len() - 1))
    } else {
        None
    }
}

/// The quoted rendering of a string value.
pub open spec fn spec_render_quoted(content: Seq<u8>) -> Seq<u8> {
    seq![quote()] + content + seq![quote()]
}

/// Quoting well-formed content and parsing it back yields the content.
pub proof fn lemma_quoted_round_trip(content: Seq<u8>)
    requires
        forall|i: int| 0 <= i < content.len() ==> crate::config::plain_string_byte(
            #[trigger] content[i],
        ),
    ensures
        spec_parse_quoted(spec_render_quoted(content)) == Some(content),
{
    let s = spec_render_quoted(content);
    assert(s.len() == content.len() + 2);
    assert(s.first() == quote());
    assert(s.last() == quote());
    assert(forall|i: int| 1 <= i < s.len() - 1 ==> s[i] == content[i - 1]);
    assert(s.subrange(1, s.len() - 1) =~= content);
}

/// Parses a quoted string value, accepting exactly the values that
/// [`spec_parse_quoted`] accepts.
pub fn parse_quoted_bytes(s: &[u8]) -> (r: Option<Vec<u8>>)
    ensures
        r is Some <==> spec_parse_quoted(s@) is Some,
        r matches Some(content) ==> spec_parse_quoted(s@) == Some(content@),
{
    if s.len() < 2 {
        return None;
    }
    if *vstd::slice::slice_index_get(s, 0) != 34 {
        return None;
    }
    if *vstd::slice::slice_index_get(s, s.len() - 1) != 34 {
        return None;
    }
    let mut i: usize = 1;
    while i < s.len() - 1
        invariant
            1 <= i <= s@.len() - 1,
            s@.len() >= 2,
            forall|j: int| 1 <= j < i ==> crate::config::plain_string_byte(#[trigger] s@[j]),
        decreases s@.len() - i,
    {
        let b = *vstd::slice::slice_index_get(s, i);
        if b < 32 || b >= 127 || b == 34 || b == 92 {
            assert(!crate::config::plain_string_byte(s@[i as int]));
            return None;
        }
        i = i + 1;
    }
    let content = vstd::slice::slice_subrange(s, 1, s.len() - 1);
    Some(vstd::slice::slice_to_vec(content))
}

} // verus!
