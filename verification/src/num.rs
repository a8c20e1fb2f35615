//! Decimal rendering and parsing for the interpreter's 32-bit integers.
use vstd::prelude::*;

verus! {

/// The character for a single decimal digit.
pub open spec fn digit_char(d: int) -> char {
    ((d + 48) as u8) as char
}

/// Decimal digits of a nonnegative number, most significant first.
pub open spec fn sp_nat_str(n: int) -> Seq<char>
    decreases n,
{
    if n < 10 {
        seq![digit_char(if n < 0 { 0 } else { n })]
    } else {
        sp_nat_str(n / 10).push(digit_char(n % 10))
    }
}

/// Decimal rendering of a signed 32-bit integer, as `format!` writes it.
pub open spec fn sp_i32_str(n: i32) -> Seq<char> {
    if n >= 0 {
        sp_nat_str(n as int)
    } else {
        seq!['-'] + sp_nat_str(-(n as int))
    }
}

/// Relies on String::push from std: appends one character.
#[verifier::external_body]
pub fn push_char(s: &mut String, c: char)
    ensures
        final(s)@ == old(s)@.push(c),
{
    s.push(c);
}

fn nat_to_string(m: u64) -> (s: String)
    ensures
        s@ == sp_nat_str(m as int),
    decreases m,
{
    if m < 10 {
        let mut s = String::new();
        push_char(&mut s, (m as u8 + 48) as char);
        assert(s@ =~= sp_nat_str(m as int));
        s
    } else {
        let mut s = nat_to_string(m / 10);
        push_char(&mut s, ((m % 10) as u8 + 48) as char);
        s
    }
}

/// Renders a 32-bit integer in decimal, with a leading `-` when negative.
pub fn i32_to_string(n: i32) -> (s: String)
    ensures
        s@ == sp_i32_str(n),
{
    if n >= 0 {
        nat_to_string(n as u64)
    } else {
        let m: u64 = ((-(n as i64)) as u64);
        let mut s = String::new();
        push_char(&mut s, '-');
        let digits = nat_to_string(m);
        s.append(digits.as_str());
        assert(s@ =~= sp_i32_str(n));
        s
    }
}

/// Is the character an ASCII decimal digit?
pub open spec fn sp_is_digit(c: char) -> bool {
    '0' <= c && c <= '9'
}

/// Are all characters ASCII decimal digits?
pub open spec fn sp_all_digits(w: Seq<char>) -> bool {
    forall|i: int| 0 <= i < w.len() ==> sp_is_digit(#[trigger] w[i])
}

/// Numeric value of a digit string, most significant digit first.
pub open spec fn sp_num_val(w: Seq<char>) -> int
    decreases w.len(),
{
    if w.len() == 0 {
        0
    } else {
        sp_num_val(w.drop_last()) * 10 + (w.last() as int - 48)
    }
}

/// What parsing a number-literal word as an i32 yields: the digits' value
/// when the word is all digits and the value fits, nothing otherwise.
pub open spec fn sp_parse_i32(w: Seq<char>) -> Option<i32> {
    if w.len() > 0 && sp_all_digits(w) && sp_num_val(w) <= i32::MAX {
        Some(sp_num_val(w) as i32)
    } else {
        None
    }
}

proof fn lemma_num_val_nonneg(w: Seq<char>)
    requires
        sp_all_digits(w),
    ensures
        sp_num_val(w) >= 0,
    decreases w.len(),
{
    if w.len() > 0 {
        assert(sp_all_digits(w.drop_last())) by {
            assert(forall|i: int|
                0 <= i < w.len() - 1 ==> sp_is_digit(#[trigger] w.drop_last()[i]) == sp_is_digit(
                    w[i],
                ));
        }
        lemma_num_val_nonneg(w.drop_last());
    }
}

proof fn lemma_num_val_prefix(w: Seq<char>, i: int)
    requires
        sp_all_digits(w),
        0 <= i <= w.len(),
    ensures
        sp_num_val(w.take(i)) <= sp_num_val(w),
    decreases w.len() - i,
{
    if i < w.len() {
        lemma_num_val_prefix(w, i + 1);
        assert(w.take(i + 1).drop_last() =~= w.take(i));
        assert(sp_all_digits(w.take(i + 1))) by {
            assert(forall|j: int|
                0 <= j < i + 1 ==> sp_is_digit(#[trigger] w.take(i + 1)[j]) == sp_is_digit(w[j]));
        }
        lemma_num_val_nonneg(w.take(i + 1));
        assert(sp_num_val(w.take(i)) * 10 + (w.take(i + 1).last() as int - 48) == sp_num_val(
            w.take(i + 1),
        ));
        assert(sp_is_digit(w[i]));
        assert(sp_all_digits(w.take(i))) by {
            assert(forall|j: int|
                0 <= j < i ==> sp_is_digit(#[trigger] w.take(i)[j]) == sp_is_digit(w[j]));
        }
        lemma_num_val_nonneg(w.take(i));
    } else {
        assert(w.take(i) =~= w);
    }
}

/// Parses a word as a 32-bit integer: succeeds exactly on all-digit words
/// whose value fits.
pub fn parse_i32_digits(w: &str) -> (r: Option<i32>)
    ensures
        r == sp_parse_i32(w@),
{
    let n = w.unicode_len();
    if n == 0 {
        return None;
    }
    let mut acc: i64 = 0;
    let mut i: usize = 0;
    while i < n
        invariant
            0 <= i <= n,
            n == w@.len(),
            sp_all_digits(w@.take(i as int)),
            acc == sp_num_val(w@.take(i as int)),
            0 <= acc <= i32::MAX,
        decreases n - i,
    {
        let c = w.get_char(i);
        if !(c >= '0' && c <= '9') {
            assert(!sp_all_digits(w@)) by {
                assert(!sp_is_digit(w@[i as int]));
            }
            return None;
        }
        let d: i64 = (c as u32 as i64) - 48;
        let next: i64 = acc * 10 + d;
        assert(w@.take(i + 1).drop_last() =~= w@.take(i as int));
        assert(sp_all_digits(w@.take(i + 1))) by {
            assert(forall|j: int|
                0 <= j < i + 1 ==> #[trigger] w@.take(i + 1)[j] == w@[j]);
        }
        if next > i32::MAX as i64 {
            proof {
                if sp_all_digits(w@) {
                    lemma_num_val_prefix(w@, i + 1);
                    assert(sp_num_val(w@) > i32::MAX);
                }
            }
            return None;
        }
        acc = next;
        i = i + 1;
    }
    assert(w@.take(n as int) =~= w@);
    Some(acc as i32)
}

/// Character-for-character string equality.
pub fn str_eq(a: &str, b: &str) -> (r: bool)
    ensures
        r == (a@ == b@),
{
    let na = a.unicode_len();
    let nb = b.unicode_len();
    if na != nb {
        return false;
    }
    let mut i: usize = 0;
    while i < na
        invariant
            0 <= i <= na,
            na == a@.len(),
            na == b@.len(),
            forall|j: int| 0 <= j < i ==> a@[j] == b@[j],
        decreases na - i,
    {
        if a.get_char(i) != b.get_char(i) {
            assert(a@[i as int] != b@[i as int]);
            return false;
        }
        i = i + 1;
    }
    assert(a@ =~= b@);
    true
}

} // verus!

