//! Segment naming: the bidirectional mapping between a segment identifier
//! and its on-disk filename.
//!
//! The filename is the identifier written as exactly twenty decimal digits
//! between a fixed prefix and a fixed extension. Fixed width makes the
//! encoding injective and makes lexicographic filename order agree with
//! numeric identifier order, so a recovery-time directory scan can rely on
//! directory listings.

use vstd::arithmetic::div_mod::lemma_fundamental_div_mod;
use vstd::arithmetic::div_mod::lemma_fundamental_div_mod_converse_mod;
use vstd::arithmetic::div_mod::lemma_mod_division_less_than_divisor;
use vstd::arithmetic::div_mod::lemma_small_mod;
use vstd::prelude::*;
use vstd::string::StrSliceExecFns;
use vstd::string::StringExecFns;

use crate::replay::SegmentId;

verus! {

/// How many decimal digits a filename carries: enough for every 64-bit
/// identifier.
pub const FILENAME_DIGITS: usize = 20;

/// The characters before the digits of every segment filename.
pub open spec fn filename_prefix() -> Seq<char> {
    seq!['C', 'o', 'm', 'm', 'i', 't', 'L', 'o', 'g', '-']
}

/// The characters after the digits of every segment filename.
pub open spec fn filename_suffix() -> Seq<char> {
    seq!['.', 'l', 'o', 'g']
}

/// Ten to the power `e`.
pub open spec fn pow10(e: nat) -> int
    decreases e,
{
    if e == 0 {
        1
    } else {
        10 * pow10((e - 1) as nat)
    }
}

/// The value of a decimal digit character, or `-1` for any other character.
pub open spec fn digit_val(c: char) -> int {
    if c == '0' {
        0
    } else if c == '1' {
        1
    } else if c == '2' {
        2
    } else if c == '3' {
        3
    } else if c == '4' {
        4
    } else if c == '5' {
        5
    } else if c == '6' {
        6
    } else if c == '7' {
        7
    } else if c == '8' {
        8
    } else if c == '9' {
        9
    } else {
        -1
    }
}

/// Whether `c` is a decimal digit character.
pub open spec fn is_digit(c: char) -> bool {
    digit_val(c) >= 0
}

/// The character for the decimal digit `d`.
pub open spec fn digit_char(d: int) -> char {
    if d == 0 {
        '0'
    } else if d == 1 {
        '1'
    } else if d == 2 {
        '2'
    } else if d == 3 {
        '3'
    } else if d == 4 {
        '4'
    } else if d == 5 {
        '5'
    } else if d == 6 {
        '6'
    } else if d == 7 {
        '7'
    } else if d == 8 {
        '8'
    } else {
        '9'
    }
}

/// The last `n` decimal digits of `id`, most significant first.
pub open spec fn digits_of(id: int, n: nat) -> Seq<char>
    decreases n,
{
    if n == 0 {
        Seq::empty()
    } else {
        digits_of(id / 10, (n - 1) as nat).push(digit_char(id % 10))
    }
}

/// The number written by a sequence of decimal digit characters.
pub open spec fn digits_val(s: Seq<char>) -> int
    decreases s.len(),
{
    if s.len() == 0 {
        0
    } else {
        digits_val(s.drop_last()) * 10 + digit_val(s.last())
    }
}

/// The canonical filename of segment `id`, as a character sequence.
pub open spec fn spec_filename(id: SegmentId) -> Seq<char> {
    filename_prefix() + digits_of(id as int, FILENAME_DIGITS as nat) + filename_suffix()
}

/// What parsing a filename yields: the identifier a canonical name encodes,
/// or nothing for any name that does not match the pattern, so that a
/// directory scan can skip foreign files silently.
pub open spec fn spec_parse(s: Seq<char>) -> Option<SegmentId> {
    if s.len() == 34 && s.subrange(0, 10) == filename_prefix() && s.subrange(30, 34)
        == filename_suffix() && (forall|j: int| 10 <= j < 30 ==> is_digit(#[trigger] s[j]))
        && digits_val(s.subrange(10, 30)) <= u64::MAX {
        Some(digits_val(s.subrange(10, 30)) as SegmentId)
    } else {
        None
    }
}

/// Writing `n` digits of a nonnegative number yields digit characters whose
/// value is the number's remainder modulo ten to the `n`.
proof fn lemma_digits_of_val(id: int, n: nat)
    requires
        id >= 0,
    ensures
        digits_of(id, n).len() == n,
        forall|j: int| 0 <= j < n ==> is_digit(#[trigger] digits_of(id, n)[j]),
        digits_val(digits_of(id, n)) == id % pow10(n),
    decreases n,
{
    lemma_pow10_pos(n);
    if n == 0 {
        assert(id % 1 == 0) by {
            lemma_small_mod(0, 1);
            lemma_fundamental_div_mod(id, 1);
            lemma_mod_division_less_than_divisor(id, 1);
        }
    } else {
        let m = (n - 1) as nat;
        let q = id / 10;
        assert(q >= 0 && id % 10 >= 0 && id % 10 < 10) by {
            lemma_fundamental_div_mod(id, 10);
            lemma_mod_division_less_than_divisor(id, 10);
            assert(q >= 0) by (nonlinear_arith)
                requires
                    id == 10 * q + id % 10,
                    id >= 0,
                    id % 10 < 10,
            ;
        }
        lemma_digits_of_val(q, m);
        let s = digits_of(id, n);
        let prev = digits_of(q, m);
        assert(s == prev.push(digit_char(id % 10)));
        assert(s.drop_last() =~= prev);
        assert(s.last() == digit_char(id % 10));
        assert(digit_val(digit_char(id % 10)) == id % 10);
        assert(digits_val(s) == (q % pow10(m)) * 10 + id % 10);
        let p = pow10(m);
        lemma_pow10_pos(m);
        assert(pow10(n) == 10 * p);
        lemma_fundamental_div_mod(id, 10);
        lemma_fundamental_div_mod(q, p);
        lemma_mod_division_less_than_divisor(q, p);
        assert(id == (q / p) * (10 * p) + ((q % p) * 10 + id % 10)) by (nonlinear_arith)
            requires
                id == 10 * q + id % 10,
                q == p * (q / p) + q % p,
        ;
        assert(0 <= (q % p) * 10 + id % 10 < 10 * p) by (nonlinear_arith)
            requires
                0 <= q % p < p,
                0 <= id % 10 < 10,
        ;
        lemma_fundamental_div_mod_converse_mod(id, 10 * p, q / p, (q % p) * 10 + id % 10);
        assert(forall|j: int| 0 <= j < n ==> is_digit(#[trigger] s[j])) by {
            assert(forall|j: int| 0 <= j < m ==> s[j] == #[trigger] prev[j]);
        }
    }
}

/// The concrete value of ten to the twenty: one more than the largest
/// number twenty digits can write.
proof fn lemma_pow10_20()
    ensures
        pow10(20) == 100000000000000000000,
{
    assert(pow10(0) == 1);
    assert(pow10(1) == 10);
    assert(pow10(2) == 100);
    assert(pow10(3) == 1000);
    assert(pow10(4) == 10000);
    assert(pow10(5) == 100000);
    assert(pow10(6) == 1000000);
    assert(pow10(7) == 10000000);
    assert(pow10(8) == 100000000);
    assert(pow10(9) == 1000000000);
    assert(pow10(10) == 10000000000);
    assert(pow10(11) == 100000000000);
    assert(pow10(12) == 1000000000000);
    assert(pow10(13) == 10000000000000);
    assert(pow10(14) == 100000000000000);
    assert(pow10(15) == 1000000000000000);
    assert(pow10(16) == 10000000000000000);
    assert(pow10(17) == 100000000000000000);
    assert(pow10(18) == 1000000000000000000);
    assert(pow10(19) == 10000000000000000000);
    assert(pow10(20) == 100000000000000000000);
}

/// Ten to any power is positive.
proof fn lemma_pow10_pos(e: nat)
    ensures
        pow10(e) >= 1,
    decreases e,
{
    if e > 0 {
        lemma_pow10_pos((e - 1) as nat);
    }
}

/// Ten to a smaller power is no larger.
proof fn lemma_pow10_increases(e1: nat, e2: nat)
    requires
        e1 <= e2,
    ensures
        pow10(e1) <= pow10(e2),
    decreases e2,
{
    if e1 < e2 {
        lemma_pow10_increases(e1, (e2 - 1) as nat);
        lemma_pow10_pos((e2 - 1) as nat);
    }
}

/// Law: parsing the canonical filename of any identifier gives that
/// identifier back (the naming round trip).
pub proof fn lemma_filename_round_trip(id: SegmentId)
    ensures
        spec_parse(spec_filename(id)) == Some(id),
{
    let s = spec_filename(id);
    let n = FILENAME_DIGITS as nat;
    lemma_digits_of_val(id as int, n);
    let digits = digits_of(id as int, n);
    assert(s.len() == 34);
    assert(s.subrange(0, 10) =~= filename_prefix());
    assert(s.subrange(30, 34) =~= filename_suffix());
    assert(s.subrange(10, 30) =~= digits);
    assert(forall|j: int| 10 <= j < 30 ==> is_digit(#[trigger] s[j])) by {
        assert(forall|j: int| 10 <= j < 30 ==> s[j] == #[trigger] digits[j - 10]);
    }
    lemma_pow10_20();
    lemma_small_mod(id as nat, pow10(20) as nat);
    assert(digits_val(s.subrange(10, 30)) == id);
}

/// Strict lexicographic order on character sequences: the two agree up to
/// some point, and there the first either ends or carries the smaller
/// character.
pub open spec fn lex_less(a: Seq<char>, b: Seq<char>) -> bool {
    exists|k: int|
        0 <= k <= a.len() && k <= b.len() && a.subrange(0, k) == b.subrange(0, k) && (if k
            == a.len() {
            k < b.len()
        } else {
            k < b.len() && (a[k] as u32) < (b[k] as u32)
        })
}

/// The digit characters order as their values do.
proof fn lemma_digit_char_ordered(d1: int, d2: int)
    requires
        0 <= d1 < d2 < 10,
    ensures
        (digit_char(d1) as u32) < (digit_char(d2) as u32),
{
}

/// Writing two numbers below ten to the `n` with the same `n` digits keeps
/// their order lexicographically.
proof fn lemma_digits_of_lex(a: int, b: int, n: nat)
    requires
        0 <= a < b < pow10(n),
    ensures
        lex_less(digits_of(a, n), digits_of(b, n)),
    decreases n,
{
    lemma_digits_of_val(a, n);
    lemma_digits_of_val(b, n);
    let da = digits_of(a, n);
    let db = digits_of(b, n);
    if n == 0 {
        assert(false);
    } else {
        let m = (n - 1) as nat;
        let fa = digits_of(a / 10, m);
        let fb = digits_of(b / 10, m);
        lemma_digits_of_val(a / 10, m);
        lemma_digits_of_val(b / 10, m);
        lemma_fundamental_div_mod(a, 10);
        lemma_fundamental_div_mod(b, 10);
        lemma_mod_division_less_than_divisor(a, 10);
        lemma_mod_division_less_than_divisor(b, 10);
        assert(a / 10 <= b / 10) by (nonlinear_arith)
            requires
                a == 10 * (a / 10) + a % 10,
                b == 10 * (b / 10) + b % 10,
                a < b,
                0 <= a % 10 < 10,
                0 <= b % 10 < 10,
        ;
        if a / 10 == b / 10 {
            assert(a % 10 < b % 10);
            assert(fa == fb);
            let k = m as int;
            assert(da.subrange(0, k) =~= db.subrange(0, k));
            lemma_digit_char_ordered(a % 10, b % 10);
            assert((da[k] as u32) < (db[k] as u32));
            assert(lex_less(da, db));
        } else {
            assert(a / 10 < pow10(m) && b / 10 < pow10(m)) by {
                assert(pow10(n) == 10 * pow10(m));
                lemma_pow10_pos(m);
                assert(a / 10 < pow10(m)) by (nonlinear_arith)
                    requires
                        a == 10 * (a / 10) + a % 10,
                        0 <= a % 10,
                        a < 10 * pow10(m),
                ;
                assert(b / 10 < pow10(m)) by (nonlinear_arith)
                    requires
                        b == 10 * (b / 10) + b % 10,
                        0 <= b % 10,
                        b < 10 * pow10(m),
                ;
            }
            lemma_digits_of_lex(a / 10, b / 10, m);
            let k = choose|k: int|
                0 <= k <= fa.len() && k <= fb.len() && fa.subrange(0, k) == fb.subrange(0, k) && (
                if k == fa.len() {
                    k < fb.len()
                } else {
                    k < fb.len() && (fa[k] as u32) < (fb[k] as u32)
                });
            assert(k < fa.len());
            assert(da.subrange(0, k) =~= db.subrange(0, k)) by {
                assert(forall|j: int|
                    0 <= j < k ==> da[j] == #[trigger] fa[j] && db[j] == #[trigger] fb[j]);
                assert(forall|j: int|
                    0 <= j < k ==> fa.subrange(0, k)[j] == #[trigger] fa[j] && fb.subrange(0, k)[j]
                        == #[trigger] fb[j]);
            }
            assert((da[k] as u32) < (db[k] as u32));
            assert(lex_less(da, db));
        }
    }
}

/// Law: filename order agrees with identifier order: the canonical name of
/// a smaller identifier sorts lexicographically before the canonical name of
/// a larger one, so directory listings may be relied on for ordering.
pub proof fn lemma_filename_order_matches_id_order(a: SegmentId, b: SegmentId)
    requires
        a < b,
    ensures
        lex_less(spec_filename(a), spec_filename(b)),
{
    let n = FILENAME_DIGITS as nat;
    lemma_pow10_20();
    lemma_digits_of_lex(a as int, b as int, n);
    let da = digits_of(a as int, n);
    let db = digits_of(b as int, n);
    lemma_digits_of_val(a as int, n);
    lemma_digits_of_val(b as int, n);
    let sa = spec_filename(a);
    let sb = spec_filename(b);
    let k = choose|k: int|
        0 <= k <= da.len() && k <= db.len() && da.subrange(0, k) == db.subrange(0, k) && (if k
            == da.len() {
            k < db.len()
        } else {
            k < db.len() && (da[k] as u32) < (db[k] as u32)
        });
    assert(k < da.len());
    let kk = k + 10;
    assert(forall|j: int| 0 <= j < k ==> da[j] == #[trigger] db[j]) by {
        assert(forall|j: int| 0 <= j < k ==> da.subrange(0, k)[j] == #[trigger] da[j]);
        assert(forall|j: int| 0 <= j < k ==> db.subrange(0, k)[j] == #[trigger] db[j]);
    }
    assert(forall|j: int| 0 <= j < kk ==> sa[j] == #[trigger] sb[j]) by {
        assert(forall|j: int|
            0 <= j < 10 ==> sa[j] == #[trigger] filename_prefix()[j] && sb[j]
                == filename_prefix()[j]);
        assert(forall|j: int| 10 <= j < kk ==> sa[j] == #[trigger] da[j - 10]);
        assert(forall|j: int| 10 <= j < kk ==> sb[j] == #[trigger] db[j - 10]);
    }
    assert(sa.subrange(0, kk) =~= sb.subrange(0, kk));
    assert(sa[kk] == da[k] && sb[kk] == db[k]);
    assert(lex_less(sa, sb));
}

/// Law: the filename encoding is injective: distinct identifiers never share
/// a filename.
pub proof fn lemma_filename_injective(a: SegmentId, b: SegmentId)
    requires
        spec_filename(a) == spec_filename(b),
    ensures
        a == b,
{
    lemma_filename_round_trip(a);
    lemma_filename_round_trip(b);
}

/// Derived from a segment identifier; produces the canonical filename and
/// can read a filename back into an identifier for directory-scan recovery.
#[derive(Clone, Copy, Debug, PartialEq, Eq, Structural)]
pub struct Descriptor {
    /// The identifier this descriptor names.
    pub id: SegmentId,
}

/// The one-character string for the decimal digit `d`.
fn digit_str(d: u64) -> (r: &'static str)
    requires
        d < 10,
    ensures
        r@ == seq![digit_char(d as int)],
{
    if d == 0 {
        proof {
            reveal_strlit("0");
            assert("0"@ =~= seq![digit_char(0)]);
        }
        "0"
    } else if d == 1 {
        proof {
            reveal_strlit("1");
            assert("1"@ =~= seq![digit_char(1)]);
        }
        "1"
    } else if d == 2 {
        proof {
            reveal_strlit("2");
            assert("2"@ =~= seq![digit_char(2)]);
        }
        "2"
    } else if d == 3 {
        proof {
            reveal_strlit("3");
            assert("3"@ =~= seq![digit_char(3)]);
        }
        "3"
    } else if d == 4 {
        proof {
            reveal_strlit("4");
            assert("4"@ =~= seq![digit_char(4)]);
        }
        "4"
    } else if d == 5 {
        proof {
            reveal_strlit("5");
            assert("5"@ =~= seq![digit_char(5)]);
        }
        "5"
    } else if d == 6 {
        proof {
            reveal_strlit("6");
            assert("6"@ =~= seq![digit_char(6)]);
        }
        "6"
    } else if d == 7 {
        proof {
            reveal_strlit("7");
            assert("7"@ =~= seq![digit_char(7)]);
        }
        "7"
    } else if d == 8 {
        proof {
            reveal_strlit("8");
            assert("8"@ =~= seq![digit_char(8)]);
        }
        "8"
    } else {
        proof {
            reveal_strlit("9");
            assert("9"@ =~= seq![digit_char(9)]);
        }
        "9"
    }
}

/// Appends the last `n` decimal digits of `id` to `s`, most significant
/// first.
fn push_digits(s: &mut String, id: u64, n: usize)
    ensures
        final (s)@ == old(s)@ + digits_of(id as int, n as nat),
    decreases n,
{
    if n == 0 {
        proof {
            assert(old(s)@ + digits_of(id as int, 0) =~= old(s)@);
        }
    } else {
        push_digits(s, id / 10, n - 1);
        s.append(digit_str(id % 10));
        proof {
            assert((id / 10) as int == (id as int) / 10);
            assert((id % 10) as int == (id as int) % 10);
            assert(old(s)@ + digits_of((id as int) / 10, (n - 1) as nat) + seq![
                digit_char((id as int) % 10),
            ] =~= old(s)@ + digits_of(id as int, n as nat));
        }
    }
}

impl Descriptor {
    /// Derives the descriptor of segment `id`. Deterministic and pure.
    pub fn create(id: SegmentId) -> (r: Descriptor)
        ensures
            r.id == id,
    {
        Descriptor { id }
    }

    /// The canonical on-disk filename of this descriptor's segment.
    pub fn filename(&self) -> (r: String)
        ensures
            r@ == spec_filename(self.id),
    {
        let mut s = String::from_str("CommitLog-");
        proof {
            reveal_strlit("CommitLog-");
            assert(s@ =~= filename_prefix());
        }
        push_digits(&mut s, self.id, FILENAME_DIGITS);
        s.append(".log");
        proof {
            reveal_strlit(".log");
            assert(s@ =~= spec_filename(self.id));
        }
        s
    }

    /// Reads a filename back into the identifier it encodes. Returns nothing
    /// (not an error) for a name that does not match the canonical pattern.
    pub fn parse(name: &str) -> (r: Option<SegmentId>)
        ensures
            r == spec_parse(name@),
    {
        let len = name.unicode_len();
        if len != 34 {
            return None;
        }
        let prefix = "CommitLog-";
        proof {
            reveal_strlit("CommitLog-");
            assert(prefix@ =~= filename_prefix());
        }
        let mut i: usize = 0;
        while i < 10
            invariant
                0 <= i <= 10,
                name@.len() == 34,
                prefix@ == filename_prefix(),
                forall|k: int| 0 <= k < i ==> name@[k] == filename_prefix()[k],
            decreases 10 - i,
        {
            if name.get_char(i) != prefix.get_char(i) {
                proof {
                    assert(name@.subrange(0, 10)[i as int] != filename_prefix()[i as int]);
                }
                return None;
            }
            i += 1;
        }
        let suffix = ".log";
        proof {
            reveal_strlit(".log");
            assert(suffix@ =~= filename_suffix());
        }
        let mut i: usize = 0;
        while i < 4
            invariant
                0 <= i <= 4,
                name@.len() == 34,
                suffix@ == filename_suffix(),
                forall|k: int| 0 <= k < i ==> name@[30 + k] == filename_suffix()[k],
            decreases 4 - i,
        {
            if name.get_char(30 + i) != suffix.get_char(i) {
                proof {
                    assert(name@.subrange(30, 34)[i as int] != filename_suffix()[i as int]);
                }
                return None;
            }
            i += 1;
        }
        let mut val: u128 = 0;
        let mut i: usize = 10;
        while i < 30
            invariant
                10 <= i <= 30,
                name@.len() == 34,
                forall|k: int| 10 <= k < i ==> is_digit(#[trigger] name@[k]),
                val == digits_val(name@.subrange(10, i as int)),
                0 <= val < pow10((i - 10) as nat),
            decreases 30 - i,
        {
            let c = name.get_char(i);
            let d: u128 = if c == '0' {
                0
            } else if c == '1' {
                1
            } else if c == '2' {
                2
            } else if c == '3' {
                3
            } else if c == '4' {
                4
            } else if c == '5' {
                5
            } else if c == '6' {
                6
            } else if c == '7' {
                7
            } else if c == '8' {
                8
            } else if c == '9' {
                9
            } else {
                proof {
                    assert(!is_digit(name@[i as int]));
                }
                return None;
            };
            proof {
                assert(pow10((i - 10) as nat) <= pow10(20)) by {
                    lemma_pow10_increases((i - 10) as nat, 20);
                }
                lemma_pow10_20();
                let sub = name@.subrange(10, i + 1);
                assert(sub.drop_last() =~= name@.subrange(10, i as int));
                assert(sub.last() == name@[i as int]);
                assert(digit_val(name@[i as int]) == d);
            }
            val = val * 10 + d;
            i += 1;
            proof {
                assert(pow10((i - 10) as nat) == 10 * pow10((i - 11) as nat));
            }
        }
        proof {
            assert(name@.subrange(10, 30) == name@.subrange(10, i as int));
        }
        if val > u64::MAX as u128 {
            return None;
        }
        proof {
            assert(name@.subrange(0, 10) =~= filename_prefix());
            assert(name@.subrange(30, 34) =~= filename_suffix());
        }
        Some(val as u64)
    }
}

} // verus!
