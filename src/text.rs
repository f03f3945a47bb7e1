//! Splitting a line into whitespace-separated fields, and reading hexadecimal numbers.
use vstd::prelude::*;

verus! {

/// Whitespace that separates the fields of a line: the characters of the
/// Unicode White_Space property.
pub open spec fn is_space(c: char) -> bool {
    let u = c as u32;
    (0x09 <= u <= 0x0D) || u == 0x20 || u == 0x85 || u == 0xA0 || u == 0x1680 || (0x2000 <= u
        <= 0x200A) || u == 0x2028 || u == 0x2029 || u == 0x202F || u == 0x205F || u == 0x3000
}

/// The fields of `s` from position `i` on, where `cur` is the part of a field
/// already read before `i`.
pub open spec fn fields_from(s: Seq<char>, i: int, cur: Seq<char>) -> Seq<Seq<char>>
    decreases s.len() - i,
{
    if i >= s.len() {
        if cur.len() > 0 {
            seq![cur]
        } else {
            seq![]
        }
    } else if is_space(s[i]) {
        (if cur.len() > 0 {
            seq![cur]
        } else {
            seq![]
        }) + fields_from(s, i + 1, seq![])
    } else {
        fields_from(s, i + 1, cur.push(s[i]))
    }
}

/// The maximal runs of non-whitespace characters of `s`, in order.
pub open spec fn fields(s: Seq<char>) -> Seq<Seq<char>> {
    fields_from(s, 0, seq![])
}

/// What a list of character vectors holds.
pub open spec fn field_views(v: Seq<Vec<char>>) -> Seq<Seq<char>> {
    v.map_values(|f: Vec<char>| f@)
}

fn is_space_char(c: char) -> (r: bool)
    ensures
        r == is_space(c),
{
    let u = c as u32;
    (0x09 <= u && u <= 0x0D) || u == 0x20 || u == 0x85 || u == 0xA0 || u == 0x1680 || (0x2000 <= u
        && u <= 0x200A) || u == 0x2028 || u == 0x2029 || u == 0x202F || u == 0x205F || u == 0x3000
}

/// Splits `s` at whitespace into its non-empty fields.
pub fn split_fields(s: &str) -> (r: Vec<Vec<char>>)
    ensures
        field_views(r@) == fields(s@),
{
    let n = s.unicode_len();
    let mut out: Vec<Vec<char>> = Vec::new();
    let mut cur: Vec<char> = Vec::new();
    let mut i: usize = 0;
    while i < n
        invariant
            n == s@.len(),
            i <= n,
            field_views(out@) + fields_from(s@, i as int, cur@) == fields(s@),
        decreases n - i,
    {
        let c = s.get_char(i);
        let ghost old_out = out@;
        let ghost old_cur = cur@;
        if is_space_char(c) {
            if cur.len() > 0 {
                out.push(cur);
                cur = Vec::new();
                assert(field_views(out@) =~= field_views(old_out).push(old_cur));
                assert(field_views(out@) + fields_from(s@, i + 1, cur@) =~= field_views(old_out)
                    + (seq![old_cur] + fields_from(s@, i + 1, seq![])));
            } else {
                assert(seq![] + fields_from(s@, i + 1, seq![]) =~= fields_from(s@, i + 1, seq![]));
                assert(cur@ =~= seq![]);
            }
        } else {
            cur.push(c);
        }
        i += 1;
    }
    let ghost old_out = out@;
    if cur.len() > 0 {
        let ghost last = cur@;
        out.push(cur);
        assert(field_views(out@) =~= field_views(old_out) + seq![last]);
    } else {
        assert(field_views(out@) =~= field_views(old_out) + seq![]);
    }
    out
}

/// The value of a hexadecimal digit (either case), or -1 for any other character.
pub open spec fn hex_digit_value(c: char) -> int {
    let u = c as u32;
    if 48 <= u <= 57 {
        u - 48
    } else if 65 <= u <= 70 {
        u - 55
    } else if 97 <= u <= 102 {
        u - 87
    } else {
        -1
    }
}

pub open spec fn all_hex(s: Seq<char>) -> bool {
    forall|k: int| 0 <= k < s.len() ==> hex_digit_value(#[trigger] s[k]) >= 0
}

/// The number that a string of hexadecimal digits denotes, most significant first.
pub open spec fn hex_value(s: Seq<char>) -> nat
    decreases s.len(),
{
    if s.len() == 0 {
        0
    } else {
        hex_value(s.drop_last()) * 16 + hex_digit_value(s.last()) as nat
    }
}

/// A field read as a hexadecimal number no larger than `max`: `None` when it is
/// empty, holds another character, or denotes a larger number.
pub open spec fn hex_number(s: Seq<char>, max: nat) -> Option<nat> {
    if s.len() > 0 && all_hex(s) && hex_value(s) <= max {
        Some(hex_value(s))
    } else {
        None
    }
}

fn hex_digit(c: char) -> (r: i8)
    ensures
        r == hex_digit_value(c),
{
    let u = c as u32;
    if 48 <= u && u <= 57 {
        (u - 48) as i8
    } else if 65 <= u && u <= 70 {
        (u - 55) as i8
    } else if 97 <= u && u <= 102 {
        (u - 87) as i8
    } else {
        -1
    }
}

proof fn lemma_hex_prefix_grows(s: Seq<char>, j: int, k: int)
    requires
        0 <= j <= k <= s.len(),
        all_hex(s),
    ensures
        hex_value(s.take(j)) <= hex_value(s.take(k)),
    decreases k - j,
{
    if j < k {
        lemma_hex_prefix_grows(s, j, k - 1);
        assert(s.take(k).drop_last() =~= s.take(k - 1));
    }
}

/// Reads field `f` as a hexadecimal number no larger than `max`.
pub fn parse_hex(f: &Vec<char>, max: u32) -> (r: Option<u32>)
    ensures
        match hex_number(f@, max as nat) {
            Some(v) => r == Some(v as u32),
            None => r is None,
        },
{
    if f.len() == 0 {
        return None;
    }
    let mut acc: u64 = 0;
    let mut i: usize = 0;
    while i < f.len()
        invariant
            i <= f@.len(),
            acc == hex_value(f@.take(i as int)),
            acc <= max,
            forall|k: int| 0 <= k < i ==> hex_digit_value(#[trigger] f@[k]) >= 0,
        decreases f@.len() - i,
    {
        let d = hex_digit(f[i]);
        assert(f@.take(i + 1).drop_last() =~= f@.take(i as int));
        if d < 0 {
            return None;
        }
        let next = acc * 16 + d as u64;
        if next > max as u64 {
            proof {
                if all_hex(f@) {
                    lemma_hex_prefix_grows(f@, i + 1, f@.len() as int);
                    assert(f@.take(f@.len() as int) =~= f@);
                }
            }
            return None;
        }
        acc = next;
        i += 1;
    }
    assert(f@.take(f@.len() as int) =~= f@);
    Some(acc as u32)
}

/// The character of a digit below 16 (upper case for 10 to 15).
pub open spec fn digit_char(d: nat) -> char {
    if d == 0 {
        '0'
    } else if d == 1 {
        '1'
    } else if d == 2 {
        '2'
    } else if d == 3 {
        '3'
    } else if d == 4 {
        '4'
    } else if d == 5 {
        '5'
    } else if d == 6 {
        '6'
    } else if d == 7 {
        '7'
    } else if d == 8 {
        '8'
    } else if d == 9 {
        '9'
    } else if d == 10 {
        'A'
    } else if d == 11 {
        'B'
    } else if d == 12 {
        'C'
    } else if d == 13 {
        'D'
    } else if d == 14 {
        'E'
    } else {
        'F'
    }
}

/// `n` in base `b` (10 or 16), with leading zeros up to at least `w` digits.
pub open spec fn padded_digits(n: nat, b: nat, w: nat) -> Seq<char>
    recommends
        b == 10 || b == 16,
    decreases n + w,
    when b >= 2
    via padded_digits_decreases
{
    if n < b && w <= 1 {
        seq![digit_char(n)]
    } else {
        padded_digits(n / b, b, if w > 0 {
            (w - 1) as nat
        } else {
            0
        }).push(digit_char(n % b))
    }
}

#[via_fn]
proof fn padded_digits_decreases(n: nat, b: nat, w: nat) {
    if b >= 2 {
        assert(n / b <= n) by (nonlinear_arith)
            requires
                b >= 2,
        ;
        if n >= b {
            assert(n / b < n) by (nonlinear_arith)
                requires
                    b >= 2,
                    n >= b,
            ;
        }
    }
}

/// Relies on `String::push`: the character is appended at the end.
#[verifier::external_body]
pub(crate) fn push_char(s: &mut String, c: char)
    ensures
        final(s)@ == old(s)@.push(c),
{
    s.push(c)
}

fn digit_to_char(d: u32) -> (r: char)
    requires
        d < 16,
    ensures
        r == digit_char(d as nat),
{
    match d {
        0 => '0',
        1 => '1',
        2 => '2',
        3 => '3',
        4 => '4',
        5 => '5',
        6 => '6',
        7 => '7',
        8 => '8',
        9 => '9',
        10 => 'A',
        11 => 'B',
        12 => 'C',
        13 => 'D',
        14 => 'E',
        _ => 'F',
    }
}

/// Appends `n` in base `b` with leading zeros up to at least `w` digits.
pub fn push_padded(s: &mut String, n: u32, b: u32, w: u32)
    requires
        b == 10 || b == 16,
    ensures
        final(s)@ == old(s)@ + padded_digits(n as nat, b as nat, w as nat),
    decreases n + w,
{
    if n < b && w <= 1 {
        push_char(s, digit_to_char(n));
        assert(padded_digits(n as nat, b as nat, w as nat) == seq![digit_char(n as nat)]);
        assert(old(s)@.push(digit_char(n as nat)) =~= old(s)@ + seq![digit_char(n as nat)]);
    } else {
        let w2: u32 = if w > 0 {
            w - 1
        } else {
            0
        };
        push_padded(s, n / b, b, w2);
        push_char(s, digit_to_char(n % b));
        assert(final(s)@ =~= old(s)@ + padded_digits(n as nat, b as nat, w as nat));
    }
}

/// `w` holds no whitespace.
pub open spec fn no_space(w: Seq<char>) -> bool {
    forall|k: int| 0 <= k < w.len() ==> !is_space(#[trigger] w[k])
}

proof fn lemma_fields_shift(p: Seq<char>, r: Seq<char>, j: int, cur: Seq<char>)
    requires
        0 <= j <= r.len(),
    ensures
        fields_from(p + r, p.len() + j, cur) == fields_from(r, j, cur),
    decreases r.len() - j,
{
    if j < r.len() {
        assert((p + r)[p.len() + j] == r[j]);
        lemma_fields_shift(p, r, j + 1, seq![]);
        lemma_fields_shift(p, r, j + 1, cur.push(r[j]));
    }
}

proof fn lemma_fields_split(a: Seq<char>, b: Seq<char>, i: int, cur: Seq<char>)
    requires
        0 <= i <= a.len(),
    ensures
        fields_from(a + seq![' '] + b, i, cur) == fields_from(a, i, cur) + fields(b),
    decreases a.len() - i,
{
    let s = a + seq![' '] + b;
    let opt: Seq<Seq<char>> = if cur.len() > 0 {
        seq![cur]
    } else {
        seq![]
    };
    if i == a.len() {
        assert(s[i] == ' ');
        assert(s =~= (a + seq![' ']) + b);
        lemma_fields_shift(a + seq![' '], b, 0, seq![]);
        assert(fields_from(a, i, cur) == opt);
    } else {
        assert(s[i] == a[i]);
        if is_space(a[i]) {
            lemma_fields_split(a, b, i + 1, seq![]);
            assert(opt + (fields_from(a, i + 1, seq![]) + fields(b)) =~= (opt + fields_from(
                a,
                i + 1,
                seq![],
            )) + fields(b));
        } else {
            lemma_fields_split(a, b, i + 1, cur.push(a[i]));
        }
    }
}

/// A space between two texts separates their fields.
pub proof fn lemma_fields_join(a: Seq<char>, b: Seq<char>)
    ensures
        fields(a + seq![' '] + b) == fields(a) + fields(b),
{
    lemma_fields_split(a, b, 0, seq![]);
}

proof fn lemma_fields_word_from(w: Seq<char>, i: int)
    requires
        0 < w.len(),
        0 <= i <= w.len(),
        no_space(w),
    ensures
        fields_from(w, i, w.take(i)) == seq![w],
    decreases w.len() - i,
{
    if i < w.len() {
        assert(w.take(i).push(w[i]) =~= w.take(i + 1));
        lemma_fields_word_from(w, i + 1);
    } else {
        assert(w.take(i) =~= w);
    }
}

/// A text without whitespace is one field.
pub proof fn lemma_fields_word(w: Seq<char>)
    requires
        0 < w.len(),
        no_space(w),
    ensures
        fields(w) == seq![w],
{
    assert(w.take(0) =~= seq![]);
    lemma_fields_word_from(w, 0);
}

proof fn lemma_digit_char(d: nat)
    requires
        d < 16,
    ensures
        !is_space(digit_char(d)),
        hex_digit_value(digit_char(d)) == d,
        d < 10 ==> 48 <= digit_char(d) as u32 <= 57 && digit_char(d) as u32 - 48 == d,
{
}

/// Digits written with `padded_digits` hold no whitespace, and in base 16 they
/// read back as the number.
pub proof fn lemma_padded_digits(n: nat, b: nat, w: nat)
    requires
        b == 10 || b == 16,
    ensures
        padded_digits(n, b, w).len() > 0,
        no_space(padded_digits(n, b, w)),
        b == 16 ==> all_hex(padded_digits(n, b, w)) && hex_value(padded_digits(n, b, w)) == n,
    decreases n + w,
{
    let p = padded_digits(n, b, w);
    if n < b && w <= 1 {
        lemma_digit_char(n);
        assert(p == seq![digit_char(n)]);
        assert(p.drop_last() =~= seq![]);
        assert(p.last() == digit_char(n));
        if b == 16 {
            assert(hex_value(seq![]) == 0);
            assert(hex_value(p) == n);
        }
    } else {
        let w2: nat = if w > 0 {
            (w - 1) as nat
        } else {
            0
        };
        assert(n / b <= n) by (nonlinear_arith)
            requires
                b >= 2,
        ;
        if n >= b {
            assert(n / b < n) by (nonlinear_arith)
                requires
                    b >= 2,
                    n >= b,
            ;
        }
        lemma_padded_digits(n / b, b, w2);
        lemma_digit_char(n % b);
        let q = padded_digits(n / b, b, w2);
        assert(p == q.push(digit_char(n % b)));
        assert(p.drop_last() =~= q);
        assert(forall|k: int| 0 <= k < q.len() ==> p[k] == q[k]);
        if b == 16 {
            assert((n / 16) * 16 + n % 16 == n) by (nonlinear_arith);
            assert(hex_value(p) == n);
            assert(all_hex(p));
        }
    }
}

} // verus!
