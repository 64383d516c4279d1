//! Small verified string helpers: equality and prefix tests over `&str`,
//! and decimal rendering of the integers that appear in dates, keys and
//! log metadata.

use vstd::prelude::*;

verus! {

/// Whether `a` and `b` are the same sequence of characters.
pub fn str_eq(a: &str, b: &str) -> (r: bool)
    ensures
        r == (a@ == b@),
{
    let a_len = a.unicode_len();
    let b_len = b.unicode_len();
    if a_len != b_len {
        assert(a@ != b@) by {
            assert(a@.len() != b@.len());
        }
        return false;
    }
    let mut i: usize = 0;
    while i < a_len
        invariant
            a_len == a@.len(),
            b_len == b@.len(),
            a_len == b_len,
            i <= a_len,
            forall|j: int| 0 <= j < i ==> a@[j] == b@[j],
        decreases a_len - i,
    {
        if a.get_char(i) != b.get_char(i) {
            return false;
        }
        i += 1;
    }
    proof {
        assert(a@ =~= b@);
    }
    true
}

/// Whether `p` is a prefix of `s`.
pub open spec fn spec_starts_with(s: Seq<char>, p: Seq<char>) -> bool {
    s.len() >= p.len() && s.subrange(0, p.len() as int) == p
}

pub fn str_starts_with(s: &str, p: &str) -> (r: bool)
    ensures
        r == spec_starts_with(s@, p@),
{
    let s_len = s.unicode_len();
    let p_len = p.unicode_len();
    if s_len < p_len {
        return false;
    }
    let mut i: usize = 0;
    while i < p_len
        invariant
            s_len == s@.len(),
            p_len == p@.len(),
            p_len <= s_len,
            i <= p_len,
            forall|j: int| 0 <= j < i ==> s@[j] == p@[j],
        decreases p_len - i,
    {
        if s.get_char(i) != p.get_char(i) {
            assert(!spec_starts_with(s@, p@)) by {
                assert(s@.subrange(0, p@.len() as int)[i as int] == s@[i as int]);
            }
            return false;
        }
        i += 1;
    }
    proof {
        assert(s@.subrange(0, p@.len() as int) =~= p@);
    }
    true
}

/// The character for a single decimal digit.
pub open spec fn spec_digit_char(d: int) -> char {
    if d == 0 {
        '0'
    } else if d == 1 {
        '1'
    } else if d == 2 {
        '2'
    } else if d == 3 {
        '3'
    } else if d == 4 {
        '4'
    } else if d == 5 {
        '5'
    } else if d == 6 {
        '6'
    } else if d == 7 {
        '7'
    } else if d == 8 {
        '8'
    } else {
        '9'
    }
}

fn digit_char(d: u64) -> (c: char)
    requires
        d < 10,
    ensures
        c == spec_digit_char(d as int),
{
    if d == 0 {
        '0'
    } else if d == 1 {
        '1'
    } else if d == 2 {
        '2'
    } else if d == 3 {
        '3'
    } else if d == 4 {
        '4'
    } else if d == 5 {
        '5'
    } else if d == 6 {
        '6'
    } else if d == 7 {
        '7'
    } else if d == 8 {
        '8'
    } else {
        '9'
    }
}

/// Decimal rendering of a non-negative integer, without leading zeroes
/// (a lone zero renders as "0").
pub open spec fn spec_decimal(n: int) -> Seq<char>
    decreases n,
{
    if n <= 0 {
        seq![spec_digit_char(0)]
    } else if n < 10 {
        seq![spec_digit_char(n)]
    } else {
        spec_decimal(n / 10).push(spec_digit_char(n % 10))
    }
}

/// Render `n` in decimal.
pub fn decimal_string(n: u64) -> (r: String)
    ensures
        r@ == spec_decimal(n as int),
{
    if n == 0 {
        let mut s = String::new();
        s.push('0');
        proof {
            assert(s@ =~= spec_decimal(0));
        }
        return s;
    }
    let mut digits: Vec<char> = Vec::new();
    let mut rest: u64 = n;
    while rest > 0
        invariant
            rest <= n,
            rest > 0 ==> spec_decimal(n as int) == spec_decimal(rest as int)
                + digits@.reverse(),
            rest == 0 ==> spec_decimal(n as int) == digits@.reverse(),
        decreases rest,
    {
        let ghost old_digits = digits@;
        let ghost old_rest = rest as int;
        let d = rest % 10;
        digits.push(digit_char(d));
        rest = rest / 10;
        proof {
            assert(digits@.reverse() =~= seq![spec_digit_char(old_rest % 10)]
                + old_digits.reverse());
            if rest > 0 {
                assert(spec_decimal(old_rest) == spec_decimal(old_rest / 10).push(
                    spec_digit_char(old_rest % 10),
                ));
                assert(spec_decimal(rest as int) + digits@.reverse() =~= (spec_decimal(
                    rest as int,
                ).push(spec_digit_char(old_rest % 10))) + old_digits.reverse());
            } else {
                assert(old_rest < 10);
                assert(spec_decimal(old_rest) =~= seq![spec_digit_char(old_rest)]);
                assert(digits@.reverse() =~= spec_decimal(old_rest) + old_digits.reverse());
            }
        }
    }
    let mut s = String::new();
    let mut i: usize = digits.len();
    while i > 0
        invariant
            i <= digits.len(),
            s@ =~= digits@.reverse().subrange(0, digits@.len() - i),
        decreases i,
    {
        i -= 1;
        s.push(digits[i]);
        proof {
            assert(s@ =~= digits@.reverse().subrange(0, digits@.len() - i));
        }
    }
    proof {
        assert(s@ =~= digits@.reverse());
    }
    s
}

/// The content of an optional string.
pub open spec fn view_opt_str(o: Option<String>) -> Option<Seq<char>> {
    match o {
        Option::None => None,
        Option::Some(s) => Some(s@),
    }
}

/// Whether two optional strings hold the same text.
pub open spec fn opt_str_eq(a: Option<String>, b: Option<String>) -> bool {
    match (a, b) {
        (Option::None, Option::None) => true,
        (Option::Some(x), Option::Some(y)) => x@ == y@,
        _ => false,
    }
}

/// Copy an optional string.
pub fn clone_opt_string(o: &Option<String>) -> (r: Option<String>)
    ensures
        opt_str_eq(r, *o),
{
    match o {
        Some(s) => Some(s.clone()),
        None => None,
    }
}

/// Lexicographic order on character sequences, by character code.
pub open spec fn spec_str_lt(a: Seq<char>, b: Seq<char>) -> bool
    decreases a.len(),
{
    if b.len() == 0 {
        false
    } else if a.len() == 0 {
        true
    } else if a[0] != b[0] {
        a[0] < b[0]
    } else {
        spec_str_lt(a.subrange(1, a.len() as int), b.subrange(1, b.len() as int))
    }
}

proof fn lemma_str_lt_step(a: Seq<char>, b: Seq<char>, i: int)
    requires
        0 <= i,
        i < a.len(),
        i < b.len(),
        a[i] == b[i],
    ensures
        spec_str_lt(a.subrange(i, a.len() as int), b.subrange(i, b.len() as int))
            == spec_str_lt(a.subrange(i + 1, a.len() as int), b.subrange(i + 1, b.len() as int)),
{
    let sa = a.subrange(i, a.len() as int);
    let sb = b.subrange(i, b.len() as int);
    assert(sa[0] == a[i]);
    assert(sb[0] == b[i]);
    assert(sa.subrange(1, sa.len() as int) =~= a.subrange(i + 1, a.len() as int));
    assert(sb.subrange(1, sb.len() as int) =~= b.subrange(i + 1, b.len() as int));
}

/// Whether `a` sorts strictly before `b` in lexicographic order.
pub fn str_lt(a: &str, b: &str) -> (r: bool)
    ensures
        r == spec_str_lt(a@, b@),
{
    let a_len = a.unicode_len();
    let b_len = b.unicode_len();
    let mut i: usize = 0;
    proof {
        assert(a@.subrange(0, a_len as int) =~= a@);
        assert(b@.subrange(0, b_len as int) =~= b@);
    }
    loop
        invariant
            a_len == a@.len(),
            b_len == b@.len(),
            i <= a_len,
            i <= b_len,
            spec_str_lt(a@, b@) == spec_str_lt(
                a@.subrange(i as int, a_len as int),
                b@.subrange(i as int, b_len as int),
            ),
        ensures
            spec_str_lt(a@, b@) == ({
                if i < b_len && i < a_len {
                    a@[i as int] < b@[i as int]
                } else {
                    i >= a_len && i < b_len
                }
            }),
        decreases a_len - i,
    {
        proof {
            assert(a@.subrange(0, a_len as int) =~= a@);
            assert(b@.subrange(0, b_len as int) =~= b@);
        }
        if i >= b_len {
            proof {
                assert(b@.subrange(i as int, b_len as int).len() == 0);
            }
            break ;
        }
        if i >= a_len {
            proof {
                assert(a@.subrange(i as int, a_len as int).len() == 0);
                assert(b@.subrange(i as int, b_len as int).len() > 0);
            }
            break ;
        }
        let ca = a.get_char(i);
        let cb = b.get_char(i);
        if ca != cb {
            proof {
                let sa = a@.subrange(i as int, a_len as int);
                let sb = b@.subrange(i as int, b_len as int);
                assert(sa[0] == a@[i as int]);
                assert(sb[0] == b@[i as int]);
            }
            break ;
        }
        proof {
            lemma_str_lt_step(a@, b@, i as int);
        }
        i += 1;
    }
    if i < b.unicode_len() && i < a.unicode_len() {
        a.get_char(i) < b.get_char(i)
    } else {
        i >= a.unicode_len() && i < b.unicode_len()
    }
}

/// Whether `a` sorts at or before `b` in lexicographic order.
pub fn str_le(a: &str, b: &str) -> (r: bool)
    ensures
        r == (spec_str_lt(a@, b@) || a@ == b@),
{
    if str_eq(a, b) {
        true
    } else {
        str_lt(a, b)
    }
}


/// Lexicographic order is irreflexive.
pub proof fn lemma_str_lt_irreflexive(a: Seq<char>)
    ensures
        !spec_str_lt(a, a),
    decreases a.len(),
{
    if a.len() > 0 {
        lemma_str_lt_irreflexive(a.subrange(1, a.len() as int));
    }
}

/// Lexicographic order is transitive.
pub proof fn lemma_str_lt_transitive(a: Seq<char>, b: Seq<char>, c: Seq<char>)
    requires
        spec_str_lt(a, b),
        spec_str_lt(b, c),
    ensures
        spec_str_lt(a, c),
    decreases a.len() + b.len() + c.len(),
{
    if b.len() == 0 {
        assert(false);
    } else if c.len() == 0 {
        assert(false);
    } else if a.len() == 0 {
    } else {
        if a[0] == b[0] && b[0] == c[0] {
            lemma_str_lt_transitive(
                a.subrange(1, a.len() as int),
                b.subrange(1, b.len() as int),
                c.subrange(1, c.len() as int),
            );
        }
    }
}

/// Decimal rendering of `n` left-padded with zeroes to at least `width`
/// characters.
pub open spec fn spec_zero_padded(n: int, width: int) -> Seq<char>
    decreases width,
{
    if spec_decimal(n).len() >= width {
        spec_decimal(n)
    } else {
        seq![spec_digit_char(0)] + spec_zero_padded(n, width - 1)
    }
}

/// Render `n` in decimal, left-padded with zeroes to at least `width`
/// characters.
pub fn zero_padded_string(n: u64, width: usize) -> (r: String)
    requires
        width <= 8,
    ensures
        r@ == spec_zero_padded(n as int, width as int),
{
    let core = decimal_string(n);
    let core_len = core.as_str().unicode_len();
    let mut pad: usize = 0;
    let mut s = String::new();
    while pad + core_len < width
        invariant
            core_len == spec_decimal(n as int).len(),
            core@ == spec_decimal(n as int),
            pad + core_len <= width || pad == 0,
            s@.len() == pad,
            spec_zero_padded(n as int, width as int) == s@ + spec_zero_padded(
                n as int,
                width - pad,
            ),
        decreases width - pad,
    {
        proof {
            assert(spec_zero_padded(n as int, width - pad) == seq![spec_digit_char(0)]
                + spec_zero_padded(n as int, width - pad - 1));
        }
        s.push('0');
        pad += 1;
        proof {
            assert(s@ + spec_zero_padded(n as int, width - pad) =~= s@.drop_last()
                + (seq![spec_digit_char(0)] + spec_zero_padded(n as int, width - pad)));
        }
    }
    proof {
        assert(spec_zero_padded(n as int, width - pad) == spec_decimal(n as int));
    }
    s.append(core.as_str());
    s
}

} // verus!
