//! Small text helpers: decimal rendering of counters and byte-wise ordering
//! of strings.
use std::cmp::Ordering;
use vstd::prelude::*;
use vstd::string::StringSliceAdditionalSpecFns;

verus! {

pub open spec fn digit_char(d: nat) -> char {
    if d == 0 {
        '0'
    } else if d == 1 {
        '1'
    } else if d == 2 {
        '2'
    } else if d == 3 {
        '3'
    } else if d == 4 {
        '4'
    } else if d == 5 {
        '5'
    } else if d == 6 {
        '6'
    } else if d == 7 {
        '7'
    } else if d == 8 {
        '8'
    } else {
        '9'
    }
}

/// Decimal digits of `n`, most significant first, without leading zeros.
pub open spec fn decimal_digits(n: nat) -> Seq<char>
    decreases n,
{
    if n < 10 {
        seq![digit_char(n)]
    } else {
        decimal_digits(n / 10).push(digit_char(n % 10))
    }
}

/// Relies on `u128`'s `Display`: its decimal digits.
#[verifier::external_body]
pub(crate) fn u128_text(n: u128) -> (r: String)
    ensures
        r@ == decimal_digits(n as nat),
{
    n.to_string()
}

/// Lexicographic order of byte strings, as `Ord` for `[u8]` and `String` has it.
pub open spec fn bytes_cmp(a: Seq<u8>, b: Seq<u8>) -> Ordering
    decreases a.len(),
{
    if a.len() == 0 {
        if b.len() == 0 {
            Ordering::Equal
        } else {
            Ordering::Less
        }
    } else if b.len() == 0 {
        Ordering::Greater
    } else if a[0] < b[0] {
        Ordering::Less
    } else if a[0] > b[0] {
        Ordering::Greater
    } else {
        bytes_cmp(a.drop_first(), b.drop_first())
    }
}

pub proof fn lemma_bytes_cmp_equal(a: Seq<u8>, b: Seq<u8>)
    ensures
        bytes_cmp(a, b) == Ordering::Equal <==> a == b,
    decreases a.len(),
{
    if a.len() == 0 && b.len() == 0 {
        assert(a =~= b);
    } else if a.len() == 0 || b.len() == 0 {
        assert(a.len() != b.len());
    } else {
        lemma_bytes_cmp_equal(a.drop_first(), b.drop_first());
        if a.drop_first() == b.drop_first() && a[0] == b[0] {
            assert(a =~= seq![a[0]] + a.drop_first());
            assert(b =~= seq![b[0]] + b.drop_first());
        }
        if a == b {
            assert(a.drop_first() == b.drop_first());
        }
    }
}

pub proof fn lemma_bytes_cmp_antisymmetric(a: Seq<u8>, b: Seq<u8>)
    ensures
        bytes_cmp(a, b) == Ordering::Less <==> bytes_cmp(b, a) == Ordering::Greater,
    decreases a.len(),
{
    if a.len() > 0 && b.len() > 0 {
        lemma_bytes_cmp_antisymmetric(a.drop_first(), b.drop_first());
    }
}

pub proof fn lemma_bytes_cmp_transitive(a: Seq<u8>, b: Seq<u8>, c: Seq<u8>)
    requires
        bytes_cmp(a, b) == Ordering::Less,
        bytes_cmp(b, c) == Ordering::Less,
    ensures
        bytes_cmp(a, c) == Ordering::Less,
    decreases a.len(),
{
    if a.len() > 0 && b.len() > 0 && c.len() > 0 {
        if a[0] == b[0] && b[0] == c[0] {
            lemma_bytes_cmp_transitive(a.drop_first(), b.drop_first(), c.drop_first());
        }
    }
}

/// Compares two strings byte by byte.
pub fn compare_text(a: &str, b: &str) -> (r: Ordering)
    ensures
        r == bytes_cmp(a.spec_bytes(), b.spec_bytes()),
{
    let x = a.as_bytes();
    let y = b.as_bytes();
    let ghost sx = x@;
    let ghost sy = y@;
    let mut i: usize = 0;
    proof {
        assert(sx.skip(0) =~= sx);
        assert(sy.skip(0) =~= sy);
    }
    while i < x.len() && i < y.len()
        invariant
            x@ == sx,
            y@ == sy,
            sx == a.spec_bytes(),
            sy == b.spec_bytes(),
            i <= sx.len(),
            i <= sy.len(),
            bytes_cmp(sx, sy) == bytes_cmp(sx.skip(i as int), sy.skip(i as int)),
        decreases sx.len() - i,
    {
        proof {
            assert(sx.skip(i as int).len() > 0 && sy.skip(i as int).len() > 0);
            assert(sx.skip(i as int)[0] == sx[i as int]);
            assert(sy.skip(i as int)[0] == sy[i as int]);
        }
        if x[i] < y[i] {
            return Ordering::Less;
        }
        if x[i] > y[i] {
            return Ordering::Greater;
        }
        proof {
            assert(sx.skip(i as int).drop_first() =~= sx.skip(i + 1));
            assert(sy.skip(i as int).drop_first() =~= sy.skip(i + 1));
        }
        i = i + 1;
    }
    proof {
        assert(sx.skip(i as int).len() == sx.len() - i);
        assert(sy.skip(i as int).len() == sy.len() - i);
    }
    if i < x.len() {
        Ordering::Greater
    } else if i < y.len() {
        Ordering::Less
    } else {
        Ordering::Equal
    }
}

} // verus!
