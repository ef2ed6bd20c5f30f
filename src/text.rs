use vstd::prelude::*;
use vstd::string::{StrSliceExecFns, StringExecFns};

verus! {

/// The character of a decimal digit.
pub open spec fn digit_char(d: nat) -> char {
    seq!['0', '1', '2', '3', '4', '5', '6', '7', '8', '9'][d as int]
}

/// The decimal writing of a natural number, without leading zeros.
pub open spec fn decimal(n: nat) -> Seq<char>
    decreases n,
{
    if n < 10 {
        seq![digit_char(n)]
    } else {
        decimal(n / 10).push(digit_char(n % 10))
    }
}

/// A path with every pair `//` read left to right written as one `/`
/// (as a non-overlapping replacement would do).
pub open spec fn collapse_slashes(s: Seq<char>) -> Seq<char>
    decreases s.len(),
{
    if s.len() < 2 {
        s
    } else if s[0] == '/' && s[1] == '/' {
        seq!['/'] + collapse_slashes(s.subrange(2, s.len() as int))
    } else {
        seq![s[0]] + collapse_slashes(s.subrange(1, s.len() as int))
    }
}

fn digit_str(d: u16) -> (r: &'static str)
    requires
        d < 10,
    ensures
        r@ == seq![digit_char(d as nat)],
{
    proof {
        reveal_strlit("0");
        reveal_strlit("1");
        reveal_strlit("2");
        reveal_strlit("3");
        reveal_strlit("4");
        reveal_strlit("5");
        reveal_strlit("6");
        reveal_strlit("7");
        reveal_strlit("8");
        reveal_strlit("9");
    }
    match d {
        0 => "0",
        1 => "1",
        2 => "2",
        3 => "3",
        4 => "4",
        5 => "5",
        6 => "6",
        7 => "7",
        8 => "8",
        _ => "9",
    }
}

/// Writes `n` in decimal.
pub fn decimal_string(n: u16) -> (r: String)
    ensures
        r@ == decimal(n as nat),
    decreases n,
{
    if n < 10 {
        String::from_str(digit_str(n))
    } else {
        let mut s = decimal_string(n / 10);
        s.append(digit_str(n % 10));
        s
    }
}

/// Whether two strings hold the same characters.
pub fn same_text(a: &str, b: &str) -> (r: bool)
    ensures
        r == (a@ == b@),
{
    let n = a.unicode_len();
    if n != b.unicode_len() {
        return false;
    }
    let mut i: usize = 0;
    while i < n
        invariant
            n == a@.len() == b@.len(),
            i <= n,
            a@.subrange(0, i as int) == b@.subrange(0, i as int),
        decreases n - i,
    {
        if a.get_char(i) != b.get_char(i) {
            assert(a@[i as int] != b@[i as int]);
            return false;
        }
        assert(a@.subrange(0, i + 1) =~= a@.subrange(0, i as int).push(a@[i as int]));
        assert(b@.subrange(0, i + 1) =~= b@.subrange(0, i as int).push(b@[i as int]));
        i = i + 1;
    }
    assert(a@ =~= a@.subrange(0, n as int));
    assert(b@ =~= b@.subrange(0, n as int));
    true
}

/// Replaces each `//` of `path`, read left to right, by `/`.
pub fn collapse_double_slashes(path: &str) -> (r: String)
    ensures
        r@ == collapse_slashes(path@),
{
    let n = path.unicode_len();
    let mut r = String::new();
    let mut start: usize = 0;
    let mut i: usize = 0;
    let ghost s = path@;
    assert(s.subrange(0, n as int) =~= s);
    assert(r@ + s.subrange(0, 0) =~= Seq::<char>::empty());
    while n - i >= 2
        invariant
            s == path@,
            n == s.len(),
            start <= i <= n,
            r@ + s.subrange(start as int, i as int) + collapse_slashes(s.subrange(i as int, n as int))
                == collapse_slashes(s),
        decreases n - i,
    {
        let c0 = path.get_char(i);
        let c1 = path.get_char(i + 1);
        let ghost rest = s.subrange(i as int, n as int);
        if c0 == '/' && c1 == '/' {
            let piece = path.substring_char(start, i + 1);
            r.append(piece);
            proof {
                assert(rest.subrange(2, rest.len() as int) =~= s.subrange(i + 2, n as int));
                assert(s.subrange(start as int, i as int).push('/') =~= s.subrange(start as int, i + 1));
            }
            start = i + 2;
            i = i + 2;
            assert(s.subrange(start as int, i as int) =~= Seq::<char>::empty());
        } else {
            proof {
                assert(rest.subrange(1, rest.len() as int) =~= s.subrange(i + 1, n as int));
                assert(s.subrange(start as int, i as int) + seq![s[i as int]] =~= s.subrange(start as int, i + 1));
            }
            i = i + 1;
        }
    }
    let tail = path.substring_char(start, n);
    r.append(tail);
    proof {
        assert(s.subrange(start as int, i as int) + s.subrange(i as int, n as int) =~= s.subrange(start as int, n as int));
    }
    r
}

} // verus!
