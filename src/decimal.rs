use vstd::prelude::*;
use crate::literal::{all_digits, is_digit};

verus! {

pub open spec fn strip_leading_zeros(s: Seq<char>) -> Seq<char>
    decreases s.len(),
{
    if s.len() > 0 && s[0] == '0' {
        strip_leading_zeros(s.drop_first())
    } else {
        s
    }
}

pub open spec fn strip_trailing_zeros(s: Seq<char>) -> Seq<char>
    decreases s.len(),
{
    if s.len() > 0 && s.last() == '0' {
        strip_trailing_zeros(s.drop_last())
    } else {
        s
    }
}

/// `s` is digits, a '.' at `p`, and digits.
pub open spec fn plain_point(s: Seq<char>, p: int) -> bool {
    &&& 0 <= p < s.len()
    &&& s[p] == '.'
    &&& all_digits(s.take(p))
    &&& all_digits(s.skip(p + 1))
}

/// The shortest text of the number with integer digits `ip` and fraction digits `fp`.
pub open spec fn normal_parts(ip: Seq<char>, fp: Seq<char>) -> Seq<char> {
    let i = strip_leading_zeros(ip);
    let f = strip_trailing_zeros(fp);
    let whole = if i.len() == 0 {
        seq!['0']
    } else {
        i
    };
    if f.len() == 0 {
        whole
    } else {
        whole + seq!['.'] + f
    }
}

/// The canonical text of a float numeral: a plain decimal loses its leading
/// zeros, its trailing fraction zeros and a bare point ("02.50" is "2.5",
/// "3.0" is "3"), so two plain decimals of equal value have equal text. Any
/// other numeral (with an exponent, say) stays as written.
pub open spec fn float_text(s: Seq<char>) -> Seq<char> {
    if exists|p: int| plain_point(s, p) {
        let p = choose|p: int| plain_point(s, p);
        normal_parts(s.take(p), s.skip(p + 1))
    } else {
        s
    }
}

/// The canonical text of a float numeral.
pub fn normal_float(s: &String) -> (r: String)
    ensures
        r@ == float_text(s@),
{
    let n = s.as_str().unicode_len();
    let mut p: usize = 0;
    while p < n && s.as_str().get_char(p) != '.'
        invariant
            n == s@.len(),
            p <= n,
            forall|j: int| 0 <= j < p ==> s@[j] != '.',
        decreases n - p,
    {
        p = p + 1;
    }
    let mut plain = p < n;
    let mut j: usize = 0;
    while plain && j < n
        invariant
            n == s@.len(),
            p <= n,
            forall|k: int| 0 <= k < p ==> s@[k] != '.',
            plain ==> p < n && s@[p as int] == '.',
            plain ==> forall|k: int| 0 <= k < j && k != p ==> is_digit(s@[k]),
            !plain ==> !(exists|q: int| plain_point(s@, q)),
        decreases n - j,
    {
        if j != p {
            let c = s.as_str().get_char(j);
            if !('0' <= c && c <= '9') {
                proof {
                    assert forall|q: int| !plain_point(s@, q) by {
                        if plain_point(s@, q) {
                            if q > p {
                                assert(s@.take(q)[p as int] == '.');
                            } else if q < p {
                            } else if j < p {
                                assert(s@.take(q)[j as int] == c);
                            } else {
                                assert(s@.skip(q + 1)[j - q - 1] == c);
                            }
                        }
                    }
                }
                plain = false;
            }
        }
        j = j + 1;
    }
    if !plain {
        proof {
            if p == n {
                assert forall|q: int| !plain_point(s@, q) by {}
            }
        }
        return s.clone();
    }
    proof {
        assert(all_digits(s@.take(p as int)));
        assert(all_digits(s@.skip(p + 1)));
        assert(plain_point(s@, p as int));
        assert forall|q: int| plain_point(s@, q) implies q == p by {
            if q > p {
                assert(s@.take(q)[p as int] == '.');
            }
        }
    }
    let ghost ip = s@.take(p as int);
    let ghost fp = s@.skip(p + 1);
    let mut a: usize = 0;
    assert(s@.subrange(0, p as int) =~= ip);
    while a < p && s.as_str().get_char(a) == '0'
        invariant
            a <= p < n,
            n == s@.len(),
            ip == s@.take(p as int),
            strip_leading_zeros(ip) == strip_leading_zeros(s@.subrange(a as int, p as int)),
        decreases p - a,
    {
        assert(s@.subrange(a as int, p as int).drop_first() =~= s@.subrange(a + 1, p as int));
        a = a + 1;
    }
    let mut b: usize = n;
    assert(s@.subrange(p + 1, n as int) =~= fp);
    while b > p + 1 && s.as_str().get_char(b - 1) == '0'
        invariant
            p + 1 <= b <= n,
            n == s@.len(),
            fp == s@.skip(p + 1),
            strip_trailing_zeros(fp) == strip_trailing_zeros(s@.subrange(p + 1, b as int)),
        decreases b,
    {
        assert(s@.subrange(p + 1, b as int).drop_last() =~= s@.subrange(p + 1, b - 1));
        b = b - 1;
    }
    let mut out = if a == p {
        assert(s@.subrange(a as int, p as int) =~= Seq::<char>::empty());
        proof { reveal_strlit("0"); }
        String::from_str("0")
    } else {
        String::from_str(s.as_str().substring_char(a, p))
    };
    if b > p + 1 {
        proof { reveal_strlit("."); }
        out.append(".");
        out.append(s.as_str().substring_char(p + 1, b));
    } else {
        assert(s@.subrange(p + 1, b as int) =~= Seq::<char>::empty());
    }
    assert(out@ =~= normal_parts(ip, fp));
    out
}

} // verus!
