//! The grid of a domain: evenly spaced coordinates along each axis.

use vstd::prelude::*;
use vstd::arithmetic::div_mod::{lemma_fundamental_div_mod, lemma_fundamental_div_mod_converse};
use crate::Domain;
use crate::fixed::{Fixed, in_range};
use crate::vector::Point;

verus! {

/// The `i`-th of `n` evenly spaced numbers from `a` to `b`, both included: `a` moved
/// towards `b` by the fraction `i / (n - 1)` of their distance, rounded towards `a`.
/// A single number is `a` itself. Where `b` is less than `a`, the numbers descend.
pub open spec fn coordinate(a: int, b: int, n: int, i: int) -> int {
    if n <= 1 {
        a
    } else if a <= b {
        a + ((b - a) * i) / (n - 1)
    } else {
        a - ((a - b) * i) / (n - 1)
    }
}

/// The point of the plane at column `i` and row `j` of the grid of a domain.
pub open spec fn grid_point(domain: Domain, i: int, j: int) -> Point {
    Point {
        x: coordinate(domain.p0.x@, domain.p1.x@, domain.steps.x as int, i),
        y: coordinate(domain.p0.y@, domain.p1.y@, domain.steps.y as int, j),
        z: 0,
    }
}

/// The first of two or more evenly spaced numbers is `a` and the last is `b`.
pub proof fn lemma_coordinate_ends(a: int, b: int, n: int)
    requires
        2 <= n,
    ensures
        coordinate(a, b, n, 0) == a,
        coordinate(a, b, n, n - 1) == b,
{
    let d = if a <= b { b - a } else { a - b };
    lemma_split_quotient(d, 0, n - 1);
    lemma_split_quotient(d, n - 1, n - 1);
    assert((d * 0) / (n - 1) == 0) by (nonlinear_arith)
        requires
            (d * 0) / (n - 1) == (d / (n - 1)) * 0 + ((d % (n - 1)) * 0) / (n - 1),
            n - 1 > 0,
    ;
    assert((d * (n - 1)) / (n - 1) == d) by {
        vstd::arithmetic::div_mod::lemma_div_multiples_vanish(d, n - 1);
        assert(d * (n - 1) == (n - 1) * d) by (nonlinear_arith);
    }
}

/// Evenly spaced numbers lie between `a` and `b`, and none comes before its predecessor on
/// the way from `a` to `b`.
pub proof fn lemma_coordinate_between(a: int, b: int, n: int, i: int)
    requires
        0 <= i < n,
    ensures
        a <= b ==> a <= coordinate(a, b, n, i) <= b,
        b <= a ==> b <= coordinate(a, b, n, i) <= a,
        a <= b && i + 1 < n ==> coordinate(a, b, n, i) <= coordinate(a, b, n, i + 1),
        b <= a && i + 1 < n ==> coordinate(a, b, n, i) >= coordinate(a, b, n, i + 1),
{
    if n >= 2 {
        let d = if a <= b { b - a } else { a - b };
        lemma_split_quotient(d, i, n - 1);
        if i + 1 < n {
            lemma_split_quotient(d, i + 1, n - 1);
            assert(d * i <= d * (i + 1)) by (nonlinear_arith)
                requires
                    0 <= d,
            ;
            vstd::arithmetic::div_mod::lemma_div_is_ordered(d * i, d * (i + 1), n - 1);
        }
    }
}

proof fn lemma_split_quotient(d: int, i: int, m: int)
    requires
        0 <= d,
        0 <= i <= m,
        0 < m,
    ensures
        (d * i) / m == (d / m) * i + ((d % m) * i) / m,
        0 <= (d * i) / m <= d,
        0 <= (d / m) * i <= d,
        0 <= (d % m) * i <= (m - 1) * m,
{
    let q = d / m;
    let r = d % m;
    lemma_fundamental_div_mod(d, m);
    let t = (r * i) / m;
    let u = (r * i) % m;
    lemma_fundamental_div_mod(r * i, m);
    assert(d * i == (q * i + t) * m + u) by (nonlinear_arith)
        requires
            d == m * q + r,
            r * i == m * t + u,
    ;
    lemma_fundamental_div_mod_converse(d * i, m, q * i + t, u);
    assert(0 <= r * i <= (m - 1) * m) by (nonlinear_arith)
        requires
            0 <= r <= m - 1,
            0 <= i <= m,
    ;
    assert(0 <= q * i <= d) by (nonlinear_arith)
        requires
            d == m * q + r,
            0 <= r,
            0 <= q,
            0 <= i <= m,
    ;
    assert(0 <= q) by (nonlinear_arith)
        requires
            d == m * q + r,
            0 <= d,
            r < m,
            0 < m,
    ;
    assert(0 <= t) by (nonlinear_arith)
        requires
            r * i == m * t + u,
            0 <= r * i,
            u < m,
            0 < m,
    ;
    assert((q * i + t) <= d) by (nonlinear_arith)
        requires
            d * i == (q * i + t) * m + u,
            0 <= u,
            0 <= i <= m,
            0 < m,
            0 <= d,
            0 <= q * i + t,
    ;
}

/// `n` evenly spaced numbers from `a` to `b`.
pub fn linspace(a: Fixed, b: Fixed, n: usize) -> (v: Vec<Fixed>)
    ensures
        v.len() == n,
        forall|i: int| 0 <= i < n ==> (#[trigger] v[i])@ == coordinate(a@, b@, n as int, i),
{
    let mut v: Vec<Fixed> = Vec::new();
    if n == 1 {
        v.push(a);
        return v;
    }
    let start: i128 = a.raw() as i128;
    let end: i128 = b.raw() as i128;
    let ascending: bool = start <= end;
    let span: u128 = if ascending {
        (end - start) as u128
    } else {
        (start - end) as u128
    };
    let mut i: usize = 0;
    while i < n
        invariant
            2 <= n || n == 0,
            i <= n,
            v.len() == i,
            start == a@,
            end == b@,
            in_range(start as int),
            in_range(end as int),
            ascending == (start <= end),
            span == (if ascending { end - start } else { start - end }),
            forall|k: int| 0 <= k < i ==> (#[trigger] v[k])@ == coordinate(a@, b@, n as int, k),
        decreases n - i,
    {
        let last: u128 = (n - 1) as u128;
        let index: u128 = i as u128;
        proof {
            lemma_split_quotient(span as int, index as int, last as int);
            assert((last - 1) * last <= 0xffff_ffff_ffff_ffff * 0xffff_ffff_ffff_ffff)
                by (nonlinear_arith)
                requires
                    1 <= last <= 0xffff_ffff_ffff_ffff,
            ;
        }
        let whole: u128 = (span / last) * index;
        let part: u128 = ((span % last) * index) / last;
        let offset: i128 = (whole + part) as i128;
        let raw: i128 = if ascending {
            start + offset
        } else {
            start - offset
        };
        v.push(Fixed::from_raw(raw as i64));
        i += 1;
    }
    v
}

} // verus!
