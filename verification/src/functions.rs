//! The built-in callables and the wrapper for user-declared functions.
use vstd::prelude::*;

use crate::num::{int_bits, neg_bits, sin_bits, Num};
use crate::stmt::{fnc_view, Fnc};

verus! {

/// A user-declared function: its declaration, evaluated only when called.
#[derive(Debug)]
pub struct Function {
    pub declaration: Fnc,
}

impl Clone for Function {
    /// A clone has the same model as the original.
    fn clone(&self) -> (r: Function)
        ensures
            fnc_view(r.declaration) == fnc_view(self.declaration),
    {
        Function { declaration: self.declaration.clone() }
    }
}

impl Function {
    /// Arity is the declared parameter count.
    pub fn arity(&self) -> (r: u64)
        ensures
            r as nat == fnc_view(self.declaration).params.len(),
    {
        self.declaration.params.len() as u64
    }
}

/// The constant pi, a built-in of arity zero.
#[derive(Clone, Copy, PartialEq, Eq, Structural, Debug)]
pub struct Pi;

impl Pi {
    pub fn arity(&self) -> (r: u64)
        ensures
            r == 0,
    {
        0
    }

    /// The value a call returns.
    pub fn value(&self) -> (r: Num)
        ensures
            r.bits == 0x400921FB54442D18u64,
    {
        Num::pi()
    }
}

/// The sine built-in, arity one.
#[derive(Clone, Copy, PartialEq, Eq, Structural, Debug)]
pub struct Sin;

impl Sin {
    pub fn arity(&self) -> (r: u64)
        ensures
            r == 1,
    {
        1
    }

    /// The sine of a number argument.
    pub fn apply(&self, x: Num) -> (r: Num)
        ensures
            r.bits == sin_bits(x.bits),
    {
        x.sin()
    }
}

/// The divisors of `n` that are at most `k`, in ascending order.
pub open spec fn divisors_upto(n: u64, k: u64) -> Seq<u64>
    decreases k,
{
    if k == 0 {
        Seq::empty()
    } else {
        divisors_upto(n, (k - 1) as u64) + if n % k == 0 {
            seq![k]
        } else {
            Seq::empty()
        }
    }
}

/// The numbers a factors call returns: every divisor of `n` from 1 through
/// `n`, ascending, each converted to the nearest binary64 value.
pub open spec fn factors_list(n: u64) -> Seq<Num> {
    divisors_upto(n, n).map_values(|d: u64| Num { bits: int_bits(d as u128) })
}

/// The divisor list is exactly the ascending list of the positive integers
/// up to `k` that divide `n`: each entry divides `n`, every divisor appears,
/// and the order is strictly ascending.
pub proof fn lemma_divisors_upto(n: u64, k: u64)
    ensures
        forall|i: int|
            0 <= i < divisors_upto(n, k).len() ==> {
                let d = #[trigger] divisors_upto(n, k)[i];
                1 <= d <= k && n % d == 0
            },
        forall|d: u64| 1 <= d <= k && n % d == 0 ==> divisors_upto(n, k).contains(d),
        forall|i: int, j: int|
            0 <= i < j < divisors_upto(n, k).len()
                ==> divisors_upto(n, k)[i] < divisors_upto(n, k)[j],
    decreases k,
{
    if k > 0 {
        lemma_divisors_upto(n, (k - 1) as u64);
        let prev = divisors_upto(n, (k - 1) as u64);
        let cur = divisors_upto(n, k);
        let tail = if n % k == 0 {
            seq![k]
        } else {
            Seq::<u64>::empty()
        };
        assert(cur == prev + tail);
        assert forall|d: u64| 1 <= d <= k && n % d == 0 implies cur.contains(d) by {
            if d <= (k - 1) as u64 {
                assert(prev.contains(d));
                let i = choose|i: int| 0 <= i < prev.len() && prev[i] == d;
                assert(cur[i] == prev[i]);
                assert(cur.contains(d));
            } else {
                assert(d == k && n % k == 0);
                assert(cur[prev.len() as int] == k);
                assert(cur.contains(d));
            }
        }
    }
}

/// The integer-factorization built-in, arity one.
#[derive(Clone, Copy, PartialEq, Eq, Structural, Debug)]
pub struct Factors;

impl Factors {
    pub fn arity(&self) -> (r: u64)
        ensures
            r == 1,
    {
        1
    }

    /// The divisors of `n` from 1 through `n`, ascending, as numbers. For
    /// `n == 0` (which a truncated zero, NaN, or negative argument yields)
    /// the list is empty.
    pub fn divisors(&self, n: u64) -> (r: Vec<Num>)
        ensures
            r@ == factors_list(n),
    {
        let mut out: Vec<Num> = Vec::new();
        let mut k: u128 = 1;
        while k <= n as u128
            invariant
                1 <= k <= n as u128 + 1,
                out@ == divisors_upto(n, (k - 1) as u64).map_values(
                    |d: u64| Num { bits: int_bits(d as u128) },
                ),
            decreases n as u128 + 1 - k,
        {
            let ku = k as u64;
            let ghost before = divisors_upto(n, (ku - 1) as u64);
            proof {
                assert(divisors_upto(n, ku) == before + if n % ku == 0 {
                    seq![ku]
                } else {
                    Seq::<u64>::empty()
                });
            }
            if n % ku == 0 {
                out.push(Num::from_u64(ku));
                proof {
                    assert(out@ =~= divisors_upto(n, ku).map_values(
                        |d: u64| Num { bits: int_bits(d as u128) },
                    ));
                }
            } else {
                proof {
                    assert(out@ =~= divisors_upto(n, ku).map_values(
                        |d: u64| Num { bits: int_bits(d as u128) },
                    ));
                }
            }
            k = k + 1;
        }
        out
    }
}

/// The plot built-in, arity one: samples a function at the 20 consecutive
/// integer abscissas from -10 through 9.
#[derive(Clone, Copy, PartialEq, Eq, Structural, Debug)]
pub struct Plot;

/// The bits of the binary64 value of the `k`-th abscissa, `k - 10`.
pub open spec fn x_bits(k: int) -> Num {
    if k < 10 {
        Num { bits: neg_bits(int_bits((10 - k) as u128)) }
    } else {
        Num { bits: int_bits((k - 10) as u128) }
    }
}

impl Plot {
    pub fn arity(&self) -> (r: u64)
        ensures
            r == 1,
    {
        1
    }

    /// The `k`-th sample abscissa.
    pub fn sample_x(&self, k: usize) -> (r: Num)
        requires
            k < 20,
        ensures
            r == x_bits(k as int),
    {
        if k < 10 {
            Num::from_u64((10 - k) as u64).neg()
        } else {
            Num::from_u64((k - 10) as u64)
        }
    }
}

} // verus!
