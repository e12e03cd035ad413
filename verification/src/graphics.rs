//! Helpers for working with color formats and pixel streams.

use vstd::prelude::*;

use crate::dcs::BitsPerPixel;

verus! {

/// Number of consecutive set bits of `v`, counting from the least
/// significant bit.
pub open spec fn spec_trailing_ones(v: u8) -> nat
    decreases v,
{
    if v % 2 == 0 {
        0
    } else {
        1 + spec_trailing_ones(v / 2)
    }
}

/// A byte has at most eight trailing ones.
proof fn lemma_trailing_ones_le_8(v: u8)
    ensures
        spec_trailing_ones(v) <= 8,
{
    vstd::arithmetic::power2::lemma2_to64();
    lemma_trailing_ones_bound(v as nat, 8);
}

/// A value below `2^k` has at most `k` trailing ones.
proof fn lemma_trailing_ones_bound(v: nat, k: nat)
    requires
        v < vstd::arithmetic::power2::pow2(k),
    ensures
        spec_trailing_ones(v as u8) <= k || v >= 256,
    decreases k,
{
    vstd::arithmetic::power2::lemma2_to64();
    if v >= 256 {
    } else if v % 2 == 0 {
    } else if k == 0 {
        assert(v == 0);
    } else {
        assert(vstd::arithmetic::power2::pow2(k) == 2 * vstd::arithmetic::power2::pow2((k - 1) as nat))
            by {
            vstd::arithmetic::power2::lemma_pow2_unfold(k);
        }
        lemma_trailing_ones_bound(v / 2, (k - 1) as nat);
        assert((v as u8) / 2 == (v / 2) as u8);
    }
}

/// Counts the consecutive set bits of `v` from the least significant bit.
fn trailing_ones(v: u8) -> (n: u32)
    ensures
        n == spec_trailing_ones(v),
{
    proof {
        lemma_trailing_ones_le_8(v);
    }
    let mut x = v;
    let mut n: u32 = 0;
    while x % 2 == 1
        invariant
            n + spec_trailing_ones(x) == spec_trailing_ones(v),
            n <= 8,
        decreases x,
    {
        proof {
            lemma_trailing_ones_le_8(v);
        }
        x = x / 2;
        n = n + 1;
    }
    n
}

impl BitsPerPixel {
    /// Returns the bits per pixel of a color format, given the maximum
    /// value of each of its red, green and blue channels.
    pub fn from_rgb_color(max_r: u8, max_g: u8, max_b: u8) -> (r: Self)
        requires
            ({
                let bpp = spec_trailing_ones(max_r) + spec_trailing_ones(max_g)
                    + spec_trailing_ones(max_b);
                bpp == 3 || bpp == 8 || bpp == 12 || bpp == 16 || bpp == 18 || bpp == 24
            }),
        ensures
            ({
                let bpp = spec_trailing_ones(max_r) + spec_trailing_ones(max_g)
                    + spec_trailing_ones(max_b);
                r == (if bpp == 3 {
                    BitsPerPixel::Three
                } else if bpp == 8 {
                    BitsPerPixel::Eight
                } else if bpp == 12 {
                    BitsPerPixel::Twelve
                } else if bpp == 16 {
                    BitsPerPixel::Sixteen
                } else if bpp == 18 {
                    BitsPerPixel::Eighteen
                } else {
                    BitsPerPixel::TwentyFour
                })
            }),
    {
        let bpp = trailing_ones(max_r) + trailing_ones(max_g) + trailing_ones(max_b);
        match bpp {
            3 => BitsPerPixel::Three,
            8 => BitsPerPixel::Eight,
            12 => BitsPerPixel::Twelve,
            16 => BitsPerPixel::Sixteen,
            18 => BitsPerPixel::Eighteen,
            24 => BitsPerPixel::TwentyFour,
            _ => vstd::pervasive::unreached(),
        }
    }
}

/// The elements an alternating take-and-skip walk yields from `s`, with
/// `take_remaining` elements still to yield in the current run.
pub open spec fn take_skip_yields<T>(s: Seq<T>, take: nat, take_remaining: nat, skip: nat) -> Seq<
    T,
>
    decreases s.len(), take_remaining,
{
    if take_remaining > 0 {
        if s.len() == 0 {
            Seq::empty()
        } else {
            seq![s[0]] + take_skip_yields(s.drop_first(), take, (take_remaining - 1) as nat, skip)
        }
    } else if take > 0 {
        if s.len() <= skip {
            Seq::empty()
        } else {
            seq![s[skip as int]] + take_skip_yields(
                s.skip(skip as int + 1),
                take,
                (take - 1) as nat,
                skip,
            )
        }
    } else {
        Seq::empty()
    }
}

/// The source index of the `j`-th element an alternating walk yields, from
/// a state with `take_remaining` elements left in the current run.
pub open spec fn take_skip_position(take: nat, take_remaining: nat, skip: nat, j: int) -> int {
    if j < take_remaining {
        j
    } else {
        let j2 = j - take_remaining;
        take_remaining + skip + (j2 / (take as int)) * ((take + skip) as int) + j2 % (
        take as int)
    }
}

/// The walk, stated positionally: the `j`-th yielded element is the source
/// element at [`take_skip_position`].
pub proof fn lemma_take_skip_position<T>(
    s: Seq<T>,
    take: nat,
    take_remaining: nat,
    skip: nat,
    j: int,
)
    requires
        take > 0,
        0 <= j < take_skip_yields(s, take, take_remaining, skip).len(),
    ensures
        0 <= take_skip_position(take, take_remaining, skip, j) < s.len(),
        take_skip_yields(s, take, take_remaining, skip)[j] == s[take_skip_position(
            take,
            take_remaining,
            skip,
            j,
        )],
    decreases s.len(),
{
    let tr = take_remaining;
    if tr > 0 {
        if j > 0 {
            lemma_take_skip_position(s.drop_first(), take, (tr - 1) as nat, skip, j - 1);
            assert(take_skip_position(take, tr, skip, j) == 1 + take_skip_position(
                take,
                (tr - 1) as nat,
                skip,
                j - 1,
            ));
        }
    } else {
        if j == 0 {
            vstd::arithmetic::div_mod::lemma_basic_div(0, take as int);
            vstd::arithmetic::div_mod::lemma_small_mod(0, take);
        } else {
            lemma_take_skip_position(s.skip(skip as int + 1), take, (take - 1) as nat, skip, j - 1);
            let p = take_skip_position(take, (take - 1) as nat, skip, j - 1);
            if j < take {
                vstd::arithmetic::div_mod::lemma_basic_div(j, take as int);
                vstd::arithmetic::div_mod::lemma_small_mod(j as nat, take);
            } else {
                let m = j - take;
                let q = m / (take as int);
                let c = (take + skip) as int;
                vstd::arithmetic::div_mod::lemma_div_plus_one(m, take as int);
                vstd::arithmetic::div_mod::lemma_mod_add_multiples_vanish(m, take as int);
                assert((1 + q) * c == c + q * c) by (nonlinear_arith);
            }
            assert(take_skip_position(take, 0, skip, j) == skip as int + 1 + p);
            assert(s.skip(skip as int + 1)[p] == s[skip as int + 1 + p]);
        }
    }
}

/// Law: the direct statement of the walk. With a full run ahead, the `j`-th
/// yielded element is the source element at
/// `(j / take) * (take + skip) + j % take`: an element is kept exactly when
/// its index lies in the first `take` slots of its `(take + skip)`-sized
/// block.
pub proof fn lemma_take_skip_direct<T>(s: Seq<T>, take: nat, skip: nat, j: int)
    requires
        take > 0,
        0 <= j < take_skip_yields(s, take, take, skip).len(),
    ensures
        ({
            let src = (j / (take as int)) * ((take + skip) as int) + j % (take as int);
            &&& 0 <= src < s.len()
            &&& take_skip_yields(s, take, take, skip)[j] == s[src]
        }),
{
    lemma_take_skip_position(s, take, take, skip, j);
    if j < take {
        vstd::arithmetic::div_mod::lemma_basic_div(j, take as int);
        vstd::arithmetic::div_mod::lemma_small_mod(j as nat, take);
    } else {
        let m = j - take;
        let q = m / (take as int);
        let c = (take + skip) as int;
        vstd::arithmetic::div_mod::lemma_div_plus_one(m, take as int);
        vstd::arithmetic::div_mod::lemma_mod_add_multiples_vanish(m, take as int);
        assert((1 + q) * c == c + q * c) by (nonlinear_arith);
    }
}

/// An iterator that alternately takes and skips elements of a source
/// sequence.
pub struct TakeSkip<T> {
    items: Vec<T>,
    pos: usize,
    take: u32,
    take_remaining: u32,
    skip: u32,
}

impl<T: Copy> TakeSkip<T> {
    /// The position has not run past the end of the source.
    pub closed spec fn wf(&self) -> bool {
        self.pos <= self.items@.len()
    }

    /// The elements still to be yielded, in order.
    pub closed spec fn yields(&self) -> Seq<T> {
        take_skip_yields(
            self.items@.skip(self.pos as int),
            self.take as nat,
            self.take_remaining as nat,
            self.skip as nat,
        )
    }

    /// Walks `items`, yielding `take` elements and then skipping `skip`
    /// elements, from the start of the source.
    pub fn new(items: Vec<T>, take: u32, skip: u32) -> (r: Self)
        ensures
            r.wf(),
            r.yields() == take_skip_yields(items@, take as nat, take as nat, skip as nat),
    {
        let r = TakeSkip { items, pos: 0, take, take_remaining: take, skip };
        proof {
            assert(r.items@.skip(0) =~= r.items@);
        }
        r
    }

    /// Yields the next element of the walk, if any is left.
    pub fn next(&mut self) -> (r: Option<T>)
        requires
            old(self).wf(),
        ensures
            final(self).wf(),
            old(self).yields().len() == 0 ==> r is None && final(self).yields().len() == 0,
            old(self).yields().len() > 0 ==> r == Some(old(self).yields()[0])
                && final(self).yields() == old(self).yields().drop_first(),
    {
        let ghost s = self.items@.skip(self.pos as int);
        if self.take_remaining > 0 {
            self.take_remaining = self.take_remaining - 1;
            if self.pos < self.items.len() {
                let v = self.items[self.pos];
                self.pos = self.pos + 1;
                proof {
                    assert(self.items@.skip(self.pos as int) =~= s.drop_first());
                    assert(s[0] == v);
                    assert(old(self).yields().drop_first() =~= self.yields());
                }
                Some(v)
            } else {
                proof {
                    assert(s.len() == 0);
                }
                None
            }
        } else if self.take > 0 {
            if self.items.len() - self.pos > self.skip as usize {
                let idx = self.pos + self.skip as usize;
                let v = self.items[idx];
                self.pos = idx + 1;
                self.take_remaining = self.take - 1;
                proof {
                    assert(self.items@.skip(self.pos as int) =~= s.skip(
                        old(self).skip as int + 1,
                    ));
                    assert(s[old(self).skip as int] == v);
                    assert(old(self).yields().drop_first() =~= self.yields());
                }
                Some(v)
            } else {
                self.take_remaining = self.take - 1;
                self.pos = self.items.len();
                proof {
                    assert(s.len() <= old(self).skip as nat);
                    assert(self.items@.skip(self.pos as int).len() == 0);
                    assert(self.yields().len() == 0);
                }
                None
            }
        } else {
            None
        }
    }
}

} // verus!
