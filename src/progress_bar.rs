use vstd::prelude::*;

verus! {

/// Progress of a transfer, drawn as a bar of `width` cells.
pub struct ProgressBar {
    pub total: usize,
    pub width: usize,
    pub current: usize,
}

/// How many of the bar's cells are filled: the done share of `width`, rounded down, at
/// most `width`, and none while the total is zero.
pub open spec fn filled_cells(total: nat, width: nat, current: nat) -> nat {
    if total == 0 {
        0
    } else if current >= total {
        width
    } else {
        width * current / total
    }
}

/// `n` copies of `c`.
pub open spec fn repeat(c: char, n: nat) -> Seq<char> {
    Seq::new(n, |i: int| c)
}

impl ProgressBar {
    pub fn new(total: usize, width: usize) -> (r: Self)
        ensures
            r.total == total,
            r.width == width,
            r.current == 0,
    {
        ProgressBar { total, width, current: 0 }
    }

    /// Records how much is done.
    pub fn update(&mut self, current: usize)
        ensures
            final(self).current == current,
            final(self).total == old(self).total,
            final(self).width == old(self).width,
    {
        self.current = current;
    }

    pub fn set_total(&mut self, total: usize)
        ensures
            final(self).total == total,
            final(self).current == old(self).current,
            final(self).width == old(self).width,
    {
        self.total = total;
    }

    /// How many cells are filled.
    pub fn filled(&self) -> (r: usize)
        ensures
            r == filled_cells(self.total as nat, self.width as nat, self.current as nat),
            r <= self.width,
    {
        if self.total == 0 {
            0
        } else if self.current >= self.total {
            self.width
        } else {
            let w128 = self.width as u128;
            let c128 = self.current as u128;
            proof {
                assert(w128 * c128 <= 0xffff_ffff_ffff_ffffu128 * 0xffff_ffff_ffff_ffffu128) by (nonlinear_arith)
                    requires w128 <= 0xffff_ffff_ffff_ffffu128, c128 <= 0xffff_ffff_ffff_ffffu128;
            }
            let f: u128 = w128 * c128 / (self.total as u128);
            proof {
                let w = self.width as nat;
                let c = self.current as nat;
                let t = self.total as nat;
                assert(w * c <= w * t) by (nonlinear_arith)
                    requires c < t;
                assert(w * c / t <= w * t / t) by (nonlinear_arith)
                    requires w * c <= w * t, t > 0;
                assert(w * t / t == w) by (nonlinear_arith)
                    requires t > 0;
            }
            f as usize
        }
    }

    /// The bar: `[`, a `=` for each filled cell, a space for each other cell, `]`.
    pub fn bar(&self) -> (r: String)
        ensures
            r@ == "["@ + repeat('=', filled_cells(self.total as nat, self.width as nat, self.current as nat))
                + repeat(' ', (self.width - filled_cells(self.total as nat, self.width as nat, self.current as nat)) as nat)
                + "]"@,
    {
        let f = self.filled();
        let mut out = String::from_str("[");
        let ghost head = out@;
        let mut i: usize = 0;
        while i < f
            invariant
                i <= f,
                out@ == head + repeat('=', i as nat),
            decreases f - i,
        {
            proof {
                reveal_strlit("=");
            }
            out.append("=");
            i = i + 1;
            assert(out@ =~= head + repeat('=', i as nat));
        }
        let ghost mid = out@;
        let mut j: usize = 0;
        while j < self.width - f
            invariant
                f <= self.width,
                j <= self.width - f,
                out@ == mid + repeat(' ', j as nat),
            decreases self.width - f - j,
        {
            proof {
                reveal_strlit(" ");
            }
            out.append(" ");
            j = j + 1;
            assert(out@ =~= mid + repeat(' ', j as nat));
        }
        out.append("]");
        out
    }
}

} // verus!
