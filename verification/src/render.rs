//! Text rendering of a world: a bordered block with one two-character
//! glyph per cell, a pure function of the current state and the size.

use vstd::prelude::*;
use vstd::string::StringExecFns;

use crate::game_of_life::World;
use crate::grid::nth_bit;

verus! {

/// The glyph for one cell: a filled block when alive, blanks when dead.
pub open spec fn cell_glyph(v: nat, i: nat) -> Seq<char> {
    if nth_bit(v, i) {
        "██"@
    } else {
        "  "@
    }
}

/// `n` cells' worth of horizontal border line.
pub open spec fn border_text(n: nat) -> Seq<char>
    decreases n,
{
    if n == 0 {
        Seq::empty()
    } else {
        border_text((n - 1) as nat) + "──"@
    }
}

/// The body rows covering flat indices `0 .. k`: each row opens and
/// closes with a vertical bar and ends with a newline.
pub open spec fn body_text(v: nat, size: nat, k: nat) -> Seq<char>
    decreases k,
{
    if k == 0 {
        Seq::empty()
    } else {
        let i = (k - 1) as nat;
        let prev = body_text(v, size, i);
        let opened = if i % size == 0 {
            prev + "|"@
        } else {
            prev
        };
        let cell = opened + cell_glyph(v, i);
        if (i + 1) % size == 0 {
            cell + "|\n"@
        } else {
            cell
        }
    }
}

/// The full rendering of state `v` at side length `size`: a top border,
/// `size` delimited rows, and a bottom border with a final newline.
pub open spec fn render_text(v: nat, size: nat) -> Seq<char> {
    "┌"@ + border_text(size) + "┐\n"@ + body_text(v, size, size * size) + "└"@ + border_text(size)
        + "┘\n"@
}

impl World {
    /// Renders the current state as the bordered text block
    /// `render_text` describes; reads the world, changes nothing.
    pub fn to_text(&self) -> (r: String)
        requires
            self.wf(),
        ensures
            r@ == render_text(self@.state, self@.size),
    {
        proof {
            assert(self@.size * self@.size <= 2500) by (nonlinear_arith)
                requires
                    self@.size <= 50,
            ;
        }
        let world_size: u16 = self.world_size() as u16;
        let total: u16 = world_size * world_size;

        let mut s = String::new();
        s.append("┌");
        proof {
            assert(s@ =~= "┌"@ + border_text(0));
        }
        let mut k: u16 = 0;
        while k < world_size
            invariant
                k <= world_size,
                world_size == self@.size,
                s@ == "┌"@ + border_text(k as nat),
            decreases world_size - k,
        {
            s.append("──");
            proof {
                assert(s@ =~= "┌"@ + border_text((k + 1) as nat));
            }
            k += 1;
        }
        s.append("┐\n");
        let ghost header: Seq<char> = "┌"@ + border_text(self@.size) + "┐\n"@;
        proof {
            assert(s@ =~= header);
        }

        let mut i: u16 = 0;
        while i < total
            invariant
                self.wf(),
                i <= total,
                world_size == self@.size,
                total == self@.size * self@.size,
                s@ == header + body_text(self@.state, self@.size, i as nat),
            decreases total - i,
        {
            if i % world_size == 0 {
                s.append("|");
            }
            let current = self.get_cell(i);
            if current == 1 {
                s.append("██");
            } else {
                s.append("  ");
            }
            if (i + 1) % world_size == 0 {
                s.append("|\n");
            }
            proof {
                assert(s@ =~= header + body_text(self@.state, self@.size, (i + 1) as nat));
            }
            i += 1;
        }

        s.append("└");
        let ghost above: Seq<char> = header + body_text(self@.state, self@.size, self@.size
            * self@.size) + "└"@;
        proof {
            assert(s@ =~= above + border_text(0));
        }
        k = 0;
        while k < world_size
            invariant
                k <= world_size,
                world_size == self@.size,
                s@ == above + border_text(k as nat),
            decreases world_size - k,
        {
            s.append("──");
            proof {
                assert(s@ =~= above + border_text((k + 1) as nat));
            }
            k += 1;
        }
        s.append("┘\n");
        proof {
            assert(s@ =~= render_text(self@.state, self@.size));
        }
        s
    }
}

} // verus!
