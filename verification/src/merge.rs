//! The merge engine: combines two glyph values into a brand-new one by
//! precedence selection, content concatenation, energy summation, and
//! field-wise maximum.  The result's identifier is freshly minted from the
//! clock, never derived from the parents, so repeated merges of the same
//! inputs yield different identifiers.

use vstd::prelude::*;
use vstd::string::StringExecFns;
use crate::idgen::{id_seq, make_id, now_nanos};

verus! {

/// A glyph as the merge engine sees it.  Energy is an integer scalar;
/// nothing constrains its sign.
pub struct Glyph {
    pub id: String,
    pub content: String,
    pub energy: i64,
    pub activation_count: u32,
    pub last_update_time: u64,
}

/// The mathematical value of a merge-engine glyph.
#[verifier::ext_equal]
pub ghost struct GlyphModel {
    pub id: Seq<char>,
    pub content: Seq<char>,
    pub energy: int,
    pub activation_count: int,
    pub last_update_time: int,
}

impl View for Glyph {
    type V = GlyphModel;

    open spec fn view(&self) -> GlyphModel {
        GlyphModel {
            id: self.id@,
            content: self.content@,
            energy: self.energy as int,
            activation_count: self.activation_count as int,
            last_update_time: self.last_update_time as int,
        }
    }
}

impl Clone for Glyph {
    fn clone(&self) -> (r: Self)
        ensures
            r == *self,
    {
        Glyph {
            id: self.id.clone(),
            content: self.content.clone(),
            energy: self.energy,
            activation_count: self.activation_count,
            last_update_time: self.last_update_time,
        }
    }
}

/// Whether the first argument takes precedence: the larger energy wins, and
/// a tie goes to the first argument.
pub open spec fn first_is_primary(e1: int, e2: int) -> bool {
    e1 >= e2
}

/// The fixed separator between the primary and secondary content.
pub open spec fn separator() -> Seq<char> {
    " + "@
}

/// The merge of two glyph values, given the identifier minted for the
/// result: the primary's content comes first, energies are summed exactly,
/// and the counters take the field-wise maximum.
pub open spec fn merge_model(a: GlyphModel, b: GlyphModel, id: Seq<char>) -> GlyphModel {
    GlyphModel {
        id: id,
        content: if first_is_primary(a.energy, b.energy) {
            a.content + separator() + b.content
        } else {
            b.content + separator() + a.content
        },
        energy: a.energy + b.energy,
        activation_count: if a.activation_count >= b.activation_count {
            a.activation_count
        } else {
            b.activation_count
        },
        last_update_time: if a.last_update_time >= b.last_update_time {
            a.last_update_time
        } else {
            b.last_update_time
        },
    }
}

/// When energies differ, the higher-energy glyph is primary in either
/// argument order: the merged content starts with its content, and the
/// textual result is the same whichever argument it arrived as.
pub proof fn lemma_precedence_ignores_order(
    a: GlyphModel,
    b: GlyphModel,
    id1: Seq<char>,
    id2: Seq<char>,
)
    requires
        a.energy > b.energy,
    ensures
        merge_model(a, b, id1).content == a.content + separator() + b.content,
        merge_model(b, a, id2).content == a.content + separator() + b.content,
{
}

/// On an energy tie the first argument is primary, so the two argument
/// orders produce different textual results: the tie-break is strictly
/// first-argument, not symmetric.
pub proof fn lemma_tie_breaks_to_first(
    a: GlyphModel,
    b: GlyphModel,
    id1: Seq<char>,
    id2: Seq<char>,
)
    requires
        a.energy == b.energy,
    ensures
        merge_model(a, b, id1).content == a.content + separator() + b.content,
        merge_model(b, a, id2).content == b.content + separator() + a.content,
{
}

/// The merged energy is the exact sum in either argument order, and the
/// counter maxima are order-insensitive too: only the text depends on which
/// argument came first.
pub proof fn lemma_merge_scalars_commute(
    a: GlyphModel,
    b: GlyphModel,
    id1: Seq<char>,
    id2: Seq<char>,
)
    ensures
        merge_model(a, b, id1).energy == a.energy + b.energy,
        merge_model(a, b, id1).energy == merge_model(b, a, id2).energy,
        merge_model(a, b, id1).activation_count == merge_model(b, a, id2).activation_count,
        merge_model(a, b, id1).last_update_time == merge_model(b, a, id2).last_update_time,
{
}

/// The merge of `g1` and `g2` with the result's identifier minted from
/// timestamp `t`.  Total for any energies whose exact sum fits the energy
/// field.
pub fn merge_glyphs_at(g1: &Glyph, g2: &Glyph, t: u128) -> (r: Glyph)
    requires
        i64::MIN <= g1.energy + g2.energy <= i64::MAX,
    ensures
        r@ == merge_model(g1@, g2@, id_seq(t)),
{
    let first: bool = g1.energy >= g2.energy;
    let primary: &Glyph = if first { g1 } else { g2 };
    let secondary: &Glyph = if first { g2 } else { g1 };

    let mut content = primary.content.clone();
    content.append(" + ");
    content.append(secondary.content.as_str());

    let energy: i64 = g1.energy + g2.energy;
    let activation_count: u32 = if primary.activation_count >= secondary.activation_count {
        primary.activation_count
    } else {
        secondary.activation_count
    };
    let last_update_time: u64 = if primary.last_update_time >= secondary.last_update_time {
        primary.last_update_time
    } else {
        secondary.last_update_time
    };

    let r = Glyph { id: make_id(t), content, energy, activation_count, last_update_time };
    proof {
        assert(r@ =~= merge_model(g1@, g2@, id_seq(t)));
    }
    r
}

/// Merges two glyphs, minting the result's identifier from the current
/// clock: the result is a `merge_model` combination for some timestamp, and
/// its identifier is 64 hexadecimal digits.
pub fn merge_glyphs(g1: &Glyph, g2: &Glyph) -> (r: Glyph)
    requires
        i64::MIN <= g1.energy + g2.energy <= i64::MAX,
    ensures
        exists|t: u128| r@ == merge_model(g1@, g2@, id_seq(t)),
        r.id@.len() == 64,
{
    let t = now_nanos();
    let r = merge_glyphs_at(g1, g2, t);
    proof {
        crate::idgen::lemma_id_seq_len(t);
        assert(r@ == merge_model(g1@, g2@, id_seq(t)));
    }
    r
}

} // verus!
