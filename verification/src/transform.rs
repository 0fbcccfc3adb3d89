//! Tree transformer: converts a parse tree into the typed `WorldList`.
//!
//! The conversion is total. Each zone node's fields are taken over as they
//! stand; the alignment slot's word is matched case-insensitively against the
//! four recognized keywords, and any other word degrades to "no alignment"
//! rather than failing. The declared zone count is read and discarded: the
//! zone list's own length is what counts.
use crate::grammar::ParseTreeModel;
use crate::grammar::ParseTree;
use crate::grammar::ZoneNodeModel;
use crate::grammar::ZoneNode;
use crate::model::Alignment;
use crate::model::WorldList;
use crate::model::WorldModel;
use crate::model::ZoneDef;
use crate::model::ZoneModel;
use vstd::prelude::*;

verus! {

/// Character code with ASCII letters folded to lower case; all other
/// characters keep their own code.
pub open spec fn char_lower_code(c: char) -> u32 {
    if ('A' as u32) <= (c as u32) && (c as u32) <= ('Z' as u32) {
        (c as u32 + 32) as u32
    } else {
        c as u32
    }
}

/// Equality of two character sequences up to ASCII case.
pub open spec fn seq_eq_ci(a: Seq<char>, b: Seq<char>) -> bool {
    a.len() == b.len() && forall|k: int|
        0 <= k < a.len() ==> char_lower_code(#[trigger] a[k]) == char_lower_code(b[k])
}

/// The alignment a keyword word stands for, matched case-insensitively;
/// `None` for every unrecognized word.
pub open spec fn spec_align_of(w: Seq<char>) -> Option<Alignment> {
    if seq_eq_ci(w, "unaligned"@) {
        Some(Alignment::Unaligned)
    } else if seq_eq_ci(w, "good"@) {
        Some(Alignment::Good)
    } else if seq_eq_ci(w, "neutral"@) {
        Some(Alignment::Neutral)
    } else if seq_eq_ci(w, "evil"@) {
        Some(Alignment::Evil)
    } else {
        None
    }
}

/// The zone record a zone node converts to.
pub open spec fn spec_zone_of(z: ZoneNodeModel) -> ZoneModel {
    ZoneModel {
        nr: z.nr,
        n_rooms: z.n_rooms,
        name: z.name,
        align: match z.align_word {
            Some(w) => spec_align_of(w),
            None => None,
        },
        owner: z.owner,
        uid: z.uid,
    }
}

/// The world list a parse tree converts to: counts taken over, every zone
/// node converted in order, the declared zone count dropped, `file_names`
/// empty.
pub open spec fn spec_transform(t: ParseTreeModel) -> WorldModel {
    WorldModel {
        n_things: t.n_things,
        n_monsters: t.n_monsters,
        n_creatables: t.n_creatables,
        zones: t.zones.map_values(|z: ZoneNodeModel| spec_zone_of(z)),
        file_names: Seq::empty(),
    }
}

fn char_lower(c: char) -> (r: u32)
    ensures
        r == char_lower_code(c),
{
    let u = c as u32;
    if ('A' as u32) <= u && u <= ('Z' as u32) {
        u + 32
    } else {
        u
    }
}

/// Case-insensitive string comparison, decided from the views.
fn str_eq_ci(a: &str, b: &str) -> (r: bool)
    ensures
        r == seq_eq_ci(a@, b@),
{
    let n = a.unicode_len();
    if n != b.unicode_len() {
        return false;
    }
    let mut i: usize = 0;
    while i < n
        invariant
            i <= n,
            n == a@.len() == b@.len(),
            forall|k: int| 0 <= k < i ==> char_lower_code(#[trigger] a@[k]) == char_lower_code(
                b@[k],
            ),
        decreases n - i,
    {
        if char_lower(a.get_char(i)) != char_lower(b.get_char(i)) {
            return false;
        }
        i += 1;
    }
    true
}

/// Interpret an alignment slot's word.
fn align_of(w: &str) -> (r: Option<Alignment>)
    ensures
        r == spec_align_of(w@),
{
    if str_eq_ci(w, "unaligned") {
        Some(Alignment::Unaligned)
    } else if str_eq_ci(w, "good") {
        Some(Alignment::Good)
    } else if str_eq_ci(w, "neutral") {
        Some(Alignment::Neutral)
    } else if str_eq_ci(w, "evil") {
        Some(Alignment::Evil)
    } else {
        None
    }
}

/// Convert one zone node.
fn transform_zone(z: ZoneNode) -> (r: ZoneDef)
    ensures
        r@ == spec_zone_of(z@),
{
    let align = match &z.align_word {
        Some(w) => align_of(w.as_str()),
        None => None,
    };
    ZoneDef { nr: z.nr, n_rooms: z.n_rooms, name: z.name, align, owner: z.owner, uid: z.uid }
}

/// Convert a whole parse tree; total, with no possibility of failure.
pub fn transform(tree: ParseTree) -> (r: WorldList)
    ensures
        r@ == spec_transform(tree@),
{
    let mut zones: Vec<ZoneDef> = Vec::new();
    let mut rest = tree.zones;
    let ghost all = rest@.map_values(|z: ZoneNode| z@);
    while rest.len() > 0
        invariant
            zones@.len() + rest@.len() == all.len(),
            forall|k: int|
                0 <= k < rest@.len() ==> (#[trigger] rest@[k])@ == all[zones@.len() + k],
            zones@.map_values(|z: ZoneDef| z@) == all.take(zones@.len() as int).map_values(
                |z: ZoneNodeModel| spec_zone_of(z),
            ),
        decreases rest@.len(),
    {
        let ghost taken = zones@.len() as int;
        let ghost old_rest = rest@;
        let z = rest.remove(0);
        proof {
            assert(rest@ =~= old_rest.remove(0));
            assert forall|k: int| 0 <= k < rest@.len() implies (#[trigger] rest@[k])@ == all[taken
                + 1 + k] by {
                assert(rest@[k] == old_rest[k + 1]);
            }
            assert(z@ == all[taken]);
        }
        let zd = transform_zone(z);
        proof {
            assert(zones@.push(zd).map_values(|z: ZoneDef| z@) =~= zones@.map_values(
                |z: ZoneDef| z@,
            ).push(zd@));
            assert(all.take(taken + 1).map_values(|z: ZoneNodeModel| spec_zone_of(z)) =~= all.take(
                taken,
            ).map_values(|z: ZoneNodeModel| spec_zone_of(z)).push(spec_zone_of(all[taken])));
        }
        zones.push(zd);
    }
    let file_names: Vec<String> = Vec::new();
    proof {
        assert(all.take(zones@.len() as int) =~= all);
        assert(file_names@.map_values(|f: String| f@) =~= Seq::<Seq<char>>::empty());
    }
    WorldList {
        n_things: tree.n_things,
        n_monsters: tree.n_monsters,
        n_creatables: tree.n_creatables,
        zones,
        file_names,
    }
}

} // verus!
