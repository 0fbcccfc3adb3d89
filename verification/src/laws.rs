//! Proved laws of the manifest grammar and its transformer.
use crate::grammar::spec_doc;
use crate::grammar::spec_zone;
use crate::grammar::spec_zone_list;
use crate::grammar::zone_kw;
use crate::grammar::ParseTreeModel;
use crate::lexer::tok_is_num;
use crate::lexer::tok_is_text;
use crate::lexer::tok_num;
use crate::lexer::tok_text;
use crate::lexer::TokModel;
use crate::model::ZoneModel;
use crate::transform::char_lower_code;
use crate::transform::seq_eq_ci;
use crate::transform::spec_align_of;
use crate::transform::spec_transform;
use crate::transform::spec_zone_of;
use vstd::prelude::*;

verus! {

/// The zone list is insensitive to everything before its own tokens.
proof fn lemma_zone_list_same(t1: Seq<TokModel>, t2: Seq<TokModel>, i: int)
    requires
        t1.len() == t2.len(),
        0 <= i,
        forall|k: int| i <= k < t1.len() ==> t1[k] == t2[k],
    ensures
        spec_zone_list(t1, i) == spec_zone_list(t2, i),
    decreases t1.len() - i,
{
    if i >= t1.len() {
    } else {
        assert(t1[i] == t2[i]);
        if t1[i] == TokModel::Word(zone_kw()) {
            assert(spec_zone(t1, i + 1) == spec_zone(t2, i + 1));
            match spec_zone(t1, i + 1) {
                Some((z, j)) => {
                    if i < j <= t1.len() {
                        lemma_zone_list_same(t1, t2, j);
                    }
                },
                None => {},
            }
        }
    }
}

/// The declared zone count carries no information: replacing it with any
/// other number leaves the document accepted, changes nothing in the parse
/// tree beyond the recorded declaration itself, and leaves the transformed
/// world list — in particular how many zone records it holds — untouched.
/// The zone list always has exactly the records present in the input.
pub proof fn lemma_declared_count_ignored(toks: Seq<TokModel>, k: u32, t: ParseTreeModel)
    requires
        spec_doc(toks) == Some(t),
    ensures
        spec_doc(toks.update(7, TokModel::Num(k))) == Some(
            ParseTreeModel { n_zones_declared: k, ..t },
        ),
        spec_transform(ParseTreeModel { n_zones_declared: k, ..t }) == spec_transform(t),
        spec_transform(t).zones.len() == t.zones.len(),
{
    let t2 = toks.update(7, TokModel::Num(k));
    assert(t2.len() == toks.len());
    assert forall|j: int| 8 <= j < toks.len() implies toks[j] == t2[j] by {}
    lemma_zone_list_same(toks, t2, 8);
}

/// A zone record with no optional tokens — its name is followed by the next
/// record's keyword or by the end of the document — yields a record whose
/// alignment, owner and uid are all absent.
pub proof fn lemma_zone_without_optionals(toks: Seq<TokModel>, i: int)
    requires
        0 <= i,
        i + 3 <= toks.len(),
        tok_is_num(toks[i]),
        tok_is_num(toks[i + 1]),
        tok_is_text(toks[i + 2]),
        i + 3 == toks.len() || toks[i + 3] == TokModel::Word(zone_kw()),
    ensures
        spec_zone(toks, i) is Some,
        ({
            let (z, j) = spec_zone(toks, i)->Some_0;
            &&& j == i + 3
            &&& spec_zone_of(z) == (ZoneModel {
                nr: tok_num(toks[i]),
                n_rooms: tok_num(toks[i + 1]),
                name: tok_text(toks[i + 2]),
                align: None,
                owner: None,
                uid: None,
            })
        }),
{
}

/// A zone record whose only optional token is one bare word is accepted
/// whatever the word says; the word alone decides the alignment (absent for
/// every unrecognized word — never a failure), and owner and uid stay absent.
pub proof fn lemma_zone_with_align_word(toks: Seq<TokModel>, i: int, w: Seq<char>)
    requires
        0 <= i,
        i + 4 <= toks.len(),
        tok_is_num(toks[i]),
        tok_is_num(toks[i + 1]),
        tok_is_text(toks[i + 2]),
        toks[i + 3] == TokModel::Word(w),
        w != zone_kw(),
        i + 4 == toks.len() || toks[i + 4] == TokModel::Word(zone_kw()),
    ensures
        spec_zone(toks, i) is Some,
        ({
            let (z, j) = spec_zone(toks, i)->Some_0;
            &&& j == i + 4
            &&& spec_zone_of(z) == (ZoneModel {
                nr: tok_num(toks[i]),
                n_rooms: tok_num(toks[i + 1]),
                name: tok_text(toks[i + 2]),
                align: spec_align_of(w),
                owner: None,
                uid: None,
            })
        }),
{
}

/// Two words that agree up to ASCII case compare equal-up-to-case against
/// exactly the same third words.
proof fn lemma_ci_same_matches(a: Seq<char>, b: Seq<char>, c: Seq<char>)
    requires
        seq_eq_ci(a, b),
    ensures
        seq_eq_ci(a, c) == seq_eq_ci(b, c),
{
    if seq_eq_ci(a, c) {
        assert forall|k: int| 0 <= k < b.len() implies char_lower_code(#[trigger] b[k])
            == char_lower_code(c[k]) by {
            assert(char_lower_code(a[k]) == char_lower_code(b[k]));
            assert(char_lower_code(a[k]) == char_lower_code(c[k]));
        }
    }
    if seq_eq_ci(b, c) {
        assert forall|k: int| 0 <= k < a.len() implies char_lower_code(#[trigger] a[k])
            == char_lower_code(c[k]) by {
            assert(char_lower_code(a[k]) == char_lower_code(b[k]));
            assert(char_lower_code(b[k]) == char_lower_code(c[k]));
        }
    }
}

/// Alignment keyword matching is case-insensitive: words equal up to ASCII
/// case map to the same alignment.
pub proof fn lemma_align_case_insensitive(a: Seq<char>, b: Seq<char>)
    requires
        seq_eq_ci(a, b),
    ensures
        spec_align_of(a) == spec_align_of(b),
{
    lemma_ci_same_matches(a, b, "unaligned"@);
    lemma_ci_same_matches(a, b, "good"@);
    lemma_ci_same_matches(a, b, "neutral"@);
    lemma_ci_same_matches(a, b, "evil"@);
}

} // verus!
