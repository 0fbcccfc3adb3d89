//! Structural layer of the grammar engine.
//!
//! A document's token sequence must open with the four keyword-introduced
//! header fields — `things`, `monsters`, `creatables`, `zones`, each followed
//! by one number — and continue with zero or more zone records until the
//! tokens end; anything else is a failure. A zone record is the keyword
//! `zone`, a zone number, a room count and a quoted name, then at most one of
//! each optional trailing field in fixed order: a bare alignment word (any
//! word but the record keyword), a quoted owner, a numeric uid.
//!
//! `WorldParser::parse_document` is the engine's entry: it is proved to
//! return the tree that `spec_engine` assigns to the document's characters,
//! and to fail exactly when `spec_engine` does.
use crate::lexer::classify_word;
use crate::lexer::find_quote;
use crate::lexer::spec_tokens;
use crate::lexer::tok_is_num;
use crate::lexer::tok_is_text;
use crate::lexer::tok_is_word;
use crate::lexer::tok_num;
use crate::lexer::tok_text;
use crate::lexer::tok_word;
use crate::lexer::tokenize;
use crate::lexer::toks_view;
use crate::lexer::TokModel;
use crate::lexer::Token;
use crate::model::ParseError;
use vstd::prelude::*;

verus! {

/// The grammar engine. Recognizes a raw document against the manifest
/// grammar and produces its parse tree.
pub struct WorldParser;

/// Parse-tree node of one zone record: the matched field values, optional
/// trailing fields as they occurred. The alignment slot keeps the matched
/// word; keyword interpretation belongs to the transformer.
pub struct ZoneNode {
    pub nr: u32,
    pub n_rooms: u32,
    pub name: String,
    pub align_word: Option<String>,
    pub owner: Option<String>,
    pub uid: Option<u32>,
}

/// Mathematical view of a zone node.
pub struct ZoneNodeModel {
    pub nr: u32,
    pub n_rooms: u32,
    pub name: Seq<char>,
    pub align_word: Option<Seq<char>>,
    pub owner: Option<Seq<char>>,
    pub uid: Option<u32>,
}

impl View for ZoneNode {
    type V = ZoneNodeModel;

    open spec fn view(&self) -> ZoneNodeModel {
        ZoneNodeModel {
            nr: self.nr,
            n_rooms: self.n_rooms,
            name: self.name@,
            align_word: match self.align_word {
                Some(w) => Some(w@),
                None => None,
            },
            owner: match self.owner {
                Some(o) => Some(o@),
                None => None,
            },
            uid: self.uid,
        }
    }
}

/// Parse tree of a whole document: the four header numbers and the zone
/// records in source order. The declared zone count is recorded but carries
/// no authority over the zone list.
pub struct ParseTree {
    pub n_things: u32,
    pub n_monsters: u32,
    pub n_creatables: u32,
    pub n_zones_declared: u32,
    pub zones: Vec<ZoneNode>,
}

/// Mathematical view of a parse tree.
pub struct ParseTreeModel {
    pub n_things: u32,
    pub n_monsters: u32,
    pub n_creatables: u32,
    pub n_zones_declared: u32,
    pub zones: Seq<ZoneNodeModel>,
}

impl View for ParseTree {
    type V = ParseTreeModel;

    open spec fn view(&self) -> ParseTreeModel {
        ParseTreeModel {
            n_things: self.n_things,
            n_monsters: self.n_monsters,
            n_creatables: self.n_creatables,
            n_zones_declared: self.n_zones_declared,
            zones: self.zones@.map_values(|z: ZoneNode| z@),
        }
    }
}

pub open spec fn zone_kw() -> Seq<char> {
    "zone"@
}

/// One zone record's fields starting at token `i` (just after the record
/// keyword), and the index of the first token after the record.
pub open spec fn spec_zone(toks: Seq<TokModel>, i: int) -> Option<(ZoneNodeModel, int)> {
    if i + 3 <= toks.len() && tok_is_num(toks[i]) && tok_is_num(toks[i + 1]) && tok_is_text(
        toks[i + 2],
    ) {
        let j0 = i + 3;
        let has_align = j0 < toks.len() && tok_is_word(toks[j0]) && tok_word(toks[j0])
            != zone_kw();
        let j1 = if has_align {
            j0 + 1
        } else {
            j0
        };
        let has_owner = j1 < toks.len() && tok_is_text(toks[j1]);
        let j2 = if has_owner {
            j1 + 1
        } else {
            j1
        };
        let has_uid = j2 < toks.len() && tok_is_num(toks[j2]);
        let j3 = if has_uid {
            j2 + 1
        } else {
            j2
        };
        Some(
            (
                ZoneNodeModel {
                    nr: tok_num(toks[i]),
                    n_rooms: tok_num(toks[i + 1]),
                    name: tok_text(toks[i + 2]),
                    align_word: if has_align {
                        Some(tok_word(toks[j0]))
                    } else {
                        None
                    },
                    owner: if has_owner {
                        Some(tok_text(toks[j1]))
                    } else {
                        None
                    },
                    uid: if has_uid {
                        Some(tok_num(toks[j2]))
                    } else {
                        None
                    },
                },
                j3,
            ),
        )
    } else {
        None
    }
}

/// The zone records from token `i` to the end of the tokens; every remaining
/// token must belong to a record.
pub open spec fn spec_zone_list(toks: Seq<TokModel>, i: int) -> Option<Seq<ZoneNodeModel>>
    recommends
        0 <= i <= toks.len(),
    decreases toks.len() - i,
{
    if i >= toks.len() {
        Some(Seq::empty())
    } else if toks[i] == TokModel::Word(zone_kw()) {
        match spec_zone(toks, i + 1) {
            Some((z, j)) => {
                if i < j <= toks.len() {
                    match spec_zone_list(toks, j) {
                        Some(rest) => Some(seq![z] + rest),
                        None => None,
                    }
                } else {
                    None
                }
            },
            None => None,
        }
    } else {
        None
    }
}

/// The parse tree of a token sequence: header fields then the zone list.
pub open spec fn spec_doc(toks: Seq<TokModel>) -> Option<ParseTreeModel> {
    if toks.len() >= 8 && toks[0] == TokModel::Word("things"@) && tok_is_num(toks[1]) && toks[2]
        == TokModel::Word("monsters"@) && tok_is_num(toks[3]) && toks[4] == TokModel::Word(
        "creatables"@,
    ) && tok_is_num(toks[5]) && toks[6] == TokModel::Word("zones"@) && tok_is_num(toks[7]) {
        match spec_zone_list(toks, 8) {
            Some(zs) => Some(
                ParseTreeModel {
                    n_things: tok_num(toks[1]),
                    n_monsters: tok_num(toks[3]),
                    n_creatables: tok_num(toks[5]),
                    n_zones_declared: tok_num(toks[7]),
                    zones: zs,
                },
            ),
            None => None,
        }
    } else {
        None
    }
}

/// The whole grammar engine over a document's characters: lexing then
/// structural recognition.
pub open spec fn spec_engine(s: Seq<char>) -> Option<ParseTreeModel> {
    match spec_tokens(s) {
        Some(toks) => spec_doc(toks),
        None => None,
    }
}

/// Character-exact string equality, decided from the views.
fn str_eq(a: &str, b: &str) -> (r: bool)
    ensures
        r == (a@ == b@),
{
    let n = a.unicode_len();
    if n != b.unicode_len() {
        return false;
    }
    let mut i: usize = 0;
    while i < n
        invariant
            i <= n,
            n == a@.len() == b@.len(),
            forall|k: int| 0 <= k < i ==> a@[k] == b@[k],
        decreases n - i,
    {
        if a.get_char(i) != b.get_char(i) {
            return false;
        }
        i += 1;
    }
    proof {
        assert(a@ =~= b@);
    }
    true
}

/// Does this token match the given keyword word?
fn tok_is_kw(t: &Token, kw: &str) -> (r: bool)
    ensures
        r == (t@ == TokModel::Word(kw@)),
{
    match t {
        Token::Word(w) => str_eq(w.as_str(), kw),
        _ => false,
    }
}

/// Copy the owned text out of a token's word or text payload.
fn copy_string(s: &String) -> (r: String)
    ensures
        r@ == s@,
{
    s.as_str().to_owned()
}

impl WorldParser {
    /// Recognize a raw document and produce its parse tree; fails exactly on
    /// the documents the grammar rejects.
    pub fn parse_document(world: &str) -> (r: Result<ParseTree, ParseError>)
        ensures
            match r {
                Ok(tree) => spec_engine(world@) == Some(tree@),
                Err(_) => spec_engine(world@) is None,
            },
    {
        let toks = match tokenize(world) {
            Some(toks) => toks,
            None => {
                return Err(ParseError);
            },
        };
        let ghost tm = toks_view(toks@);
        let n = toks.len();
        assert(tm.len() == n);
        if n < 8 {
            return Err(ParseError);
        }
        if !(tok_is_kw(&toks[0], "things") && tok_is_kw(&toks[2], "monsters") && tok_is_kw(
            &toks[4],
            "creatables",
        ) && tok_is_kw(&toks[6], "zones")) {
            return Err(ParseError);
        }
        let n_things = match &toks[1] {
            Token::Num(v) => *v,
            _ => {
                assert(!tok_is_num(tm[1]));
                return Err(ParseError);
            },
        };
        let n_monsters = match &toks[3] {
            Token::Num(v) => *v,
            _ => {
                assert(!tok_is_num(tm[3]));
                return Err(ParseError);
            },
        };
        let n_creatables = match &toks[5] {
            Token::Num(v) => *v,
            _ => {
                assert(!tok_is_num(tm[5]));
                return Err(ParseError);
            },
        };
        let n_zones_declared = match &toks[7] {
            Token::Num(v) => *v,
            _ => {
                assert(!tok_is_num(tm[7]));
                return Err(ParseError);
            },
        };
        let zones = match Self::parse_zone_list(&toks) {
            Some(zs) => zs,
            None => {
                return Err(ParseError);
            },
        };
        Ok(
            ParseTree {
                n_things,
                n_monsters,
                n_creatables,
                n_zones_declared,
                zones,
            },
        )
    }

    /// Recognize the zone records that fill the tokens from index 8 on.
    fn parse_zone_list(toks: &Vec<Token>) -> (r: Option<Vec<ZoneNode>>)
        requires
            toks@.len() >= 8,
        ensures
            match r {
                Some(zs) => spec_zone_list(toks_view(toks@), 8) == Some(
                    zs@.map_values(|z: ZoneNode| z@),
                ),
                None => spec_zone_list(toks_view(toks@), 8) is None,
            },
    {
        let ghost tm = toks_view(toks@);
        let n = toks.len();
        let mut zones: Vec<ZoneNode> = Vec::new();
        let mut i: usize = 8;
        proof {
            assert(zones@.map_values(|z: ZoneNode| z@) =~= Seq::<ZoneNodeModel>::empty());
            match spec_zone_list(tm, 8) {
                Some(rest) => {
                    assert(zones@.map_values(|z: ZoneNode| z@) + rest =~= rest);
                },
                None => {},
            }
        }
        while i < n
            invariant
                8 <= i <= n,
                n == toks@.len(),
                tm == toks_view(toks@),
                tm.len() == n,
                match spec_zone_list(tm, i as int) {
                    Some(rest) => spec_zone_list(tm, 8) == Some(
                        zones@.map_values(|z: ZoneNode| z@) + rest,
                    ),
                    None => spec_zone_list(tm, 8) is None,
                },
            decreases n - i,
        {
            if !tok_is_kw(&toks[i], "zone") {
                assert(spec_zone_list(tm, i as int) is None);
                return None;
            }
            let start = i + 1;
            if n - start < 3 {
                assert(spec_zone(tm, start as int) is None);
                return None;
            }
            let nr = match &toks[start] {
                Token::Num(v) => *v,
                _ => {
                    assert(!tok_is_num(tm[start as int]));
                    return None;
                },
            };
            let n_rooms = match &toks[start + 1] {
                Token::Num(v) => *v,
                _ => {
                    assert(!tok_is_num(tm[start as int + 1]));
                    return None;
                },
            };
            let name = match &toks[start + 2] {
                Token::Text(t) => copy_string(t),
                _ => {
                    assert(!tok_is_text(tm[start as int + 2]));
                    return None;
                },
            };
            let mut j = start + 3;
            let mut align_word: Option<String> = None;
            if j < n {
                match &toks[j] {
                    Token::Word(w) => {
                        if !str_eq(w.as_str(), "zone") {
                            align_word = Some(copy_string(w));
                            j += 1;
                        }
                    },
                    _ => {},
                }
            }
            let ghost j1 = j as int;
            let mut owner: Option<String> = None;
            if j < n {
                match &toks[j] {
                    Token::Text(t) => {
                        owner = Some(copy_string(t));
                        j += 1;
                    },
                    _ => {},
                }
            }
            let ghost j2 = j as int;
            let mut uid: Option<u32> = None;
            if j < n {
                match &toks[j] {
                    Token::Num(v) => {
                        uid = Some(*v);
                        j += 1;
                    },
                    _ => {},
                }
            }
            let zone = ZoneNode { nr, n_rooms, name, align_word, owner, uid };
            proof {
                assert(spec_zone(tm, start as int) == Some((zone@, j as int)));
                assert(spec_zone_list(tm, i as int) == match spec_zone_list(tm, j as int) {
                    Some(rest) => Some(seq![zone@] + rest),
                    None => None::<Seq<ZoneNodeModel>>,
                });
                match spec_zone_list(tm, j as int) {
                    Some(rest) => {
                        assert(zones@.push(zone).map_values(|z: ZoneNode| z@) =~= zones@.map_values(
                            |z: ZoneNode| z@,
                        ).push(zone@));
                        assert(zones@.map_values(|z: ZoneNode| z@) + (seq![zone@] + rest)
                            =~= zones@.push(zone).map_values(|z: ZoneNode| z@) + rest);
                    },
                    None => {},
                }
            }
            zones.push(zone);
            i = j;
        }
        proof {
            assert(spec_zone_list(tm, n as int) == Some(Seq::<ZoneNodeModel>::empty()));
            assert(zones@.map_values(|z: ZoneNode| z@) + Seq::<ZoneNodeModel>::empty()
                =~= zones@.map_values(|z: ZoneNode| z@));
        }
        Some(zones)
    }
}

} // verus!
