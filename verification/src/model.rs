//! The typed output model of a parsed manifest, and its specification-level
//! counterpart built from `Seq<char>` views.
use vstd::prelude::*;

verus! {

/// Classification tag a zone may optionally carry.
#[derive(Debug, Clone, Copy, PartialEq, Eq, Structural)]
pub enum Alignment {
    Unaligned,
    Good,
    Neutral,
    Evil,
}

/// Opaque failure outcome: the document is not a valid world manifest.
/// Carries no diagnostic payload by design.
#[derive(Debug)]
pub struct ParseError;

impl ParseError {
    /// Fixed description of the failure, as a value (the type itself carries
    /// no formatting machinery).
    pub fn message(&self) -> (r: &'static str)
        ensures
            r@ == "invalid world file"@,
    {
        "invalid world file"
    }
}

/// One parsed zone record.
#[derive(Debug)]
pub struct ZoneDef {
    pub nr: u32,
    pub n_rooms: u32,
    pub name: String,
    pub align: Option<Alignment>,
    pub owner: Option<String>,
    pub uid: Option<u32>,
}

/// Mathematical view of a zone record: text fields as character sequences.
pub struct ZoneModel {
    pub nr: u32,
    pub n_rooms: u32,
    pub name: Seq<char>,
    pub align: Option<Alignment>,
    pub owner: Option<Seq<char>>,
    pub uid: Option<u32>,
}

impl View for ZoneDef {
    type V = ZoneModel;

    open spec fn view(&self) -> ZoneModel {
        ZoneModel {
            nr: self.nr,
            n_rooms: self.n_rooms,
            name: self.name@,
            align: self.align,
            owner: match self.owner {
                Some(o) => Some(o@),
                None => None,
            },
            uid: self.uid,
        }
    }
}

/// The complete parse result: global counts and the ordered zone list.
/// `file_names` is reserved for an external aggregation step and is always
/// empty when produced by `parse`.
#[derive(Debug)]
pub struct WorldList {
    pub n_things: u32,
    pub n_monsters: u32,
    pub n_creatables: u32,
    pub zones: Vec<ZoneDef>,
    pub file_names: Vec<String>,
}

/// Mathematical view of a parse result.
pub struct WorldModel {
    pub n_things: u32,
    pub n_monsters: u32,
    pub n_creatables: u32,
    pub zones: Seq<ZoneModel>,
    pub file_names: Seq<Seq<char>>,
}

impl View for WorldList {
    type V = WorldModel;

    open spec fn view(&self) -> WorldModel {
        WorldModel {
            n_things: self.n_things,
            n_monsters: self.n_monsters,
            n_creatables: self.n_creatables,
            zones: self.zones@.map_values(|z: ZoneDef| z@),
            file_names: self.file_names@.map_values(|f: String| f@),
        }
    }
}

} // verus!
