//! Plugins: the game-aware driver that parses a plugin file's bytes, stores
//! its header record and record identifiers, resolves those identifiers
//! against master metadata, and answers the query API.

use vstd::prelude::*;

use crate::error::{Error, ParsingErrorKind};
use crate::game_id::GameId;
use crate::group::spec_entry_form_ids;
use crate::order::{bytes_eq, contains_equiv, intersects};
use crate::paths::{
    chars_of, file_extension_of, spec_file_extension, spec_file_name, FileExtension,
};
use crate::reader::{le_u32, read_le_u32, spec_until_first_null, until_first_null};
use crate::record::{
    spec_default_record, spec_find_subrecord, spec_read_record, spec_read_record_id, Record,
    RecordId, RecordIdV,
};
use crate::record_id::{
    sort_resolved_v, spec_resolve_form_id, spec_resolve_namespaced_id, views_of_namespaced,
    views_of_resolved, views_of_sources, NamespacedId, NamespacedIdV, ObjectIndexMask, ResolvedIdV,
    ResolvedRecordId, SourcePlugin, SourcePluginV,
};
use crate::subrecord::SubrecordV;
use crate::text::{decode_windows_1252, fold_case, fold_key_of, win1252_seq};

verus! {

/// The tag of the header subrecord, as a little-endian value.
pub const HEDR_TAG: u32 = 0x5244_4548;

/// The tag of a master-file subrecord, as a little-endian value.
pub const MAST_TAG: u32 = 0x5453_414D;

/// The tag of the description subrecord, as a little-endian value.
pub const SNAM_TAG: u32 = 0x4D41_4E53;

/// The tag of a Morrowind plugin's header record, as a little-endian value.
pub const TES3_TAG: u32 = 0x3353_4554;

/// The tag of every other plugin's header record, as a little-endian value.
pub const TES4_TAG: u32 = 0x3453_4554;

/// How a plugin's mod index occupies the 32-bit form-identifier space.
#[derive(Clone, Copy, PartialEq, Eq, Structural, Debug, Hash)]
pub enum PluginScale {
    Full,
    Medium,
    Small,
}

/// The record identifiers a plugin holds, through their lifecycle: nothing
/// before a full parse, then raw form identifiers or namespaced identities,
/// then resolved identities.
pub enum RecordIds {
    Unparsed,
    FormIds(Vec<u32>),
    NamespacedIds(Vec<NamespacedId>),
    Resolved(Vec<ResolvedRecordId>),
}

/// What a parse fills a plugin with: the header record and the record
/// identifiers.
pub struct PluginData {
    pub header_record: Record,
    pub record_ids: RecordIds,
}

/// A plugin file of a given game: its path and its parsed data.
pub struct Plugin {
    pub game_id: GameId,
    pub path: String,
    pub data: PluginData,
}

/// Whether a parse should stop after the header record.
#[derive(Clone, Copy, PartialEq, Eq, Structural, Debug, Hash)]
pub struct ParseOptions {
    pub header_only: bool,
}

impl ParseOptions {
    /// Parse only the header record.
    pub fn header_only() -> (r: Self)
        ensures
            r.header_only,
    {
        ParseOptions { header_only: true }
    }

    /// Parse the whole plugin.
    pub fn whole_plugin() -> (r: Self)
        ensures
            !r.header_only,
    {
        ParseOptions { header_only: false }
    }
}

/// The view a plugin needs of another plugin to resolve its own record
/// identifiers against it: its filename, its scale, and (for Morrowind) its
/// record identities.
#[derive(Debug)]
pub struct PluginMetadata {
    pub filename: String,
    pub scale: PluginScale,
    pub record_ids: Vec<NamespacedId>,
}

impl Plugin {
    /// The identifier lists a plugin stores are kept sorted.
    pub open spec fn inv(self) -> bool {
        match self.data.record_ids {
            RecordIds::NamespacedIds(v) => crate::order::sorted(v@),
            RecordIds::Resolved(v) => crate::order::sorted(v@),
            _ => true,
        }
    }

    /// A plugin starts with nothing parsed; no input is read here.
    pub fn new(game_id: GameId, filepath: &str) -> (r: Plugin)
        ensures
            r.game_id == game_id,
            r.path@ == filepath@,
            r.data.header_record@ == spec_default_record(),
            r.data.record_ids is Unparsed,
            r.inv(),
    {
        Plugin {
            game_id,
            path: filepath.to_owned(),
            data: PluginData {
                header_record: Record::default(),
                record_ids: RecordIds::Unparsed,
            },
        }
    }

    /// The game the plugin belongs to.
    pub fn game_id(&self) -> (r: GameId)
        ensures
            r == self.game_id,
    {
        self.game_id
    }

    /// The path the plugin was created with.
    pub fn path(&self) -> (r: &str)
        ensures
            r@ == self.path@,
    {
        self.path.as_str()
    }

    /// The tag expected of this plugin's header record.
    pub open spec fn spec_header_type(self) -> u32 {
        if self.game_id == GameId::Morrowind {
            TES3_TAG
        } else {
            TES4_TAG
        }
    }

    fn header_type(&self) -> (r: u32)
        ensures
            r == self.spec_header_type(),
    {
        if matches!(self.game_id, GameId::Morrowind) {
            TES3_TAG
        } else {
            TES4_TAG
        }
    }

    /// The header record's flags field.
    pub open spec fn spec_header_flags(self) -> u32 {
        self.data.header_record@.flags
    }

    /// The plugin path's recognised extension.
    pub open spec fn spec_file_ext(self) -> FileExtension {
        spec_file_extension(self.path@)
    }

    fn file_extension(&self) -> (r: FileExtension)
        ensures
            r == self.spec_file_ext(),
    {
        file_extension_of(self.path.as_str())
    }

    /// Whether the header's master flag is set. On Morrowind the flag is
    /// the lowest bit of the fifth byte of the `HEDR` subrecord; elsewhere
    /// it is the lowest bit of the header record's flags.
    pub open spec fn spec_is_master_flag_set(self) -> bool {
        if self.game_id == GameId::Morrowind {
            match spec_find_subrecord(self.data.header_record@.subrecords, HEDR_TAG) {
                Some(sub) => sub.data.len() > 4 && (sub.data[4] & 1) != 0,
                None => false,
            }
        } else {
            self.spec_header_flags() & 1 != 0
        }
    }

    fn is_master_flag_set(&self) -> (r: bool)
        ensures
            r == self.spec_is_master_flag_set(),
    {
        if matches!(self.game_id, GameId::Morrowind) {
            let subs = self.data.header_record.subrecords();
            match crate::record::find_subrecord_idx(subs, HEDR_TAG) {
                Some(i) => {
                    let data = subs[i].data();
                    data.len() > 4 && (data[4] & 1) != 0
                },
                None => false,
            }
        } else {
            self.data.header_record.flags() & 1 != 0
        }
    }

    /// Whether the header's light flag is set: bit 0x100 on Starfield, bit
    /// 0x200 on Skyrim Special Edition and Fallout 4, never elsewhere.
    pub open spec fn spec_is_light_flag_set(self) -> bool {
        if self.game_id == GameId::Starfield {
            self.spec_header_flags() & 0x100 != 0
        } else if self.game_id == GameId::SkyrimSE || self.game_id == GameId::Fallout4 {
            self.spec_header_flags() & 0x200 != 0
        } else {
            false
        }
    }

    fn is_light_flag_set(&self) -> (r: bool)
        ensures
            r == self.spec_is_light_flag_set(),
    {
        match self.game_id {
            GameId::Starfield => self.data.header_record.flags() & 0x100 != 0,
            GameId::SkyrimSE | GameId::Fallout4 => self.data.header_record.flags() & 0x200 != 0,
            _ => false,
        }
    }

    /// Whether the header's medium flag (bit 0x400, Starfield only) is set.
    pub open spec fn spec_is_medium_flag_set(self) -> bool {
        self.game_id == GameId::Starfield && self.spec_header_flags() & 0x400 != 0
    }

    fn is_medium_flag_set(&self) -> (r: bool)
        ensures
            r == self.spec_is_medium_flag_set(),
    {
        matches!(self.game_id, GameId::Starfield) && self.data.header_record.flags() & 0x400 != 0
    }

    /// Whether the header's update flag (bit 0x200, Starfield only) is set.
    pub open spec fn spec_is_update_flag_set(self) -> bool {
        self.game_id == GameId::Starfield && self.spec_header_flags() & 0x200 != 0
    }

    fn is_update_flag_set(&self) -> (r: bool)
        ensures
            r == self.spec_is_update_flag_set(),
    {
        matches!(self.game_id, GameId::Starfield) && self.data.header_record.flags() & 0x200 != 0
    }

    /// Whether the plugin loads as a master: for Skyrim Special Edition,
    /// Fallout 4 and Starfield, the master flag or an `.esm` or `.esl`
    /// extension; elsewhere the master flag alone.
    pub open spec fn spec_is_master_file(self) -> bool {
        if self.game_id == GameId::Fallout4 || self.game_id == GameId::SkyrimSE || self.game_id
            == GameId::Starfield {
            self.spec_is_master_flag_set() || self.spec_file_ext() == FileExtension::Esm
                || self.spec_file_ext() == FileExtension::Esl
        } else {
            self.spec_is_master_flag_set()
        }
    }

    /// Whether the plugin loads as a master file.
    pub fn is_master_file(&self) -> (r: bool)
        ensures
            r == self.spec_is_master_file(),
    {
        match self.game_id {
            GameId::Fallout4 | GameId::SkyrimSE | GameId::Starfield => {
                self.is_master_flag_set() || matches!(
                    self.file_extension(),
                    FileExtension::Esm | FileExtension::Esl,
                )
            },
            _ => self.is_master_flag_set(),
        }
    }

    /// Whether the plugin loads as a light plugin: only games that support
    /// them; the light flag forces it, and so does an `.esl` extension,
    /// except that on Starfield the update flag keeps the extension from
    /// doing so.
    pub open spec fn spec_is_light_plugin(self) -> bool {
        if self.game_id.spec_supports_light_plugins() {
            if self.game_id == GameId::Starfield {
                self.spec_is_light_flag_set() || (!self.spec_is_update_flag_set()
                    && self.spec_file_ext() == FileExtension::Esl)
            } else {
                self.spec_is_light_flag_set() || self.spec_file_ext() == FileExtension::Esl
            }
        } else {
            false
        }
    }

    /// Whether the plugin loads as a light plugin.
    pub fn is_light_plugin(&self) -> (r: bool)
        ensures
            r == self.spec_is_light_plugin(),
    {
        if self.game_id().supports_light_plugins() {
            if matches!(self.game_id, GameId::Starfield) {
                self.is_light_flag_set() || (!self.is_update_flag_set() && matches!(
                    self.file_extension(),
                    FileExtension::Esl,
                ))
            } else {
                self.is_light_flag_set() || matches!(self.file_extension(), FileExtension::Esl)
            }
        } else {
            false
        }
    }

    /// Whether the plugin loads as a medium plugin: the medium flag is
    /// ignored on a light plugin.
    pub open spec fn spec_is_medium_plugin(self) -> bool {
        self.spec_is_medium_flag_set() && !self.spec_is_light_plugin()
    }

    /// Whether the plugin loads as a medium plugin.
    pub fn is_medium_plugin(&self) -> (r: bool)
        ensures
            r == self.spec_is_medium_plugin(),
    {
        self.is_medium_flag_set() && !self.is_light_plugin()
    }

    /// The scale the plugin loads at.
    pub open spec fn spec_scale(self) -> PluginScale {
        if self.spec_is_light_plugin() {
            PluginScale::Small
        } else if self.spec_is_medium_flag_set() {
            PluginScale::Medium
        } else {
            PluginScale::Full
        }
    }

    fn scale(&self) -> (r: PluginScale)
        ensures
            r == self.spec_scale(),
    {
        if self.is_light_plugin() {
            PluginScale::Small
        } else if self.is_medium_flag_set() {
            PluginScale::Medium
        } else {
            PluginScale::Full
        }
    }

    /// Whether the plugin carries the Starfield blueprint flag (bit 0x800).
    pub open spec fn spec_is_blueprint_plugin(self) -> bool {
        self.game_id == GameId::Starfield && self.spec_header_flags() & 0x800 != 0
    }

    /// Whether the plugin carries the Starfield blueprint flag.
    pub fn is_blueprint_plugin(&self) -> (r: bool)
        ensures
            r == self.spec_is_blueprint_plugin(),
    {
        matches!(self.game_id, GameId::Starfield) && self.data.header_record.flags() & 0x800 != 0
    }
}

/// Whether a 32-bit IEEE-754 bit pattern is a NaN.
pub open spec fn f32_is_nan_bits(b: u32) -> bool {
    b & 0x7F80_0000 == 0x7F80_0000 && b & 0x007F_FFFF != 0
}

/// The IEEE-754 single-precision "less than" on bit patterns: false when
/// either side is a NaN; otherwise sign-magnitude comparison, with the two
/// zeroes equal.
pub open spec fn f32_lt_bits(a: u32, b: u32) -> bool {
    if f32_is_nan_bits(a) || f32_is_nan_bits(b) {
        false
    } else {
        let a_neg = a & 0x8000_0000 != 0;
        let b_neg = b & 0x8000_0000 != 0;
        let a_mag = a & 0x7FFF_FFFF;
        let b_mag = b & 0x7FFF_FFFF;
        if a_neg {
            if b_neg {
                b_mag < a_mag
            } else {
                a_mag != 0 || b_mag != 0
            }
        } else {
            !b_neg && a_mag < b_mag
        }
    }
}

/// Decides `f32_lt_bits`.
pub fn f32_lt_bits_exec(a: u32, b: u32) -> (r: bool)
    ensures
        r == f32_lt_bits(a, b),
{
    let a_nan = a & 0x7F80_0000 == 0x7F80_0000 && a & 0x007F_FFFF != 0;
    let b_nan = b & 0x7F80_0000 == 0x7F80_0000 && b & 0x007F_FFFF != 0;
    if a_nan || b_nan {
        return false;
    }
    let a_neg = a & 0x8000_0000 != 0;
    let b_neg = b & 0x8000_0000 != 0;
    let a_mag = a & 0x7FFF_FFFF;
    let b_mag = b & 0x7FFF_FFFF;
    if a_neg {
        if b_neg {
            b_mag < a_mag
        } else {
            a_mag != 0 || b_mag != 0
        }
    } else {
        !b_neg && a_mag < b_mag
    }
}

/// The master names in a header's subrecords: each `MAST` subrecord's
/// payload up to its first NUL, decoded as windows-1252, in order.
pub open spec fn spec_masters_of(subs: Seq<SubrecordV>) -> Seq<Seq<char>>
    decreases subs.len(),
{
    if subs.len() == 0 {
        Seq::empty()
    } else {
        let rest = spec_masters_of(subs.skip(1));
        if subs[0].tag == MAST_TAG {
            seq![win1252_seq(spec_until_first_null(subs[0].data))] + rest
        } else {
            rest
        }
    }
}

/// Appending a subrecord appends its master name, when it is one.
proof fn lemma_masters_of_push(subs: Seq<SubrecordV>, e: SubrecordV)
    ensures
        spec_masters_of(subs.push(e)) == spec_masters_of(subs) + (if e.tag == MAST_TAG {
            seq![win1252_seq(spec_until_first_null(e.data))]
        } else {
            Seq::empty()
        }),
    decreases subs.len(),
{
    let p = subs.push(e);
    if subs.len() == 0 {
        assert(p.skip(1) =~= Seq::<SubrecordV>::empty());
        assert(spec_masters_of(Seq::<SubrecordV>::empty()) == Seq::<Seq<char>>::empty());
        assert(p[0] == e);
        assert(subs =~= Seq::<SubrecordV>::empty());
        if e.tag == MAST_TAG {
            assert(spec_masters_of(p) =~= spec_masters_of(subs) + seq![
                win1252_seq(spec_until_first_null(e.data)),
            ]);
        } else {
            assert(spec_masters_of(p) =~= spec_masters_of(subs) + Seq::<Seq<char>>::empty());
        }
    } else {
        lemma_masters_of_push(subs.skip(1), e);
        assert(p.skip(1) =~= subs.skip(1).push(e));
        assert(p[0] == subs[0]);
        let tail = if e.tag == MAST_TAG {
            seq![win1252_seq(spec_until_first_null(e.data))]
        } else {
            Seq::<Seq<char>>::empty()
        };
        if subs[0].tag == MAST_TAG {
            assert(spec_masters_of(p) =~= (seq![
                win1252_seq(spec_until_first_null(subs[0].data)),
            ] + spec_masters_of(subs.skip(1))) + tail);
        } else {
            assert(spec_masters_of(p) == spec_masters_of(subs.skip(1)) + tail);
        }
    }
}

/// The texts of a list of strings.
pub open spec fn views_of_strings(v: Seq<String>) -> Seq<Seq<char>> {
    v.map_values(|s: String| s@)
}

impl Plugin {
    /// The first four bytes of the `HEDR` subrecord, which hold the header
    /// version as the bits of a 32-bit IEEE-754 number; nothing when the
    /// subrecord is missing or too short.
    pub open spec fn spec_header_version_bits(self) -> Option<u32> {
        match spec_find_subrecord(self.data.header_record@.subrecords, HEDR_TAG) {
            Some(sub) => if sub.data.len() >= 4 {
                Some(le_u32(sub.data, 0))
            } else {
                None
            },
            None => None,
        }
    }

    /// The header version, as the bits of a 32-bit IEEE-754 number.
    pub fn header_version_bits(&self) -> (r: Option<u32>)
        ensures
            r == self.spec_header_version_bits(),
    {
        let subs = self.data.header_record.subrecords();
        match crate::record::find_subrecord_idx(subs, HEDR_TAG) {
            Some(i) => {
                let data = subs[i].data();
                if data.len() >= 4 {
                    Some(read_le_u32(data.as_slice(), 0))
                } else {
                    None
                }
            },
            None => None,
        }
    }

    /// The offset of the record-and-group count inside `HEDR`.
    pub open spec fn spec_count_offset(self) -> int {
        if self.game_id == GameId::Morrowind {
            296
        } else {
            4
        }
    }

    /// The number of records and groups the header declares: the 32-bit
    /// value at the count offset of `HEDR`; nothing when the subrecord is
    /// missing or too short.
    pub open spec fn spec_record_and_group_count(self) -> Option<u32> {
        match spec_find_subrecord(self.data.header_record@.subrecords, HEDR_TAG) {
            Some(sub) => if sub.data.len() >= self.spec_count_offset() + 4 {
                Some(le_u32(sub.data, self.spec_count_offset()))
            } else {
                None
            },
            None => None,
        }
    }

    /// The number of records and groups the header declares.
    pub fn record_and_group_count(&self) -> (r: Option<u32>)
        ensures
            r == self.spec_record_and_group_count(),
    {
        let offset: usize = if matches!(self.game_id, GameId::Morrowind) {
            296
        } else {
            4
        };
        let subs = self.data.header_record.subrecords();
        match crate::record::find_subrecord_idx(subs, HEDR_TAG) {
            Some(i) => {
                let data = subs[i].data();
                if data.len() >= offset + 4 {
                    Some(read_le_u32(data.as_slice(), offset))
                } else {
                    None
                }
            },
            None => None,
        }
    }

    /// The names of the plugin's masters, from the header's `MAST`
    /// subrecords. Decoding cannot fail: windows-1252 maps every byte.
    pub fn masters(&self) -> (r: Result<Vec<String>, Error>)
        ensures
            r matches Ok(v) && views_of_strings(v@) == spec_masters_of(
                self.data.header_record@.subrecords,
            ),
    {
        let subs = self.data.header_record.subrecords();
        let ghost views = crate::subrecord::views_of_subrecords(subs@);
        let mut r: Vec<String> = Vec::new();
        let mut i: usize = 0;
        proof {
            assert(views.take(0) =~= Seq::<SubrecordV>::empty());
            assert(views_of_strings(r@) =~= spec_masters_of(views.take(0)));
        }
        while i < subs.len()
            invariant
                i <= subs@.len(),
                views == crate::subrecord::views_of_subrecords(subs@),
                views_of_strings(r@) == spec_masters_of(views.take(i as int)),
            decreases subs@.len() - i,
        {
            proof {
                assert(views.take(i + 1) =~= views.take(i as int).push(views[i as int]));
                lemma_masters_of_push(views.take(i as int), views[i as int]);
            }
            let ghost old_r = r@;
            if subs[i].subrecord_type() == MAST_TAG {
                let trimmed = until_first_null(subs[i].data().as_slice());
                match decode_windows_1252(trimmed) {
                    Some(name) => {
                        r.push(name);
                        proof {
                            assert(views_of_strings(r@) =~= views_of_strings(old_r) + seq![
                                win1252_seq(spec_until_first_null(views[i as int].data)),
                            ]);
                        }
                    },
                    None => {
                        return Err(Error::DecodeError(vstd::slice::slice_to_vec(trimmed)));
                    },
                }
            } else {
                proof {
                    assert(views_of_strings(r@) =~= views_of_strings(old_r)
                        + Seq::<Seq<char>>::empty());
                }
            }
            i += 1;
        }
        proof {
            assert(views.take(subs@.len() as int) =~= views);
        }
        Ok(r)
    }

    /// The plugin's description: the `SNAM` subrecord's payload (on
    /// Morrowind, the `HEDR` payload from byte 40) up to the first NUL,
    /// decoded as windows-1252. No such subrecord yields nothing; one
    /// shorter than the offset is an error.
    pub fn description(&self) -> (r: Result<Option<String>, Error>)
        ensures
            ({
                let subs = self.data.header_record@.subrecords;
                let target = if self.game_id == GameId::Morrowind {
                    HEDR_TAG
                } else {
                    SNAM_TAG
                };
                let offset: int = if self.game_id == GameId::Morrowind {
                    40
                } else {
                    0
                };
                match spec_find_subrecord(subs, target) {
                    Some(sub) => if sub.data.len() < offset {
                        r matches Err(Error::ParsingError(c, k)) && c@ == sub.data && (k matches
                            ParsingErrorKind::SubrecordDataTooShort(n) && n == offset)
                    } else {
                        r matches Ok(Some(d)) && d@ == win1252_seq(
                            spec_until_first_null(sub.data.skip(offset)),
                        )
                    },
                    None => r matches Ok(d) && d is None,
                }
            }),
    {
        let (target, offset): (u32, usize) = if matches!(self.game_id, GameId::Morrowind) {
            (HEDR_TAG, 40)
        } else {
            (SNAM_TAG, 0)
        };
        let subs = self.data.header_record.subrecords();
        match crate::record::find_subrecord_idx(subs, target) {
            Some(i) => {
                let data = subs[i].data();
                if data.len() < offset {
                    return Err(Error::ParsingError(
                        crate::order::clone_bytes(data),
                        ParsingErrorKind::SubrecordDataTooShort(offset),
                    ));
                }
                let tail = vstd::slice::slice_subrange(data.as_slice(), offset, data.len());
                proof {
                    assert(tail@ =~= subs@[i as int]@.data.skip(offset as int));
                }
                let trimmed = until_first_null(tail);
                match decode_windows_1252(trimmed) {
                    Some(d) => Ok(Some(d)),
                    None => Err(Error::DecodeError(vstd::slice::slice_to_vec(trimmed))),
                }
            },
            None => Ok(None),
        }
    }

    /// The object-index range (inclusive) that a new record of a light
    /// plugin may use, by game and header version.
    pub open spec fn spec_valid_light_range(self) -> (u32, u32) {
        if self.game_id == GameId::SkyrimSE {
            match self.spec_header_version_bits() {
                // 0x3FDA_E148 is 1.71 as a 32-bit IEEE-754 number.
                Some(v) => if f32_lt_bits(v, 0x3FDA_E148) {
                    (0x800, 0xFFF)
                } else {
                    (0, 0xFFF)
                },
                None => (0, 0),
            }
        } else if self.game_id == GameId::Fallout4 {
            match self.spec_header_version_bits() {
                // 0x3F80_0000 is 1.0 as a 32-bit IEEE-754 number.
                Some(v) => if f32_lt_bits(v, 0x3F80_0000) {
                    (0x800, 0xFFF)
                } else {
                    (0x001, 0xFFF)
                },
                None => (0, 0),
            }
        } else if self.game_id == GameId::Starfield {
            (0, 0xFFF)
        } else {
            (0, 0)
        }
    }

    /// The inclusive object-index range that a new record of a light
    /// plugin may use; empty (zero to zero) for games without light
    /// plugins.
    pub fn valid_light_form_id_range(&self) -> (r: (u32, u32))
        ensures
            r == self.spec_valid_light_range(),
    {
        match self.game_id {
            GameId::SkyrimSE => {
                match self.header_version_bits() {
                    Some(v) => {
                        if f32_lt_bits_exec(v, 0x3FDA_E148) {
                            (0x800, 0xFFF)
                        } else {
                            (0, 0xFFF)
                        }
                    },
                    None => (0, 0),
                }
            },
            GameId::Fallout4 => {
                match self.header_version_bits() {
                    Some(v) => {
                        if f32_lt_bits_exec(v, 0x3F80_0000) {
                            (0x800, 0xFFF)
                        } else {
                            (0x001, 0xFFF)
                        }
                    },
                    None => (0, 0),
                }
            },
            GameId::Starfield => (0, 0xFFF),
            _ => (0, 0),
        }
    }

    /// The object-index range (inclusive) that a new record of a medium
    /// plugin may use.
    pub open spec fn spec_valid_medium_range(self) -> (u32, u32) {
        if self.game_id == GameId::Starfield {
            (0, 0xFFFF)
        } else {
            (0, 0)
        }
    }

    /// The inclusive object-index range that a new record of a medium
    /// plugin may use; empty (zero to zero) for games without medium
    /// plugins.
    pub fn valid_medium_form_id_range(&self) -> (r: (u32, u32))
        ensures
            r == self.spec_valid_medium_range(),
    {
        if matches!(self.game_id, GameId::Starfield) {
            (0, 0xFFFF)
        } else {
            (0, 0)
        }
    }

    /// Whether the plugin loads as an update plugin: Starfield only, with
    /// the update flag set, neither the light nor the medium flag, and at
    /// least one master.
    pub open spec fn spec_is_update_plugin(self) -> bool {
        self.spec_is_update_flag_set() && !self.spec_is_light_flag_set()
            && !self.spec_is_medium_flag_set() && spec_masters_of(
            self.data.header_record@.subrecords,
        ).len() > 0
    }

    /// Whether the plugin loads as an update plugin.
    pub fn is_update_plugin(&self) -> (r: bool)
        ensures
            r == self.spec_is_update_plugin(),
    {
        if !self.is_update_flag_set() || self.is_light_flag_set() || self.is_medium_flag_set() {
            return false;
        }
        match self.masters() {
            Ok(m) => !m.is_empty(),
            Err(_) => false,
        }
    }
}

/// The object-index mask a plugin's own records split on: chosen from the
/// plugin's scale on Starfield, always the full mask elsewhere.
pub open spec fn spec_parent_mask(game: GameId, scale: PluginScale) -> u32 {
    if game == GameId::Starfield {
        match scale {
            PluginScale::Full => ObjectIndexMask::Full.spec_mask(),
            PluginScale::Medium => ObjectIndexMask::Medium.spec_mask(),
            PluginScale::Small => ObjectIndexMask::Small.spec_mask(),
        }
    } else {
        ObjectIndexMask::Full.spec_mask()
    }
}

/// The source standing for the plugin being resolved itself.
pub open spec fn spec_hashed_parent(game: GameId, filename: Seq<char>, scale: PluginScale)
    -> SourcePluginV {
    SourcePluginV {
        name_key: fold_key_of(filename),
        mod_index_mask: 0,
        object_index_mask: spec_parent_mask(game, scale),
    }
}

/// Builds the source standing for the plugin being resolved itself; its
/// object-index mask matches the plugin's scale on Starfield and is the
/// full mask elsewhere.
pub fn hashed_parent(game_id: GameId, plugin_metadata: &PluginMetadata) -> (r: SourcePlugin)
    ensures
        r@ == spec_hashed_parent(game_id, plugin_metadata.filename@, plugin_metadata.scale),
{
    let mask = if matches!(game_id, GameId::Starfield) {
        match plugin_metadata.scale {
            PluginScale::Full => ObjectIndexMask::Full,
            PluginScale::Medium => ObjectIndexMask::Medium,
            PluginScale::Small => ObjectIndexMask::Small,
        }
    } else {
        ObjectIndexMask::Full
    };
    SourcePlugin::parent(plugin_metadata.filename.as_str(), mask)
}

/// The master table of a non-Starfield plugin: the master at position `i`
/// of the master list owns mod index `i`, with the full object-index mask;
/// masters past position 255 have no representable mod index and are
/// skipped.
pub open spec fn spec_hashed_masters(masters: Seq<Seq<char>>) -> Seq<SourcePluginV> {
    Seq::new(
        if masters.len() <= 256 {
            masters.len()
        } else {
            256
        },
        |i: int|
            SourcePluginV {
                name_key: fold_key_of(masters[i]),
                mod_index_mask: (i * 0x0100_0000) as u32,
                object_index_mask: ObjectIndexMask::Full.spec_mask(),
            },
    )
}

/// Builds the master table of a non-Starfield plugin.
pub fn hashed_masters(masters: &Vec<String>) -> (r: Vec<SourcePlugin>)
    ensures
        views_of_sources(r@) == spec_hashed_masters(views_of_strings(masters@)),
{
    let ghost goal = spec_hashed_masters(views_of_strings(masters@));
    let n: usize = if masters.len() <= 256 {
        masters.len()
    } else {
        256
    };
    let mut r: Vec<SourcePlugin> = Vec::new();
    let mut i: usize = 0;
    proof {
        assert(views_of_sources(r@) =~= goal.take(0));
    }
    while i < n
        invariant
            i <= n,
            n == goal.len(),
            n <= masters@.len(),
            n <= 256,
            goal == spec_hashed_masters(views_of_strings(masters@)),
            views_of_sources(r@) == goal.take(i as int),
        decreases n - i,
    {
        let m = SourcePlugin::master(masters[i].as_str(), (i as u32) * 0x0100_0000, ObjectIndexMask::Full);
        r.push(m);
        proof {
            assert(views_of_sources(r@) =~= goal.take(i as int).push(goal[i as int]));
            assert(goal.take(i + 1) =~= goal.take(i as int).push(goal[i as int]));
        }
        i += 1;
    }
    proof {
        assert(goal.take(n as int) =~= goal);
    }
    r
}

/// The first metadata entry whose filename case-folds to the given key.
pub open spec fn spec_find_metadata(metas: Seq<PluginMetadata>, name_key: Seq<u8>) -> Option<
    PluginMetadata,
>
    decreases metas.len(),
{
    if metas.len() == 0 {
        None
    } else if fold_key_of(metas[0].filename@) == name_key {
        Some(metas[0])
    } else {
        spec_find_metadata(metas.skip(1), name_key)
    }
}

proof fn lemma_spec_find_metadata_skip(metas: Seq<PluginMetadata>, name_key: Seq<u8>, i: int)
    requires
        0 <= i <= metas.len(),
        forall|j: int| 0 <= j < i ==> fold_key_of(#[trigger] metas[j].filename@) != name_key,
    ensures
        spec_find_metadata(metas, name_key) == spec_find_metadata(metas.skip(i), name_key),
    decreases i,
{
    if i == 0 {
        assert(metas.skip(0) =~= metas);
    } else {
        lemma_spec_find_metadata_skip(metas.skip(1), name_key, i - 1);
        assert(metas.skip(1).skip(i - 1) =~= metas.skip(i));
    }
}

/// Finds the first metadata entry whose filename case-folds to the given
/// key, as its index.
fn find_metadata_idx(metas: &Vec<PluginMetadata>, key: &Vec<u8>) -> (r: Option<usize>)
    ensures
        match r {
            Some(i) => i < metas@.len() && spec_find_metadata(metas@, key@) == Some(
                metas@[i as int],
            ),
            None => spec_find_metadata(metas@, key@) is None,
        },
{
    let mut i: usize = 0;
    while i < metas.len()
        invariant
            i <= metas@.len(),
            forall|j: int| 0 <= j < i ==> fold_key_of(#[trigger] metas@[j].filename@) != key@,
        decreases metas@.len() - i,
    {
        let mkey = fold_case(metas[i].filename.as_str());
        if bytes_eq(&mkey, key) {
            proof {
                lemma_spec_find_metadata_skip(metas@, key@, i as int);
                assert(metas@.skip(i as int)[0] == metas@[i as int]);
            }
            return Some(i);
        }
        i += 1;
    }
    proof {
        lemma_spec_find_metadata_skip(metas@, key@, i as int);
        assert(metas@.skip(i as int) =~= Seq::<PluginMetadata>::empty());
    }
    None
}

/// The master table of a Starfield plugin. Three counters lay out the
/// mod-index space, one per scale: full masters from 0x0000_0000 in steps
/// of 0x0100_0000, medium masters from 0xFD00_0000 in steps of
/// 0x0001_0000, small masters from 0xFE00_0000 in steps of 0x0000_1000.
/// Each master's scale comes from the supplied metadata, matched by name
/// case-insensitively; a master without metadata fails the layout.
pub open spec fn spec_starfield_masters(
    masters: Seq<Seq<char>>,
    metas: Seq<PluginMetadata>,
    full: u32,
    medium: u32,
    small: u32,
) -> Option<Seq<SourcePluginV>>
    decreases masters.len(),
{
    if masters.len() == 0 {
        Some(Seq::empty())
    } else {
        match spec_find_metadata(metas, fold_key_of(masters[0])) {
            Some(meta) => {
                let mask = match meta.scale {
                    PluginScale::Full => full,
                    PluginScale::Medium => medium,
                    PluginScale::Small => small,
                };
                let entry = SourcePluginV {
                    name_key: fold_key_of(masters[0]),
                    mod_index_mask: mask,
                    object_index_mask: spec_parent_mask(GameId::Starfield, meta.scale),
                };
                let rest = match meta.scale {
                    PluginScale::Full => spec_starfield_masters(
                        masters.skip(1),
                        metas,
                        vstd::wrapping::u32_specs::wrapping_add(full, 0x0100_0000),
                        medium,
                        small,
                    ),
                    PluginScale::Medium => spec_starfield_masters(
                        masters.skip(1),
                        metas,
                        full,
                        vstd::wrapping::u32_specs::wrapping_add(medium, 0x0001_0000),
                        small,
                    ),
                    PluginScale::Small => spec_starfield_masters(
                        masters.skip(1),
                        metas,
                        full,
                        medium,
                        vstd::wrapping::u32_specs::wrapping_add(small, 0x0000_1000),
                    ),
                };
                match rest {
                    Some(r) => Some(seq![entry] + r),
                    None => None,
                }
            },
            None => None,
        }
    }
}

/// Appends a built prefix to the rest of a master table, or propagates
/// failure.
pub open spec fn sources_with_prefix(
    prefix: Seq<SourcePluginV>,
    rest: Option<Seq<SourcePluginV>>,
) -> Option<Seq<SourcePluginV>> {
    match rest {
        Some(r) => Some(prefix + r),
        None => None,
    }
}

/// Builds the master table of a Starfield plugin from its master list and
/// the supplied metadata; a master without metadata is an error.
pub fn hashed_masters_for_starfield(
    masters: &Vec<String>,
    masters_metadata: &Vec<PluginMetadata>,
) -> (r: Result<Vec<SourcePlugin>, Error>)
    ensures
        match r {
            Ok(v) => spec_starfield_masters(
                views_of_strings(masters@),
                masters_metadata@,
                0,
                0xFD00_0000,
                0xFE00_0000,
            ) == Some(views_of_sources(v@)),
            Err(e) => spec_starfield_masters(
                views_of_strings(masters@),
                masters_metadata@,
                0,
                0xFD00_0000,
                0xFE00_0000,
            ) is None && (e matches Error::PluginMetadataNotFound(n) && views_of_strings(
                masters@,
            ).contains(n@) && spec_find_metadata(masters_metadata@, fold_key_of(n@)) is None),
        },
{
    let ghost mviews = views_of_strings(masters@);
    let mut r: Vec<SourcePlugin> = Vec::new();
    let mut full_mask: u32 = 0;
    let mut medium_mask: u32 = 0xFD00_0000;
    let mut small_mask: u32 = 0xFE00_0000;
    let mut i: usize = 0;
    proof {
        assert(mviews.skip(0) =~= mviews);
        match spec_starfield_masters(mviews, masters_metadata@, 0, 0xFD00_0000, 0xFE00_0000) {
            Some(rest) => {
                assert(Seq::<SourcePluginV>::empty() + rest =~= rest);
            },
            None => {},
        }
    }
    while i < masters.len()
        invariant
            i <= masters@.len(),
            mviews == views_of_strings(masters@),
            spec_starfield_masters(mviews, masters_metadata@, 0, 0xFD00_0000, 0xFE00_0000)
                == sources_with_prefix(
                views_of_sources(r@),
                spec_starfield_masters(
                    mviews.skip(i as int),
                    masters_metadata@,
                    full_mask,
                    medium_mask,
                    small_mask,
                ),
            ),
        decreases masters@.len() - i,
    {
        let ghost rem = mviews.skip(i as int);
        proof {
            assert(rem[0] == mviews[i as int]);
            assert(rem.skip(1) =~= mviews.skip(i + 1));
        }
        let key = fold_case(masters[i].as_str());
        let scale = match find_metadata_idx(masters_metadata, &key) {
            Some(m) => masters_metadata[m].scale,
            None => {
                return Err(Error::PluginMetadataNotFound(masters[i].clone()));
            },
        };
        let ghost old_views = views_of_sources(r@);
        let (mod_index_mask, object_index_mask): (u32, ObjectIndexMask) = match scale {
            PluginScale::Full => {
                let m = full_mask;
                full_mask = full_mask.wrapping_add(0x0100_0000);
                (m, ObjectIndexMask::Full)
            },
            PluginScale::Medium => {
                let m = medium_mask;
                medium_mask = medium_mask.wrapping_add(0x0001_0000);
                (m, ObjectIndexMask::Medium)
            },
            PluginScale::Small => {
                let m = small_mask;
                small_mask = small_mask.wrapping_add(0x0000_1000);
                (m, ObjectIndexMask::Small)
            },
        };
        let entry = SourcePlugin::master(masters[i].as_str(), mod_index_mask, object_index_mask);
        let ghost entry_v = entry@;
        r.push(entry);
        proof {
            assert(views_of_sources(r@) =~= old_views + seq![entry_v]);
            match spec_starfield_masters(
                mviews.skip(i + 1),
                masters_metadata@,
                full_mask,
                medium_mask,
                small_mask,
            ) {
                Some(rest) => {
                    assert((old_views + seq![entry_v]) + rest =~= old_views + (seq![entry_v]
                        + rest));
                },
                None => {},
            }
        }
        i += 1;
    }
    proof {
        assert(mviews.skip(i as int) =~= Seq::<Seq<char>>::empty());
        assert(views_of_sources(r@) + Seq::<SourcePluginV>::empty() =~= views_of_sources(r@));
    }
    Ok(r)
}

/// A raw form-identifier list resolved against a parent and a master
/// table: each identifier resolved on its own.
pub open spec fn map_resolve(
    parent: SourcePluginV,
    sources: Seq<SourcePluginV>,
    fids: Seq<u32>,
) -> Seq<ResolvedIdV> {
    fids.map_values(|f: u32| spec_resolve_form_id(parent, sources, f))
}

/// What resolving a raw form-identifier list yields: each identifier
/// resolved against the parent and the master table, sorted ascending.
pub open spec fn spec_resolve_form_ids(
    parent: SourcePluginV,
    sources: Seq<SourcePluginV>,
    fids: Seq<u32>,
) -> Seq<ResolvedIdV> {
    sort_resolved_v(map_resolve(parent, sources, fids))
}

/// The master table a game lays out for a master list: per-scale counters
/// on Starfield (needing metadata), positional mod indexes elsewhere.
pub open spec fn spec_sources_for(
    game: GameId,
    masters: Seq<Seq<char>>,
    metas: Seq<PluginMetadata>,
) -> Option<Seq<SourcePluginV>> {
    if game == GameId::Starfield {
        spec_starfield_masters(masters, metas, 0, 0xFD00_0000, 0xFE00_0000)
    } else {
        Some(spec_hashed_masters(masters))
    }
}

/// Resolves raw form identifiers against the parent plugin's own metadata
/// and its masters'. Only Starfield needs metadata for the masters; a
/// Starfield master without metadata is an error.
pub fn resolve_form_ids(
    game_id: GameId,
    form_ids: &Vec<u32>,
    plugin_metadata: &PluginMetadata,
    masters: &Vec<String>,
    other_plugins_metadata: &Vec<PluginMetadata>,
) -> (r: Result<Vec<ResolvedRecordId>, Error>)
    ensures
        ({
            let parent = spec_hashed_parent(
                game_id,
                plugin_metadata.filename@,
                plugin_metadata.scale,
            );
            match spec_sources_for(game_id, views_of_strings(masters@), other_plugins_metadata@) {
                Some(srcs) => r matches Ok(v) && views_of_resolved(v@) == spec_resolve_form_ids(
                    parent,
                    srcs,
                    form_ids@,
                ) && crate::order::sorted(v@),
                None => r matches Err(e) && e is PluginMetadataNotFound,
            }
        }),
{
    let parent = hashed_parent(game_id, plugin_metadata);
    let sources: Vec<SourcePlugin> = if matches!(game_id, GameId::Starfield) {
        match hashed_masters_for_starfield(masters, other_plugins_metadata) {
            Ok(v) => v,
            Err(e) => {
                return Err(e);
            },
        }
    } else {
        hashed_masters(masters)
    };
    let ghost parent_v = parent@;
    let ghost srcs = views_of_sources(sources@);
    let mut mapped: Vec<ResolvedRecordId> = Vec::new();
    let mut i: usize = 0;
    proof {
        assert(views_of_resolved(mapped@) =~= map_resolve(parent_v, srcs, form_ids@.take(0)));
    }
    while i < form_ids.len()
        invariant
            i <= form_ids@.len(),
            parent_v == parent@,
            srcs == views_of_sources(sources@),
            views_of_resolved(mapped@) == map_resolve(parent_v, srcs, form_ids@.take(i as int)),
        decreases form_ids@.len() - i,
    {
        let id = ResolvedRecordId::from_form_id(&parent, &sources, form_ids[i]);
        let ghost idv = id@;
        mapped.push(id);
        proof {
            assert(form_ids@.take(i + 1) =~= form_ids@.take(i as int).push(form_ids@[i as int]));
            assert(map_resolve(parent_v, srcs, form_ids@.take(i + 1)) =~= map_resolve(
                parent_v,
                srcs,
                form_ids@.take(i as int),
            ).push(idv));
            assert(views_of_resolved(mapped@) =~= map_resolve(
                parent_v,
                srcs,
                form_ids@.take(i as int),
            ).push(idv));
        }
        i += 1;
    }
    proof {
        assert(form_ids@.take(form_ids@.len() as int) =~= form_ids@);
    }
    let ghost mapped_seq = mapped@;
    let sorted_ids = crate::order::sort_vec(mapped);
    proof {
        crate::order::lemma_sort_elems(mapped_seq);
        crate::record_id::lemma_sort_resolved_views(mapped_seq);
    }
    Ok(sorted_ids)
}

/// The union of the masters' record identities, in master order; a master
/// without metadata fails the union.
pub open spec fn spec_master_union(masters: Seq<Seq<char>>, metas: Seq<PluginMetadata>) -> Option<
    Seq<NamespacedIdV>,
>
    decreases masters.len(),
{
    if masters.len() == 0 {
        Some(Seq::empty())
    } else {
        match spec_find_metadata(metas, fold_key_of(masters[0])) {
            Some(meta) => match spec_master_union(masters.skip(1), metas) {
                Some(rest) => Some(views_of_namespaced(meta.record_ids@) + rest),
                None => None,
            },
            None => None,
        }
    }
}

/// Appends collected identities to the rest of a union, or propagates
/// failure.
pub open spec fn union_with_prefix(
    prefix: Seq<NamespacedIdV>,
    rest: Option<Seq<NamespacedIdV>>,
) -> Option<Seq<NamespacedIdV>> {
    match rest {
        Some(r) => Some(prefix + r),
        None => None,
    }
}

/// A namespaced identity list resolved against the union of the masters'
/// identities: each identity resolved on its own.
pub open spec fn map_resolve_namespaced(
    ids: Seq<NamespacedIdV>,
    union: Seq<NamespacedIdV>,
) -> Seq<ResolvedIdV> {
    ids.map_values(|id: NamespacedIdV| spec_resolve_namespaced_id(id, union))
}

/// What resolving a namespaced identity list yields: each identity marked
/// as an override exactly when some master defines it, sorted ascending.
pub open spec fn spec_resolve_namespaced_ids(
    ids: Seq<NamespacedIdV>,
    union: Seq<NamespacedIdV>,
) -> Seq<ResolvedIdV> {
    sort_resolved_v(map_resolve_namespaced(ids, union))
}

/// Resolves namespaced identities against the union of the masters'
/// identities; a master without metadata is an error.
pub fn resolve_namespaced_ids(
    namespaced_ids: &Vec<NamespacedId>,
    masters: &Vec<String>,
    other_plugins_metadata: &Vec<PluginMetadata>,
) -> (r: Result<Vec<ResolvedRecordId>, Error>)
    ensures
        ({
            match spec_master_union(views_of_strings(masters@), other_plugins_metadata@) {
                Some(union) => r matches Ok(v) && views_of_resolved(v@)
                    == spec_resolve_namespaced_ids(views_of_namespaced(namespaced_ids@), union)
                    && crate::order::sorted(v@),
                None => r matches Err(e) && e is PluginMetadataNotFound,
            }
        }),
{
    let ghost mviews = views_of_strings(masters@);
    let mut union: Vec<NamespacedId> = Vec::new();
    let mut i: usize = 0;
    proof {
        assert(mviews.skip(0) =~= mviews);
        match spec_master_union(mviews, other_plugins_metadata@) {
            Some(rest) => {
                assert(Seq::<NamespacedIdV>::empty() + rest =~= rest);
            },
            None => {},
        }
    }
    while i < masters.len()
        invariant
            i <= masters@.len(),
            mviews == views_of_strings(masters@),
            spec_master_union(mviews, other_plugins_metadata@) == union_with_prefix(
                views_of_namespaced(union@),
                spec_master_union(mviews.skip(i as int), other_plugins_metadata@),
            ),
        decreases masters@.len() - i,
    {
        proof {
            assert(mviews.skip(i as int)[0] == mviews[i as int]);
            assert(mviews.skip(i as int).skip(1) =~= mviews.skip(i + 1));
        }
        let key = fold_case(masters[i].as_str());
        let meta_idx = match find_metadata_idx(other_plugins_metadata, &key) {
            Some(m) => m,
            None => {
                return Err(Error::PluginMetadataNotFound(masters[i].clone()));
            },
        };
        let ghost old_union = views_of_namespaced(union@);
        let mut copied = crate::record_id::clone_namespaced_vec(
            &other_plugins_metadata[meta_idx].record_ids,
        );
        let ghost copied_views = views_of_namespaced(copied@);
        union.append(&mut copied);
        proof {
            assert(views_of_namespaced(union@) =~= old_union + copied_views);
            match spec_master_union(mviews.skip(i + 1), other_plugins_metadata@) {
                Some(rest) => {
                    assert((old_union + copied_views) + rest =~= old_union + (copied_views
                        + rest));
                },
                None => {},
            }
        }
        i += 1;
    }
    proof {
        assert(mviews.skip(i as int) =~= Seq::<Seq<char>>::empty());
        assert(views_of_namespaced(union@) + Seq::<NamespacedIdV>::empty() =~= views_of_namespaced(
            union@,
        ));
    }
    let ghost union_views = views_of_namespaced(union@);
    let mut mapped: Vec<ResolvedRecordId> = Vec::new();
    let mut j: usize = 0;
    proof {
        assert(views_of_resolved(mapped@) =~= map_resolve_namespaced(
            views_of_namespaced(namespaced_ids@).take(0),
            union_views,
        ));
    }
    while j < namespaced_ids.len()
        invariant
            j <= namespaced_ids@.len(),
            union_views == views_of_namespaced(union@),
            views_of_resolved(mapped@) == map_resolve_namespaced(
                views_of_namespaced(namespaced_ids@).take(j as int),
                union_views,
            ),
        decreases namespaced_ids@.len() - j,
    {
        let id = ResolvedRecordId::from_namespaced_id(&namespaced_ids[j], &union);
        let ghost idv = id@;
        mapped.push(id);
        proof {
            let ids_v = views_of_namespaced(namespaced_ids@);
            assert(ids_v.take(j + 1) =~= ids_v.take(j as int).push(ids_v[j as int]));
            assert(map_resolve_namespaced(ids_v.take(j + 1), union_views) =~= map_resolve_namespaced(
                ids_v.take(j as int),
                union_views,
            ).push(idv));
            assert(views_of_resolved(mapped@) =~= map_resolve_namespaced(
                ids_v.take(j as int),
                union_views,
            ).push(idv));
        }
        j += 1;
    }
    proof {
        let ids_v = views_of_namespaced(namespaced_ids@);
        assert(ids_v.take(ids_v.len() as int) =~= ids_v);
    }
    let ghost mapped_seq = mapped@;
    let sorted_ids = crate::order::sort_vec(mapped);
    proof {
        crate::order::lemma_sort_elems(mapped_seq);
        crate::record_id::lemma_sort_resolved_views(mapped_seq);
    }
    Ok(sorted_ids)
}

impl Plugin {
    /// The final component of the plugin's path, or nothing when the path
    /// has none.
    pub fn filename(&self) -> (r: Option<String>)
        ensures
            match r {
                Some(s) => s@ == spec_file_name(self.path@) && s@.len() > 0,
                None => spec_file_name(self.path@).len() == 0,
            },
    {
        let chars = chars_of(self.path.as_str());
        let name = crate::paths::file_name_chars(&chars);
        if name.len() == 0 {
            None
        } else {
            Some(crate::paths::string_of_chars(&name))
        }
    }
}

/// The metadata of each given plugin: its filename, its scale, and (for a
/// Morrowind plugin whose identities are not yet resolved) its namespaced
/// record identities. A plugin whose path has no final component is an
/// error.
pub fn plugins_metadata(plugins: &Vec<&Plugin>) -> (r: Result<Vec<PluginMetadata>, Error>)
    ensures
        match r {
            Ok(v) => v@.len() == plugins@.len() && forall|i: int|
                0 <= i < v@.len() ==> {
                    let p = #[trigger] plugins@[i];
                    v@[i].filename@ == spec_file_name(p.path@) && spec_file_name(p.path@).len() > 0
                        && v@[i].scale == p.spec_scale() && views_of_namespaced(v@[i].record_ids@)
                        == spec_own_namespaced_ids(*p)
                },
            Err(e) => (e matches Error::NoFilename(path) && exists|i: int|
                0 <= i < plugins@.len() && path@ == #[trigger] plugins@[i].path@ && spec_file_name(
                    plugins@[i].path@,
                ).len() == 0),
        },
{
    let mut v: Vec<PluginMetadata> = Vec::new();
    let mut i: usize = 0;
    while i < plugins.len()
        invariant
            i <= plugins@.len(),
            v@.len() == i,
            forall|k: int|
                0 <= k < i ==> {
                    let p = #[trigger] plugins@[k];
                    v@[k].filename@ == spec_file_name(p.path@) && spec_file_name(p.path@).len() > 0
                        && v@[k].scale == p.spec_scale() && views_of_namespaced(v@[k].record_ids@)
                        == spec_own_namespaced_ids(*p)
                },
        decreases plugins@.len() - i,
    {
        let plugin: &Plugin = plugins[i];
        let filename = match plugin.filename() {
            Some(f) => f,
            None => {
                return Err(Error::NoFilename(plugin.path.clone()));
            },
        };
        let record_ids: Vec<NamespacedId> = if matches!(plugin.game_id, GameId::Morrowind) {
            match &plugin.data.record_ids {
                RecordIds::NamespacedIds(ids) => crate::record_id::clone_namespaced_vec(ids),
                _ => Vec::new(),
            }
        } else {
            Vec::new()
        };
        proof {
            assert(views_of_namespaced(record_ids@) =~= spec_own_namespaced_ids(*plugins@[i as int]));
        }
        let metadata = PluginMetadata { filename, scale: plugin.scale(), record_ids };
        v.push(metadata);
        i += 1;
    }
    Ok(v)
}

/// The namespaced identities a plugin contributes as a master: its own,
/// when it is a Morrowind plugin whose identities are not yet resolved,
/// and none otherwise.
pub open spec fn spec_own_namespaced_ids(p: Plugin) -> Seq<NamespacedIdV> {
    if p.game_id == GameId::Morrowind {
        match p.data.record_ids {
            RecordIds::NamespacedIds(ids) => views_of_namespaced(ids@),
            _ => Seq::empty(),
        }
    } else {
        Seq::empty()
    }
}

/// How many of the resolved identities are overrides.
pub open spec fn count_overrides(s: Seq<ResolvedRecordId>) -> nat {
    s.filter(|x: ResolvedRecordId| x@.is_overridden).len()
}

/// Whether some plugin among `others` holds resolved identities and one of
/// them is the same record as `id`.
pub open spec fn spec_in_any_resolved(others: Seq<&Plugin>, id: ResolvedRecordId) -> bool {
    exists|k: int|
        0 <= k < others.len() && (#[trigger] others[k].data.record_ids matches RecordIds::Resolved(
            m,
        ) && contains_equiv(m@, id))
}

/// Whether some plugin among `others` holds namespaced identities and one
/// of them is the same record as `id`.
pub open spec fn spec_in_any_namespaced(others: Seq<&Plugin>, id: NamespacedId) -> bool {
    exists|k: int|
        0 <= k < others.len() && (#[trigger] others[k].data.record_ids
            matches RecordIds::NamespacedIds(m) && contains_equiv(m@, id))
}

/// How many of this plugin's resolved identities appear in at least one of
/// the others; each identity counts at most once however many others hold
/// it.
pub open spec fn count_overlap_resolved(ids: Seq<ResolvedRecordId>, others: Seq<&Plugin>) -> nat {
    ids.filter(|id: ResolvedRecordId| spec_in_any_resolved(others, id)).len()
}

/// How many of this plugin's namespaced identities appear in at least one
/// of the others; each identity counts at most once.
pub open spec fn count_overlap_namespaced(ids: Seq<NamespacedId>, others: Seq<&Plugin>) -> nat {
    ids.filter(|id: NamespacedId| spec_in_any_namespaced(others, id)).len()
}

/// The first of the others whose identities are still raw form
/// identifiers.
pub open spec fn spec_first_unresolved(others: Seq<&Plugin>) -> Option<&Plugin>
    decreases others.len(),
{
    if others.len() == 0 {
        None
    } else if others[0].data.record_ids is FormIds {
        Some(others[0])
    } else {
        spec_first_unresolved(others.skip(1))
    }
}

proof fn lemma_spec_first_unresolved_skip(others: Seq<&Plugin>, i: int)
    requires
        0 <= i <= others.len(),
        forall|j: int| 0 <= j < i ==> !(#[trigger] others[j].data.record_ids is FormIds),
    ensures
        spec_first_unresolved(others) == spec_first_unresolved(others.skip(i)),
    decreases i,
{
    if i == 0 {
        assert(others.skip(0) =~= others);
    } else {
        lemma_spec_first_unresolved_skip(others.skip(1), i - 1);
        assert(others.skip(1).skip(i - 1) =~= others.skip(i));
    }
}

/// Every new (non-override) identity has its object index inside the
/// inclusive range; override identities are unconstrained.
pub open spec fn spec_new_records_in_range(ids: Seq<ResolvedRecordId>, min: u32, max: u32) -> bool {
    forall|i: int|
        0 <= i < ids.len() && !(#[trigger] ids[i])@.is_overridden ==> min <= ids[i]@.object_index
            <= max
}

/// Every identity is an override.
pub open spec fn spec_all_overridden(ids: Seq<ResolvedRecordId>) -> bool {
    forall|i: int| 0 <= i < ids.len() ==> (#[trigger] ids[i])@.is_overridden
}

impl Plugin {
    /// Counts the records that override a master's record. Asks for
    /// resolved identities: raw or namespaced ones are an error, and a
    /// plugin with nothing parsed has no overrides.
    pub fn count_override_records(&self) -> (r: Result<usize, Error>)
        ensures
            match self.data.record_ids {
                RecordIds::Unparsed => r matches Ok(n) && n == 0,
                RecordIds::FormIds(_) | RecordIds::NamespacedIds(_) => r matches Err(
                    Error::UnresolvedRecordIds(p),
                ) && p@ == self.path@,
                RecordIds::Resolved(ids) => r matches Ok(n) && n == count_overrides(ids@),
            },
    {
        match &self.data.record_ids {
            RecordIds::Unparsed => Ok(0),
            RecordIds::FormIds(_) | RecordIds::NamespacedIds(_) => Err(
                Error::UnresolvedRecordIds(self.path.clone()),
            ),
            RecordIds::Resolved(ids) => {
                let mut count: usize = 0;
                let mut i: usize = 0;
                proof {
                    assert(ids@.take(0) =~= Seq::<ResolvedRecordId>::empty());
                    assert(count_overrides(ids@.take(0)) == 0) by {
                        reveal(Seq::filter);
                    }
                }
                while i < ids.len()
                    invariant
                        i <= ids@.len(),
                        count <= i,
                        count == count_overrides(ids@.take(i as int)),
                    decreases ids@.len() - i,
                {
                    proof {
                        lemma_count_filter_push(
                            ids@.take(i as int),
                            ids@[i as int],
                            |x: ResolvedRecordId| x@.is_overridden,
                        );
                        assert(ids@.take(i + 1) =~= ids@.take(i as int).push(ids@[i as int]));
                    }
                    if ids[i].is_overridden_record() {
                        count += 1;
                    }
                    i += 1;
                }
                proof {
                    assert(ids@.take(ids@.len() as int) =~= ids@);
                }
                Ok(count)
            },
        }
    }

    /// Whether this plugin and another define or override any record in
    /// common. Raw form identifiers on either side are an error, this
    /// side's first; resolved and namespaced identities never overlap each
    /// other; a side with nothing parsed overlaps nothing.
    pub fn overlaps_with(&self, other: &Plugin) -> (r: Result<bool, Error>)
        requires
            self.inv(),
            other.inv(),
        ensures
            match (self.data.record_ids, other.data.record_ids) {
                (RecordIds::FormIds(_), _) => r matches Err(Error::UnresolvedRecordIds(p)) && p@
                    == self.path@,
                (_, RecordIds::FormIds(_)) => r matches Err(Error::UnresolvedRecordIds(p)) && p@
                    == other.path@,
                (RecordIds::Resolved(a), RecordIds::Resolved(b)) => r matches Ok(v) && v
                    == intersects(a@, b@),
                (RecordIds::NamespacedIds(a), RecordIds::NamespacedIds(b)) => r matches Ok(v) && v
                    == intersects(a@, b@),
                _ => r matches Ok(v) && !v,
            },
    {
        match (&self.data.record_ids, &other.data.record_ids) {
            (RecordIds::FormIds(_), _) => Err(Error::UnresolvedRecordIds(self.path.clone())),
            (_, RecordIds::FormIds(_)) => Err(Error::UnresolvedRecordIds(other.path.clone())),
            (RecordIds::Resolved(a), RecordIds::Resolved(b)) => Ok(
                crate::order::sorted_intersect(a, b),
            ),
            (RecordIds::NamespacedIds(a), RecordIds::NamespacedIds(b)) => Ok(
                crate::order::sorted_intersect(a, b),
            ),
            _ => Ok(false),
        }
    }

    /// Counts the records this plugin shares with at least one of the
    /// others; a record matched by several others still counts once. This
    /// plugin's raw form identifiers are an error; so are any other's,
    /// while this plugin's identities are resolved.
    pub fn overlap_size(&self, others: &Vec<&Plugin>) -> (r: Result<usize, Error>)
        requires
            self.inv(),
            forall|k: int| 0 <= k < others@.len() ==> (#[trigger] others@[k]).inv(),
        ensures
            match self.data.record_ids {
                RecordIds::FormIds(_) => r matches Err(Error::UnresolvedRecordIds(p)) && p@
                    == self.path@,
                RecordIds::Unparsed => r matches Ok(n) && n == 0,
                RecordIds::Resolved(ids) => match spec_first_unresolved(others@) {
                    Some(o) => r matches Err(Error::UnresolvedRecordIds(p)) && p@ == o.path@,
                    None => r matches Ok(n) && n == count_overlap_resolved(ids@, others@),
                },
                RecordIds::NamespacedIds(ids) => r matches Ok(n) && n == count_overlap_namespaced(
                    ids@,
                    others@,
                ),
            },
    {
        match &self.data.record_ids {
            RecordIds::FormIds(_) => Err(Error::UnresolvedRecordIds(self.path.clone())),
            RecordIds::Unparsed => Ok(0),
            RecordIds::Resolved(ids) => {
                let mut k: usize = 0;
                while k < others.len()
                    invariant
                        k <= others@.len(),
                        self.data.record_ids is Resolved,
                        forall|j: int|
                            0 <= j < k ==> !(#[trigger] others@[j].data.record_ids is FormIds),
                    decreases others@.len() - k,
                {
                    if matches!(&others[k].data.record_ids, RecordIds::FormIds(_)) {
                        proof {
                            lemma_spec_first_unresolved_skip(others@, k as int);
                            assert(others@.skip(k as int)[0] == others@[k as int]);
                        }
                        return Err(Error::UnresolvedRecordIds(others[k].path.clone()));
                    }
                    k += 1;
                }
                proof {
                    lemma_spec_first_unresolved_skip(others@, k as int);
                    assert(others@.skip(k as int) =~= Seq::<&Plugin>::empty());
                }
                let mut count: usize = 0;
                let mut i: usize = 0;
                proof {
                    assert(ids@.take(0) =~= Seq::<ResolvedRecordId>::empty());
                    assert(count_overlap_resolved(ids@.take(0), others@) == 0) by {
                        reveal(Seq::filter);
                    }
                }
                while i < ids.len()
                    invariant
                        i <= ids@.len(),
                        count <= i,
                        forall|j: int| 0 <= j < others@.len() ==> (#[trigger] others@[j]).inv(),
                        count == count_overlap_resolved(ids@.take(i as int), others@),
                    decreases ids@.len() - i,
                {
                    let mut found = false;
                    let mut k2: usize = 0;
                    while k2 < others.len()
                        invariant
                            k2 <= others@.len(),
                            i < ids@.len(),
                            forall|j: int| 0 <= j < others@.len() ==> (#[trigger] others@[j]).inv(),
                            found == exists|j: int|
                                0 <= j < k2 && (#[trigger] others@[j].data.record_ids
                                    matches RecordIds::Resolved(m) && contains_equiv(
                                    m@,
                                    ids@[i as int],
                                )),
                        decreases others@.len() - k2,
                    {
                        match &others[k2].data.record_ids {
                            RecordIds::Resolved(m) => {
                                if crate::order::sorted_contains(m, &ids[i]) {
                                    found = true;
                                    proof {
                                        assert(others@[k2 as int].data.record_ids
                                            matches RecordIds::Resolved(mm) && contains_equiv(
                                            mm@,
                                            ids@[i as int],
                                        ));
                                    }
                                }
                            },
                            _ => {},
                        }
                        k2 += 1;
                    }
                    proof {
                        assert(found == spec_in_any_resolved(others@, ids@[i as int]));
                        lemma_count_filter_push(
                            ids@.take(i as int),
                            ids@[i as int],
                            |id: ResolvedRecordId| spec_in_any_resolved(others@, id),
                        );
                        assert(ids@.take(i + 1) =~= ids@.take(i as int).push(ids@[i as int]));
                    }
                    if found {
                        count += 1;
                    }
                    i += 1;
                }
                proof {
                    assert(ids@.take(ids@.len() as int) =~= ids@);
                }
                Ok(count)
            },
            RecordIds::NamespacedIds(ids) => {
                let mut count: usize = 0;
                let mut i: usize = 0;
                proof {
                    assert(ids@.take(0) =~= Seq::<NamespacedId>::empty());
                    assert(count_overlap_namespaced(ids@.take(0), others@) == 0) by {
                        reveal(Seq::filter);
                    }
                }
                while i < ids.len()
                    invariant
                        i <= ids@.len(),
                        count <= i,
                        forall|j: int| 0 <= j < others@.len() ==> (#[trigger] others@[j]).inv(),
                        count == count_overlap_namespaced(ids@.take(i as int), others@),
                    decreases ids@.len() - i,
                {
                    let mut found = false;
                    let mut k2: usize = 0;
                    while k2 < others.len()
                        invariant
                            k2 <= others@.len(),
                            i < ids@.len(),
                            forall|j: int| 0 <= j < others@.len() ==> (#[trigger] others@[j]).inv(),
                            found == exists|j: int|
                                0 <= j < k2 && (#[trigger] others@[j].data.record_ids
                                    matches RecordIds::NamespacedIds(m) && contains_equiv(
                                    m@,
                                    ids@[i as int],
                                )),
                        decreases others@.len() - k2,
                    {
                        match &others[k2].data.record_ids {
                            RecordIds::NamespacedIds(m) => {
                                if crate::order::sorted_contains(m, &ids[i]) {
                                    found = true;
                                    proof {
                                        assert(others@[k2 as int].data.record_ids
                                            matches RecordIds::NamespacedIds(mm) && contains_equiv(
                                            mm@,
                                            ids@[i as int],
                                        ));
                                    }
                                }
                            },
                            _ => {},
                        }
                        k2 += 1;
                    }
                    proof {
                        assert(found == spec_in_any_namespaced(others@, ids@[i as int]));
                        lemma_count_filter_push(
                            ids@.take(i as int),
                            ids@[i as int],
                            |id: NamespacedId| spec_in_any_namespaced(others@, id),
                        );
                        assert(ids@.take(i + 1) =~= ids@.take(i as int).push(ids@[i as int]));
                    }
                    if found {
                        count += 1;
                    }
                    i += 1;
                }
                proof {
                    assert(ids@.take(ids@.len() as int) =~= ids@);
                }
                Ok(count)
            },
        }
    }
}

/// Appending an element grows the filtered count by one exactly when the
/// element satisfies the predicate.
proof fn lemma_count_filter_push<T>(s: Seq<T>, x: T, pred: spec_fn(T) -> bool)
    ensures
        s.push(x).filter(pred).len() == s.filter(pred).len() + (if pred(x) {
            1int
        } else {
            0int
        }),
{
    reveal(Seq::filter);
    assert(s.push(x).drop_last() =~= s);
    assert(s.push(x).last() == x);
}

impl Plugin {
    /// Checks every new record of the resolved identities against an
    /// inclusive object-index range.
    fn new_records_in_range(ids: &Vec<ResolvedRecordId>, min: u32, max: u32) -> (r: bool)
        ensures
            r == spec_new_records_in_range(ids@, min, max),
    {
        let mut i: usize = 0;
        while i < ids.len()
            invariant
                i <= ids@.len(),
                forall|j: int|
                    0 <= j < i && !(#[trigger] ids@[j])@.is_overridden ==> min
                        <= ids@[j]@.object_index <= max,
            decreases ids@.len() - i,
        {
            if !ids[i].is_overridden_record() && !ids[i].is_object_index_in(min, max) {
                return false;
            }
            i += 1;
        }
        true
    }

    /// Whether the plugin would be valid as a light plugin: every new
    /// record's object index lies in the valid light range; overrides
    /// never affect validity. Only games with light plugins qualify; raw
    /// form identifiers are an error; with nothing parsed there is nothing
    /// to violate.
    pub fn is_valid_as_light_plugin(&self) -> (r: Result<bool, Error>)
        ensures
            ({
                let range = self.spec_valid_light_range();
                if !self.game_id.spec_supports_light_plugins() {
                    r matches Ok(v) && !v
                } else {
                    match self.data.record_ids {
                        RecordIds::Unparsed => r matches Ok(v) && v,
                        RecordIds::FormIds(_) => r matches Err(Error::UnresolvedRecordIds(p))
                            && p@ == self.path@,
                        RecordIds::Resolved(ids) => r matches Ok(v) && v
                            == spec_new_records_in_range(ids@, range.0, range.1),
                        RecordIds::NamespacedIds(_) => r matches Ok(v) && !v,
                    }
                }
            }),
    {
        if !self.game_id().supports_light_plugins() {
            return Ok(false);
        }
        match &self.data.record_ids {
            RecordIds::Unparsed => Ok(true),
            RecordIds::FormIds(_) => Err(Error::UnresolvedRecordIds(self.path.clone())),
            RecordIds::Resolved(ids) => {
                let range = self.valid_light_form_id_range();
                Ok(Self::new_records_in_range(ids, range.0, range.1))
            },
            RecordIds::NamespacedIds(_) => Ok(false),
        }
    }

    /// Whether the plugin would be valid as a medium plugin: every new
    /// record's object index lies in the valid medium range; overrides
    /// never affect validity. Only games with medium plugins qualify; raw
    /// form identifiers are an error; with nothing parsed there is nothing
    /// to violate.
    pub fn is_valid_as_medium_plugin(&self) -> (r: Result<bool, Error>)
        ensures
            ({
                let range = self.spec_valid_medium_range();
                if !self.game_id.spec_supports_medium_plugins() {
                    r matches Ok(v) && !v
                } else {
                    match self.data.record_ids {
                        RecordIds::Unparsed => r matches Ok(v) && v,
                        RecordIds::FormIds(_) => r matches Err(Error::UnresolvedRecordIds(p))
                            && p@ == self.path@,
                        RecordIds::Resolved(ids) => r matches Ok(v) && v
                            == spec_new_records_in_range(ids@, range.0, range.1),
                        RecordIds::NamespacedIds(_) => r matches Ok(v) && !v,
                    }
                }
            }),
    {
        if !self.game_id().supports_medium_plugins() {
            return Ok(false);
        }
        match &self.data.record_ids {
            RecordIds::Unparsed => Ok(true),
            RecordIds::FormIds(_) => Err(Error::UnresolvedRecordIds(self.path.clone())),
            RecordIds::Resolved(ids) => {
                let range = self.valid_medium_form_id_range();
                Ok(Self::new_records_in_range(ids, range.0, range.1))
            },
            RecordIds::NamespacedIds(_) => Ok(false),
        }
    }

    /// Whether the plugin would be valid as an update plugin: Starfield
    /// only, and every resolved identity must be an override, since a new
    /// record in an update plugin would land in the first master's mod
    /// index. Raw form identifiers are an error; with nothing parsed there
    /// is nothing to violate.
    pub fn is_valid_as_update_plugin(&self) -> (r: Result<bool, Error>)
        ensures
            if self.game_id != GameId::Starfield {
                r matches Ok(v) && !v
            } else {
                match self.data.record_ids {
                    RecordIds::Unparsed => r matches Ok(v) && v,
                    RecordIds::FormIds(_) => r matches Err(Error::UnresolvedRecordIds(p)) && p@
                        == self.path@,
                    RecordIds::Resolved(ids) => r matches Ok(v) && v == spec_all_overridden(ids@),
                    RecordIds::NamespacedIds(_) => r matches Ok(v) && !v,
                }
            },
    {
        if !matches!(self.game_id, GameId::Starfield) {
            return Ok(false);
        }
        match &self.data.record_ids {
            RecordIds::Unparsed => Ok(true),
            RecordIds::FormIds(_) => Err(Error::UnresolvedRecordIds(self.path.clone())),
            RecordIds::Resolved(ids) => {
                let mut i: usize = 0;
                while i < ids.len()
                    invariant
                        i <= ids@.len(),
                        self.game_id == GameId::Starfield,
                        self.data.record_ids == RecordIds::Resolved(*ids),
                        forall|j: int| 0 <= j < i ==> (#[trigger] ids@[j])@.is_overridden,
                    decreases ids@.len() - i,
                {
                    if !ids[i].is_overridden_record() {
                        return Ok(false);
                    }
                    i += 1;
                }
                Ok(true)
            },
            RecordIds::NamespacedIds(_) => Ok(false),
        }
    }
}

/// The namespaced identities of every record of a Morrowind plugin body,
/// walked record by record from `pos`; records without a naming subrecord
/// contribute nothing.
pub open spec fn spec_mw_record_ids_from(s: Seq<u8>, pos: int) -> Option<Seq<NamespacedIdV>>
    decreases s.len() - pos,
{
    if pos < 0 {
        None
    } else if pos >= s.len() {
        Some(Seq::empty())
    } else {
        match spec_read_record_id(s, pos, true) {
            Some((_flags, rid, end)) => if pos < end <= s.len() {
                match spec_mw_record_ids_from(s, end) {
                    Some(rest) => Some(
                        (match rid {
                            Some(RecordIdV::NamespacedId(n)) => seq![n],
                            _ => Seq::empty(),
                        }) + rest,
                    ),
                    None => None,
                }
            } else {
                None
            },
            None => None,
        }
    }
}

/// The form identifiers of a plugin body, walked entry by entry from
/// `pos`: each entry is a record or a group.
pub open spec fn spec_stream_form_ids(s: Seq<u8>, pos: int) -> Option<Seq<u32>>
    decreases s.len() - pos,
{
    if pos < 0 {
        None
    } else if pos >= s.len() {
        Some(Seq::empty())
    } else {
        match spec_entry_form_ids(s, pos) {
            Some((ids, end)) => if pos < end <= s.len() {
                match spec_stream_form_ids(s, end) {
                    Some(rest) => Some(ids + rest),
                    None => None,
                }
            } else {
                None
            },
            None => None,
        }
    }
}

/// Whether parsing the given bytes as a plugin of the given game succeeds:
/// the header record must parse under the expected tag, and, for a whole
/// parse, so must the body; resolving the body's identifiers (done at once
/// for every game but Morrowind and Starfield) also needs the path to have
/// a final component.
pub open spec fn spec_parse_succeeds(
    game: GameId,
    path: Seq<char>,
    s: Seq<u8>,
    header_only: bool,
) -> bool {
    match spec_read_record(
        s,
        0,
        game == GameId::Morrowind,
        if game == GameId::Morrowind {
            TES3_TAG
        } else {
            TES4_TAG
        },
    ) {
        Some((hv, hend)) => header_only || (if game == GameId::Morrowind {
            spec_mw_record_ids_from(s, hend) is Some
        } else {
            spec_stream_form_ids(s, hend) is Some && (game == GameId::Starfield || spec_file_name(
                path,
            ).len() > 0)
        }),
        None => false,
    }
}

impl Plugin {
    /// The master names in this plugin's header.
    pub open spec fn spec_masters_list(self) -> Seq<Seq<char>> {
        spec_masters_of(self.data.header_record@.subrecords)
    }

    /// Moves raw or namespaced record identifiers to resolved ones, using
    /// the supplied metadata for the masters; identifiers already resolved,
    /// or never parsed, stay as they are. The metadata can be empty for
    /// every game but Starfield and Morrowind, whose resolutions look each
    /// master up in it.
    pub fn resolve_record_ids(&mut self, plugins_metadata: &Vec<PluginMetadata>) -> (r: Result<
        (),
        Error,
    >)
        requires
            old(self).inv(),
        ensures
            final(self).game_id == old(self).game_id,
            final(self).path == old(self).path,
            final(self).data.header_record == old(self).data.header_record,
            final(self).inv(),
            match old(self).data.record_ids {
                RecordIds::Unparsed | RecordIds::Resolved(_) => r matches Ok(u) && u == ()
                    && *final(self) == *old(self),
                RecordIds::FormIds(fids) => match r {
                    Ok(_) => spec_file_name(old(self).path@).len() > 0 && (spec_sources_for(
                        old(self).game_id,
                        old(self).spec_masters_list(),
                        plugins_metadata@,
                    ) matches Some(srcs) && (final(self).data.record_ids
                        matches RecordIds::Resolved(v) && views_of_resolved(v@)
                        == spec_resolve_form_ids(
                        spec_hashed_parent(
                            old(self).game_id,
                            spec_file_name(old(self).path@),
                            old(self).spec_scale(),
                        ),
                        srcs,
                        fids@,
                    ))),
                    Err(e) => *final(self) == *old(self) && ((spec_file_name(
                        old(self).path@,
                    ).len() == 0 && (e matches Error::NoFilename(p) && p@ == old(self).path@)) || (
                    spec_file_name(old(self).path@).len() > 0 && spec_sources_for(
                        old(self).game_id,
                        old(self).spec_masters_list(),
                        plugins_metadata@,
                    ) is None && e is PluginMetadataNotFound)),
                },
                RecordIds::NamespacedIds(ids) => match r {
                    Ok(_) => spec_master_union(
                        old(self).spec_masters_list(),
                        plugins_metadata@,
                    ) matches Some(union) && (final(self).data.record_ids
                        matches RecordIds::Resolved(v) && views_of_resolved(v@)
                        == spec_resolve_namespaced_ids(views_of_namespaced(ids@), union)),
                    Err(e) => *final(self) == *old(self) && spec_master_union(
                        old(self).spec_masters_list(),
                        plugins_metadata@,
                    ) is None && e is PluginMetadataNotFound,
                },
            },
    {
        match &self.data.record_ids {
            RecordIds::Unparsed | RecordIds::Resolved(_) => Ok(()),
            RecordIds::FormIds(fids) => {
                let filename = match self.filename() {
                    Some(f) => f,
                    None => {
                        return Err(Error::NoFilename(self.path.clone()));
                    },
                };
                let scale = self.scale();
                let parent_metadata = PluginMetadata { filename, scale, record_ids: Vec::new() };
                let masters = match self.masters() {
                    Ok(m) => m,
                    Err(e) => {
                        return Err(e);
                    },
                };
                let resolved = match resolve_form_ids(
                    self.game_id,
                    fids,
                    &parent_metadata,
                    &masters,
                    plugins_metadata,
                ) {
                    Ok(v) => v,
                    Err(e) => {
                        return Err(e);
                    },
                };
                self.data.record_ids = RecordIds::Resolved(resolved);
                Ok(())
            },
            RecordIds::NamespacedIds(ids) => {
                let masters = match self.masters() {
                    Ok(m) => m,
                    Err(e) => {
                        return Err(e);
                    },
                };
                let resolved = match resolve_namespaced_ids(ids, &masters, plugins_metadata) {
                    Ok(v) => v,
                    Err(e) => {
                        return Err(e);
                    },
                };
                self.data.record_ids = RecordIds::Resolved(resolved);
                Ok(())
            },
        }
    }

    /// Parses a plugin's bytes: the header record first, then (unless the
    /// options stop there) the record identifiers of the body. A Morrowind
    /// body becomes sorted namespaced identities; a Starfield body stays
    /// raw form identifiers, since resolution needs the masters' metadata;
    /// any other body is resolved at once against the plugin's own master
    /// list. A failed parse leaves the plugin as it was.
    pub fn parse_bytes(&mut self, data: &[u8], options: ParseOptions) -> (r: Result<(), Error>)
        ensures
            final(self).game_id == old(self).game_id,
            final(self).path == old(self).path,
            r is Ok ==> final(self).inv(),
            old(self).inv() ==> final(self).inv(),
            r is Ok <==> spec_parse_succeeds(
                old(self).game_id,
                old(self).path@,
                data@,
                options.header_only,
            ),
            match r {
                Ok(_) => spec_read_record(
                    data@,
                    0,
                    old(self).game_id == GameId::Morrowind,
                    old(self).spec_header_type(),
                ) matches Some((hv, hend)) && final(self).data.header_record@ == hv && (
                if options.header_only {
                    final(self).data.record_ids is Unparsed
                } else if old(self).game_id == GameId::Morrowind {
                    spec_mw_record_ids_from(data@, hend) matches Some(raw) && (final(self).data.record_ids matches RecordIds::NamespacedIds(v) && views_of_namespaced(
                        v@,
                    ) == crate::record_id::sort_namespaced_v(raw))
                } else if old(self).game_id == GameId::Starfield {
                    spec_stream_form_ids(data@, hend) matches Some(fids) && (final(self).data.record_ids matches RecordIds::FormIds(v) && v@ == fids)
                } else {
                    spec_stream_form_ids(data@, hend) matches Some(fids) && (final(self).data.record_ids matches RecordIds::Resolved(v) && views_of_resolved(v@)
                        == spec_resolve_form_ids(
                        spec_hashed_parent(
                            old(self).game_id,
                            spec_file_name(old(self).path@),
                            final(self).spec_scale(),
                        ),
                        spec_hashed_masters(spec_masters_of(hv.subrecords)),
                        fids,
                    ))
                }),
                Err(e) => *final(self) == *old(self) && (e is ParsingError || e is DecodeError
                    || e is NoFilename),
            },
    {
        let morrowind = matches!(self.game_id, GameId::Morrowind);
        let (header, hend) = match Record::read(data, 0, morrowind, self.header_type()) {
            Ok(h) => h,
            Err(e) => {
                return Err(e);
            },
        };
        if options.header_only {
            self.data = PluginData { header_record: header, record_ids: RecordIds::Unparsed };
            return Ok(());
        }
        if morrowind {
            let ids = match read_morrowind_ids(data, hend) {
                Ok(v) => v,
                Err(e) => {
                    return Err(e);
                },
            };
            let ghost raw_seq = ids@;
            let sorted_ids = crate::order::sort_vec(ids);
            proof {
                crate::order::lemma_sort_elems(raw_seq);
                crate::record_id::lemma_sort_namespaced_views(raw_seq);
            }
            self.data = PluginData {
                header_record: header,
                record_ids: RecordIds::NamespacedIds(sorted_ids),
            };
            Ok(())
        } else {
            let fids = match read_stream_form_ids(data, hend) {
                Ok(v) => v,
                Err(e) => {
                    return Err(e);
                },
            };
            if matches!(self.game_id, GameId::Starfield) {
                self.data = PluginData {
                    header_record: header,
                    record_ids: RecordIds::FormIds(fids),
                };
                return Ok(());
            }
            match self.filename() {
                Some(_) => {},
                None => {
                    return Err(Error::NoFilename(self.path.clone()));
                },
            }
            self.data = PluginData { header_record: header, record_ids: RecordIds::FormIds(fids) };
            let empty_metadata: Vec<PluginMetadata> = Vec::new();
            match self.resolve_record_ids(&empty_metadata) {
                Ok(_) => Ok(()),
                Err(e) => {
                    // Unreachable: the filename was checked above, and a
                    // master table for a game other than Starfield needs no
                    // outside metadata.
                    proof {
                        assert(false);
                    }
                    Err(e)
                },
            }
        }
    }
}

/// Walks a Morrowind plugin body from `pos`, collecting the namespaced
/// identity of each record that has one, in stream order.
#[verifier::rlimit(50)]
fn read_morrowind_ids(data: &[u8], pos: usize) -> (r: Result<Vec<NamespacedId>, Error>)
    ensures
        match r {
            Ok(v) => spec_mw_record_ids_from(data@, pos as int) == Some(views_of_namespaced(v@)),
            Err(e) => spec_mw_record_ids_from(data@, pos as int) is None && (e is ParsingError
                || e is DecodeError),
        },
{
    let ghost s = data@;
    let len = data.len();
    let mut ids: Vec<NamespacedId> = Vec::new();
    let mut cur = pos;
    proof {
        match spec_mw_record_ids_from(s, pos as int) {
            Some(rest) => {
                assert(Seq::<NamespacedIdV>::empty() + rest =~= rest);
            },
            None => {},
        }
    }
    while cur < len
        invariant
            len == s.len(),
            s == data@,
            spec_mw_record_ids_from(s, pos as int) == union_with_prefix(
                views_of_namespaced(ids@),
                spec_mw_record_ids_from(s, cur as int),
            ),
        decreases len - cur,
    {
        match Record::read_record_id(data, cur, true) {
            Ok((_flags, rid, end)) => {
                let ghost old_views = views_of_namespaced(ids@);
                let ghost contributed: Seq<NamespacedIdV> = match &rid {
                    Some(RecordId::NamespacedId(n)) => seq![n@],
                    _ => Seq::empty(),
                };
                match rid {
                    Some(RecordId::NamespacedId(n)) => {
                        ids.push(n);
                    },
                    _ => {},
                }
                proof {
                    assert(views_of_namespaced(ids@) =~= old_views + contributed);
                    match spec_mw_record_ids_from(s, end as int) {
                        Some(rest) => {
                            assert((old_views + contributed) + rest =~= old_views + (contributed
                                + rest));
                        },
                        None => {},
                    }
                }
                cur = end;
            },
            Err(e) => {
                return Err(e);
            },
        }
    }
    proof {
        assert(views_of_namespaced(ids@) + Seq::<NamespacedIdV>::empty() =~= views_of_namespaced(
            ids@,
        ));
    }
    Ok(ids)
}

/// Walks a plugin body from `pos`, collecting the form identifier of every
/// record, inside groups and out, in stream order.
#[verifier::rlimit(50)]
fn read_stream_form_ids(data: &[u8], pos: usize) -> (r: Result<Vec<u32>, Error>)
    ensures
        match r {
            Ok(v) => spec_stream_form_ids(data@, pos as int) == Some(v@),
            Err(e) => spec_stream_form_ids(data@, pos as int) is None && (e is ParsingError
                || e is DecodeError),
        },
{
    let ghost s = data@;
    let len = data.len();
    let mut fids: Vec<u32> = Vec::new();
    let mut cur = pos;
    proof {
        match spec_stream_form_ids(s, pos as int) {
            Some(rest) => {
                assert(Seq::<u32>::empty() + rest =~= rest);
            },
            None => {},
        }
    }
    while cur < len
        invariant
            len == s.len(),
            s == data@,
            spec_stream_form_ids(s, pos as int) == crate::group::ids_with_prefix(
                fids@,
                spec_stream_form_ids(s, cur as int),
            ),
        decreases len - cur,
    {
        let ghost old_fids = fids@;
        match crate::group::read_entry_form_ids(data, cur, &mut fids) {
            Ok(end) => {
                proof {
                    let contributed = fids@.skip(old_fids.len() as int);
                    assert(fids@ =~= old_fids + contributed);
                    match spec_stream_form_ids(s, end as int) {
                        Some(rest) => {
                            assert((old_fids + contributed) + rest =~= old_fids + (contributed
                                + rest));
                        },
                        None => {},
                    }
                }
                cur = end;
            },
            Err(e) => {
                return Err(e);
            },
        }
    }
    proof {
        assert(fids@ + Seq::<u32>::empty() =~= fids@);
    }
    Ok(fids)
}

/// Filtering under predicates that agree on every element yields the same
/// sequence.
proof fn lemma_filter_congruence<T>(s: Seq<T>, p1: spec_fn(T) -> bool, p2: spec_fn(T) -> bool)
    requires
        forall|x: T| #[trigger] p1(x) == p2(x),
    ensures
        s.filter(p1) == s.filter(p2),
    decreases s.len(),
{
    reveal(Seq::filter);
    if s.len() == 0 {
        assert(s.filter(p1) =~= s.filter(p2));
    } else {
        lemma_filter_congruence(s.drop_last(), p1, p2);
        assert(p1(s.last()) == p2(s.last()));
    }
}

/// Overlap counting sees only which records the others hold: two lists of
/// others that answer every membership question alike yield the same
/// count.
pub proof fn lemma_overlap_count_same_membership(
    ids: Seq<ResolvedRecordId>,
    others1: Seq<&Plugin>,
    others2: Seq<&Plugin>,
)
    ensures
        (forall|id: ResolvedRecordId|
            #[trigger] spec_in_any_resolved(others1, id) == spec_in_any_resolved(others2, id))
            ==> count_overlap_resolved(ids, others1) == count_overlap_resolved(ids, others2),
{
    if forall|id: ResolvedRecordId|
        #[trigger] spec_in_any_resolved(others1, id) == spec_in_any_resolved(others2, id) {
        lemma_filter_congruence(
            ids,
            |id: ResolvedRecordId| spec_in_any_resolved(others1, id),
            |id: ResolvedRecordId| spec_in_any_resolved(others2, id),
        );
    }
}

/// A list of others that all are the same plugin counts overlaps exactly as
/// that one plugin alone: a record matched by several duplicates still
/// counts once.
pub proof fn lemma_overlap_count_duplicates(
    ids: Seq<ResolvedRecordId>,
    others: Seq<&Plugin>,
    other: &Plugin,
)
    requires
        others.len() > 0,
        forall|k: int| 0 <= k < others.len() ==> others[k] == other,
    ensures
        count_overlap_resolved(ids, others) == count_overlap_resolved(ids, seq![other]),
{
    assert forall|id: ResolvedRecordId|
        #[trigger] spec_in_any_resolved(others, id) == spec_in_any_resolved(seq![other], id) by {
        if spec_in_any_resolved(others, id) {
            let k = choose|k: int|
                0 <= k < others.len() && (#[trigger] others[k].data.record_ids
                    matches RecordIds::Resolved(m) && contains_equiv(m@, id));
            assert(seq![other][0] == others[k]);
            assert(spec_in_any_resolved(seq![other], id));
        }
        if spec_in_any_resolved(seq![other], id) {
            assert(others[0] == other);
            assert(spec_in_any_resolved(others, id));
        }
    }
    lemma_overlap_count_same_membership(ids, others, seq![other]);
}

/// The namespaced counterpart: duplicate others never change the overlap
/// count.
pub proof fn lemma_overlap_count_duplicates_namespaced(
    ids: Seq<NamespacedId>,
    others: Seq<&Plugin>,
    other: &Plugin,
)
    requires
        others.len() > 0,
        forall|k: int| 0 <= k < others.len() ==> others[k] == other,
    ensures
        count_overlap_namespaced(ids, others) == count_overlap_namespaced(ids, seq![other]),
{
    assert forall|id: NamespacedId|
        #[trigger] spec_in_any_namespaced(others, id) == spec_in_any_namespaced(
            seq![other],
            id,
        ) by {
        if spec_in_any_namespaced(others, id) {
            let k = choose|k: int|
                0 <= k < others.len() && (#[trigger] others[k].data.record_ids
                    matches RecordIds::NamespacedIds(m) && contains_equiv(m@, id));
            assert(seq![other][0] == others[k]);
            assert(spec_in_any_namespaced(seq![other], id));
        }
        if spec_in_any_namespaced(seq![other], id) {
            assert(others[0] == other);
            assert(spec_in_any_namespaced(others, id));
        }
    }
    lemma_filter_congruence(
        ids,
        |id: NamespacedId| spec_in_any_namespaced(others, id),
        |id: NamespacedId| spec_in_any_namespaced(seq![other], id),
    );
}

/// Resolution is case-insensitive in plugin names: a plugin whose filename
/// and master names differ only in letter case (so that they case-fold
/// alike) resolves raw form identifiers to the same list.
pub proof fn lemma_resolution_case_insensitive(
    game: GameId,
    fids: Seq<u32>,
    scale: PluginScale,
    name1: Seq<char>,
    name2: Seq<char>,
    masters1: Seq<Seq<char>>,
    masters2: Seq<Seq<char>>,
)
    ensures
        (fold_key_of(name1) == fold_key_of(name2) && masters1.len() == masters2.len() && (forall|
            i: int,
        |
            0 <= i < masters1.len() ==> fold_key_of(#[trigger] masters1[i]) == fold_key_of(
                masters2[i],
            ))) ==> spec_resolve_form_ids(
            spec_hashed_parent(game, name1, scale),
            spec_hashed_masters(masters1),
            fids,
        ) == spec_resolve_form_ids(
            spec_hashed_parent(game, name2, scale),
            spec_hashed_masters(masters2),
            fids,
        ),
{
    if fold_key_of(name1) == fold_key_of(name2) && masters1.len() == masters2.len() && (forall|
        i: int,
    |
        0 <= i < masters1.len() ==> fold_key_of(#[trigger] masters1[i]) == fold_key_of(
            masters2[i],
        )) {
        assert(spec_hashed_parent(game, name1, scale) == spec_hashed_parent(game, name2, scale));
        assert(spec_hashed_masters(masters1) =~= spec_hashed_masters(masters2));
    }
}

/// A path ending in `.esl` loads as a light plugin on Skyrim Special
/// Edition and Fallout 4, whatever the header says.
pub proof fn lemma_esl_extension_forces_light(p: Plugin)
    ensures
        (p.game_id == GameId::SkyrimSE || p.game_id == GameId::Fallout4) && p.spec_file_ext()
            == FileExtension::Esl ==> p.spec_is_light_plugin(),
{
}

/// On Starfield the update flag keeps an `.esl` extension from forcing the
/// light form: with the update flag set and the light flag clear, the
/// plugin is not light.
pub proof fn lemma_update_flag_blocks_esl(p: Plugin)
    ensures
        p.game_id == GameId::Starfield && p.spec_is_update_flag_set()
            && !p.spec_is_light_flag_set() ==> !p.spec_is_light_plugin(),
{
}

} // verus!
