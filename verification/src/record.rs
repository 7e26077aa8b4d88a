//! Records: a tagged header, flags, a form identifier and a subrecord list.

use vstd::prelude::*;

use crate::compress::{decompress_zlib, inflate_of};
use crate::error::{Error, ParsingErrorKind};
use crate::reader::{le_u32, read_le_u32, spec_until_first_null, until_first_null};
use crate::record_id::{NamespacedId, NamespacedIdV};
use crate::subrecord::{
    read_subrecords, spec_parse_subrecords, views_of_subrecords, Subrecord, SubrecordV,
};
use crate::text::{decode_windows_1252, fold_key_of, win1252_seq};

verus! {

/// The record flag bit that marks a zlib-compressed payload.
pub const COMPRESSED_FLAG: u32 = 0x0004_0000;

/// The tag of Morrowind dialogue-response records, as a little-endian value.
pub const INFO_TAG: u32 = 0x4F46_4E49;

/// The tag of the subrecord that names most Morrowind records.
pub const NAME_TAG: u32 = 0x454D_414E;

/// The tag of the subrecord that names Morrowind dialogue-response records.
pub const INAM_TAG: u32 = 0x4D41_4E49;

/// The mathematical value of a `Record`.
pub struct RecordV {
    pub tag: u32,
    pub flags: u32,
    pub form_id: u32,
    pub subrecords: Seq<SubrecordV>,
}

/// A record: a 4-byte tag (kept as its little-endian value), its flags, its
/// form identifier (zero on Morrowind, whose records have none) and its
/// subrecords. Compressed payloads are decompressed transparently on read.
#[derive(Debug)]
pub struct Record {
    tag: u32,
    flags: u32,
    form_id: u32,
    subrecords: Vec<Subrecord>,
}

impl View for Record {
    type V = RecordV;

    closed spec fn view(&self) -> RecordV {
        RecordV {
            tag: self.tag,
            flags: self.flags,
            form_id: self.form_id,
            subrecords: views_of_subrecords(self.subrecords@),
        }
    }
}

/// The value of a record before anything has been parsed into it.
pub open spec fn spec_default_record() -> RecordV {
    RecordV { tag: 0, flags: 0, form_id: 0, subrecords: Seq::empty() }
}

impl Default for Record {
    fn default() -> (r: Record)
        ensures
            r@ == spec_default_record(),
    {
        let r = Record { tag: 0, flags: 0, form_id: 0, subrecords: Vec::new() };
        proof {
            assert(views_of_subrecords(r.subrecords@) =~= Seq::<SubrecordV>::empty());
        }
        r
    }
}

/// An identifier extracted from a record: a raw form identifier, or a
/// namespaced identity on Morrowind.
#[derive(Debug)]
pub enum RecordId {
    FormId(u32),
    NamespacedId(NamespacedId),
}

/// The mathematical value of a `RecordId`.
pub enum RecordIdV {
    FormId(u32),
    NamespacedId(NamespacedIdV),
}

impl View for RecordId {
    type V = RecordIdV;

    open spec fn view(&self) -> RecordIdV {
        match self {
            RecordId::FormId(f) => RecordIdV::FormId(*f),
            RecordId::NamespacedId(n) => RecordIdV::NamespacedId(n@),
        }
    }
}

/// How many bytes a record header takes on the wire.
pub open spec fn record_header_len(morrowind: bool) -> int {
    if morrowind {
        16
    } else {
        24
    }
}

/// A record's payload once compression is undone: the raw bytes when the
/// compressed flag is clear; otherwise the bytes must start with the 32-bit
/// decompressed size, and the rest inflate to at most that many bytes.
pub open spec fn spec_record_payload(raw: Seq<u8>, flags: u32) -> Option<Seq<u8>> {
    if flags & COMPRESSED_FLAG == 0 {
        Some(raw)
    } else if raw.len() < 4 {
        None
    } else {
        match inflate_of(raw.skip(4)) {
            Some(o) => if o.len() <= le_u32(raw, 0) {
                Some(o)
            } else {
                None
            },
            None => None,
        }
    }
}

/// What a full record read at `pos` yields: the record's value and the
/// position just past it, or nothing when the bytes are malformed or the
/// tag is not the expected one. A header is 24 bytes (tag, size, flags,
/// form identifier, then timestamp and internals, which are skipped) except
/// on Morrowind, where it is 16 bytes (tag, size, padding, flags) and there
/// is no form identifier.
pub open spec fn spec_read_record(s: Seq<u8>, pos: int, morrowind: bool, expected_tag: u32)
    -> Option<(RecordV, int)> {
    let hdr = record_header_len(morrowind);
    if pos + hdr > s.len() {
        None
    } else if le_u32(s, pos) != expected_tag {
        None
    } else {
        let size = le_u32(s, pos + 4) as int;
        let flags = if morrowind {
            le_u32(s, pos + 12)
        } else {
            le_u32(s, pos + 8)
        };
        let form_id = if morrowind {
            0u32
        } else {
            le_u32(s, pos + 12)
        };
        if pos + hdr + size > s.len() {
            None
        } else {
            let end = pos + hdr + size;
            match spec_record_payload(s.subrange(pos + hdr, end), flags) {
                Some(payload) => match spec_parse_subrecords(payload, morrowind, None) {
                    Some(subs) => Some(
                        (RecordV { tag: le_u32(s, pos), flags, form_id, subrecords: subs }, end),
                    ),
                    None => None,
                },
                None => None,
            }
        }
    }
}

/// The subrecord whose payload names a Morrowind record of the given type:
/// `INAM` for dialogue responses, `NAME` for everything else.
pub open spec fn mw_id_subrecord_tag(record_tag: u32) -> u32 {
    if record_tag == INFO_TAG {
        INAM_TAG
    } else {
        NAME_TAG
    }
}

/// The first subrecord with the given tag.
pub open spec fn spec_find_subrecord(subs: Seq<SubrecordV>, tag: u32) -> Option<SubrecordV>
    decreases subs.len(),
{
    if subs.len() == 0 {
        None
    } else if subs[0].tag == tag {
        Some(subs[0])
    } else {
        spec_find_subrecord(subs.skip(1), tag)
    }
}

/// The identity of a Morrowind record, from its naming subrecord: the
/// record tag together with the case-folded editor identifier, which is the
/// subrecord's payload up to the first NUL, decoded as windows-1252. A
/// record without a naming subrecord has no identity.
pub open spec fn spec_mw_record_id(record_tag: u32, subs: Seq<SubrecordV>) -> Option<RecordIdV> {
    match spec_find_subrecord(subs, mw_id_subrecord_tag(record_tag)) {
        Some(sub) => Some(
            RecordIdV::NamespacedId(
                NamespacedIdV {
                    record_tag: record_tag,
                    editor_id_key: fold_key_of(win1252_seq(spec_until_first_null(sub.data))),
                },
            ),
        ),
        None => None,
    }
}

/// What the light-weight record-identifier walk at `pos` yields: the
/// record's flags, its identifier (when it has one) and the position just
/// past the record. Outside Morrowind the identifier is the form identifier
/// in the header and the payload is skipped unread; on Morrowind the
/// payload's subrecords are walked for the naming subrecord.
pub open spec fn spec_read_record_id(s: Seq<u8>, pos: int, morrowind: bool) -> Option<
    (u32, Option<RecordIdV>, int),
> {
    let hdr = record_header_len(morrowind);
    if pos + hdr > s.len() {
        None
    } else {
        let size = le_u32(s, pos + 4) as int;
        if pos + hdr + size > s.len() {
            None
        } else {
            let end = pos + hdr + size;
            if !morrowind {
                Some((le_u32(s, pos + 8), Some(RecordIdV::FormId(le_u32(s, pos + 12))), end))
            } else {
                match spec_parse_subrecords(s.subrange(pos + hdr, end), true, None) {
                    Some(subs) => Some(
                        (le_u32(s, pos + 12), spec_mw_record_id(le_u32(s, pos), subs), end),
                    ),
                    None => None,
                }
            }
        }
    }
}

proof fn lemma_spec_find_subrecord_skip(subs: Seq<SubrecordV>, tag: u32, i: int)
    requires
        0 <= i <= subs.len(),
        forall|j: int| 0 <= j < i ==> subs[j].tag != tag,
    ensures
        spec_find_subrecord(subs, tag) == spec_find_subrecord(subs.skip(i), tag),
    decreases i,
{
    if i == 0 {
        assert(subs.skip(0) =~= subs);
    } else {
        lemma_spec_find_subrecord_skip(subs.skip(1), tag, i - 1);
        assert(subs.skip(1).skip(i - 1) =~= subs.skip(i));
    }
}

/// Finds the first subrecord with the given tag, as its index.
pub fn find_subrecord_idx(subs: &Vec<Subrecord>, tag: u32) -> (r: Option<usize>)
    ensures
        match r {
            Some(i) => i < subs@.len() && spec_find_subrecord(views_of_subrecords(subs@), tag)
                == Some(subs@[i as int]@),
            None => spec_find_subrecord(views_of_subrecords(subs@), tag) is None,
        },
{
    let ghost views = views_of_subrecords(subs@);
    let mut i: usize = 0;
    while i < subs.len()
        invariant
            i <= subs@.len(),
            views == views_of_subrecords(subs@),
            forall|j: int| 0 <= j < i ==> views[j].tag != tag,
        decreases subs@.len() - i,
    {
        if subs[i].subrecord_type() == tag {
            proof {
                lemma_spec_find_subrecord_skip(views, tag, i as int);
                assert(views.skip(i as int)[0] == views[i as int]);
            }
            return Some(i);
        }
        i += 1;
    }
    proof {
        lemma_spec_find_subrecord_skip(views, tag, i as int);
        assert(views.skip(i as int) =~= Seq::<SubrecordV>::empty());
    }
    None
}

impl Record {
    /// The record's type tag, as a little-endian value.
    pub fn tag(&self) -> (r: u32)
        ensures
            r == self@.tag,
    {
        self.tag
    }

    /// The record's flags field.
    pub fn flags(&self) -> (r: u32)
        ensures
            r == self@.flags,
    {
        self.flags
    }

    /// The record's form identifier; zero on Morrowind.
    pub fn form_id(&self) -> (r: u32)
        ensures
            r == self@.form_id,
    {
        self.form_id
    }

    /// The record's subrecords.
    pub fn subrecords(&self) -> (r: &Vec<Subrecord>)
        ensures
            views_of_subrecords(r@) == self@.subrecords,
    {
        &self.subrecords
    }

    /// Reads a full record at `pos`, which must carry the expected tag;
    /// consumes exactly the header and the declared payload size.
    pub fn read(data: &[u8], pos: usize, morrowind: bool, expected_tag: u32) -> (r: Result<
        (Record, usize),
        Error,
    >)
        ensures
            match r {
                Ok((record, end)) => spec_read_record(data@, pos as int, morrowind, expected_tag)
                    == Some((record@, end as int)) && pos < end <= data@.len(),
                Err(e) => spec_read_record(data@, pos as int, morrowind, expected_tag)
                    is None && e is ParsingError,
            },
    {
        let len = data.len();
        let hdr: usize = if morrowind {
            16
        } else {
            24
        };
        if pos >= len || len - pos < hdr {
            return Err(Error::ParsingError(
                crate::reader::copy_range(data, if pos <= len { pos } else { len }, len),
                ParsingErrorKind::UnexpectedEndOfStream,
            ));
        }
        let tag = read_le_u32(data, pos);
        if tag != expected_tag {
            return Err(Error::ParsingError(
                crate::reader::copy_range(data, pos, pos + hdr),
                ParsingErrorKind::UnexpectedRecordType(expected_tag),
            ));
        }
        let size = read_le_u32(data, pos + 4) as usize;
        let flags = if morrowind {
            read_le_u32(data, pos + 12)
        } else {
            read_le_u32(data, pos + 8)
        };
        let form_id: u32 = if morrowind {
            0
        } else {
            read_le_u32(data, pos + 12)
        };
        if size > len - pos - hdr {
            return Err(Error::ParsingError(
                crate::reader::copy_range(data, pos, len),
                ParsingErrorKind::UnexpectedEndOfStream,
            ));
        }
        let end = pos + hdr + size;
        let raw = crate::reader::copy_range(data, pos + hdr, end);
        proof {
            assert(raw@ =~= data@.subrange(pos + hdr as int, end as int));
        }
        let payload: Vec<u8> = if flags & COMPRESSED_FLAG == 0 {
            raw
        } else {
            if raw.len() < 4 {
                return Err(Error::ParsingError(raw, ParsingErrorKind::DecompressionFailed));
            }
            let decompressed_size = read_le_u32(raw.as_slice(), 0) as usize;
            let stream = vstd::slice::slice_subrange(raw.as_slice(), 4, raw.len());
            proof {
                assert(stream@ =~= raw@.skip(4));
            }
            match decompress_zlib(stream, decompressed_size) {
                Some(v) => v,
                None => {
                    return Err(Error::ParsingError(raw, ParsingErrorKind::DecompressionFailed));
                },
            }
        };
        match read_subrecords(payload.as_slice(), morrowind) {
            Ok(subrecords) => Ok((Record { tag, flags, form_id, subrecords }, end)),
            Err(e) => Err(e),
        }
    }

    /// The light-weight walk: reads only a record's flags and identifier at
    /// `pos` and skips its payload.
    pub fn read_record_id(data: &[u8], pos: usize, morrowind: bool) -> (r: Result<
        (u32, Option<RecordId>, usize),
        Error,
    >)
        ensures
            match r {
                Ok((flags, rid, end)) => spec_read_record_id(data@, pos as int, morrowind) == Some(
                    (
                        flags,
                        match rid {
                            Some(id) => Some(id@),
                            None => None,
                        },
                        end as int,
                    ),
                ) && pos < end <= data@.len(),
                Err(e) => spec_read_record_id(data@, pos as int, morrowind) is None && (e
                    is ParsingError || e is DecodeError),
            },
    {
        let len = data.len();
        let hdr: usize = if morrowind {
            16
        } else {
            24
        };
        if pos >= len || len - pos < hdr {
            return Err(Error::ParsingError(
                crate::reader::copy_range(data, if pos <= len { pos } else { len }, len),
                ParsingErrorKind::UnexpectedEndOfStream,
            ));
        }
        let size = read_le_u32(data, pos + 4) as usize;
        if size > len - pos - hdr {
            return Err(Error::ParsingError(
                crate::reader::copy_range(data, pos, len),
                ParsingErrorKind::UnexpectedEndOfStream,
            ));
        }
        let end = pos + hdr + size;
        if !morrowind {
            let flags = read_le_u32(data, pos + 8);
            let form_id = read_le_u32(data, pos + 12);
            return Ok((flags, Some(RecordId::FormId(form_id)), end));
        }
        let tag = read_le_u32(data, pos);
        let flags = read_le_u32(data, pos + 12);
        let payload = crate::reader::copy_range(data, pos + hdr, end);
        proof {
            assert(payload@ =~= data@.subrange(pos + hdr as int, end as int));
        }
        let subs = match read_subrecords(payload.as_slice(), true) {
            Ok(subs) => subs,
            Err(e) => {
                return Err(e);
            },
        };
        let target = if tag == INFO_TAG {
            INAM_TAG
        } else {
            NAME_TAG
        };
        match find_subrecord_idx(&subs, target) {
            Some(i) => {
                let trimmed = until_first_null(subs[i].data().as_slice());
                match decode_windows_1252(trimmed) {
                    Some(editor_id) => {
                        let id = NamespacedId::new(tag, editor_id.as_str());
                        Ok((flags, Some(RecordId::NamespacedId(id)), end))
                    },
                    None => Err(
                        Error::DecodeError(vstd::slice::slice_to_vec(trimmed)),
                    ),
                }
            },
            None => Ok((flags, None, end)),
        }
    }
}

} // verus!
