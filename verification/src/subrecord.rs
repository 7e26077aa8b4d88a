//! Subrecords: the typed, sized fields that a record's payload is made of.

use vstd::prelude::*;

use crate::error::{Error, ParsingErrorKind};
use crate::reader::{le_u16, le_u32, read_le_u16, read_le_u32};

verus! {

/// The tag of the large-subrecord escape, as a little-endian value.
pub const LARGE_SUBRECORD_TAG: u32 = 0x5858_5858;

/// The mathematical value of a `Subrecord`.
pub struct SubrecordV {
    pub tag: u32,
    pub data: Seq<u8>,
}

/// A typed field of a record: a 4-byte tag (kept as its little-endian
/// value) and a payload.
#[derive(Debug)]
pub struct Subrecord {
    tag: u32,
    data: Vec<u8>,
}

impl View for Subrecord {
    type V = SubrecordV;

    closed spec fn view(&self) -> SubrecordV {
        SubrecordV { tag: self.tag, data: self.data@ }
    }
}

impl Subrecord {
    /// The subrecord's type tag, as a little-endian value.
    pub fn subrecord_type(&self) -> (r: u32)
        ensures
            r == self@.tag,
    {
        self.tag
    }

    /// The subrecord's payload.
    pub fn data(&self) -> (r: &Vec<u8>)
        ensures
            r@ == self@.data,
    {
        &self.data
    }
}

/// The views of a list of subrecords.
pub open spec fn views_of_subrecords(subs: Seq<Subrecord>) -> Seq<SubrecordV> {
    subs.map_values(|s: Subrecord| s@)
}

/// How many bytes a subrecord header takes on the wire: tag plus a 32-bit
/// size for Morrowind, tag plus a 16-bit size for every other game.
pub open spec fn sub_header_len(morrowind: bool) -> int {
    if morrowind {
        8
    } else {
        6
    }
}

/// The value of a subrecord's size field.
pub open spec fn spec_sub_size(s: Seq<u8>, morrowind: bool) -> int {
    if morrowind {
        le_u32(s, 4) as int
    } else {
        le_u16(s, 4) as int
    }
}

/// What a stretch of payload bytes parses to as a subrecord list, or
/// nothing when it is malformed. On the wire a subrecord is its tag, its
/// size field and that many payload bytes, with one escape outside
/// Morrowind: a subrecord tagged `XXXX` carries in its payload the true
/// 32-bit size of the next subrecord, whose own size field is then ignored.
/// `large` carries that pending size.
pub open spec fn spec_parse_subrecords(s: Seq<u8>, morrowind: bool, large: Option<u32>) -> Option<
    Seq<SubrecordV>,
>
    decreases s.len(),
{
    if s.len() == 0 {
        Some(Seq::empty())
    } else if s.len() < sub_header_len(morrowind) {
        None
    } else {
        let tag = le_u32(s, 0);
        let hdr = sub_header_len(morrowind);
        let size = match large {
            Some(n) => n as int,
            None => spec_sub_size(s, morrowind),
        };
        if hdr + size > s.len() {
            None
        } else {
            let data = s.subrange(hdr, hdr + size);
            let is_escape = !morrowind && tag == LARGE_SUBRECORD_TAG;
            if is_escape && size < 4 {
                None
            } else {
                let next_large = if is_escape {
                    Some(le_u32(data, 0))
                } else {
                    None
                };
                match spec_parse_subrecords(s.skip(hdr + size), morrowind, next_large) {
                    Some(rest) => Some(seq![SubrecordV { tag, data }] + rest),
                    None => None,
                }
            }
        }
    }
}

/// Appends a parsed prefix to the rest of a parse, or propagates failure.
pub open spec fn parse_with_prefix(prefix: Seq<SubrecordV>, rest: Option<Seq<SubrecordV>>)
    -> Option<Seq<SubrecordV>> {
    match rest {
        Some(r) => Some(prefix + r),
        None => None,
    }
}

/// Reads every subrecord of a record payload eagerly.
pub fn read_subrecords(data: &[u8], morrowind: bool) -> (r: Result<Vec<Subrecord>, Error>)
    ensures
        match r {
            Ok(subs) => spec_parse_subrecords(data@, morrowind, None) == Some(
                views_of_subrecords(subs@),
            ),
            Err(e) => spec_parse_subrecords(data@, morrowind, None) is None && e
                is ParsingError,
        },
{
    let len = data.len();
    let hdr: usize = if morrowind {
        8
    } else {
        6
    };
    let mut subs: Vec<Subrecord> = Vec::new();
    let mut pos: usize = 0;
    let mut large: Option<u32> = None;
    proof {
        assert(data@.skip(0) =~= data@);
        assert(views_of_subrecords(subs@) =~= Seq::<SubrecordV>::empty());
        match spec_parse_subrecords(data@, morrowind, None) {
            Some(r) => {
                assert(Seq::<SubrecordV>::empty() + r =~= r);
            },
            None => {},
        }
    }
    while pos < len
        invariant
            pos <= len,
            len == data@.len(),
            hdr == sub_header_len(morrowind),
            spec_parse_subrecords(data@, morrowind, None) == parse_with_prefix(
                views_of_subrecords(subs@),
                spec_parse_subrecords(data@.skip(pos as int), morrowind, large),
            ),
        decreases len - pos,
    {
        let ghost rem = data@.skip(pos as int);
        proof {
            assert(rem.len() == len - pos);
        }
        if len - pos < hdr {
            return Err(Error::ParsingError(
                crate::reader::copy_range(data, pos, len),
                ParsingErrorKind::UnexpectedEndOfStream,
            ));
        }
        let tag = read_le_u32(data, pos);
        proof {
            assert(le_u32(rem, 0) == tag);
        }
        let size: usize = match large {
            Some(n) => n as usize,
            None => {
                if morrowind {
                    let s32 = read_le_u32(data, pos + 4);
                    proof {
                        assert(le_u32(rem, 4) == s32);
                    }
                    s32 as usize
                } else {
                    let s16 = read_le_u16(data, pos + 4);
                    proof {
                        assert(le_u16(rem, 4) == s16);
                    }
                    s16 as usize
                }
            },
        };
        if size > len - pos - hdr {
            return Err(Error::ParsingError(
                crate::reader::copy_range(data, pos, len),
                ParsingErrorKind::UnexpectedEndOfStream,
            ));
        }
        let body = crate::reader::copy_range(data, pos + hdr, pos + hdr + size);
        proof {
            assert(body@ =~= rem.subrange(hdr as int, hdr + size));
        }
        let is_escape = !morrowind && tag == LARGE_SUBRECORD_TAG;
        if is_escape && size < 4 {
            return Err(Error::ParsingError(
                crate::reader::copy_range(data, pos, len),
                ParsingErrorKind::UnexpectedEndOfStream,
            ));
        }
        let ghost prev_large = large;
        large = if is_escape {
            let n = read_le_u32(data, pos + hdr);
            proof {
                assert(le_u32(body@, 0) == n);
            }
            Some(n)
        } else {
            None
        };
        let ghost old_views = views_of_subrecords(subs@);
        let sub = Subrecord { tag, data: body };
        let ghost subv = sub@;
        subs.push(sub);
        let new_pos = pos + hdr + size;
        proof {
            assert(views_of_subrecords(subs@) =~= old_views + seq![subv]);
            assert(rem.skip(hdr + size) =~= data@.skip(new_pos as int));
            let rest = spec_parse_subrecords(data@.skip(new_pos as int), morrowind, large);
            assert(spec_parse_subrecords(rem, morrowind, prev_large) == parse_with_prefix(
                seq![subv],
                rest,
            ));
            match rest {
                Some(r) => {
                    assert((old_views + seq![subv]) + r =~= old_views + (seq![subv] + r));
                },
                None => {},
            }
        }
        pos = new_pos;
    }
    proof {
        assert(data@.skip(pos as int) =~= Seq::<u8>::empty());
        assert(views_of_subrecords(subs@) + Seq::<SubrecordV>::empty() =~= views_of_subrecords(
            subs@,
        ));
    }
    Ok(subs)
}

} // verus!
