//! Groups: the recursive containers that nest records in every game except
//! Morrowind.

use vstd::prelude::*;

use crate::error::{Error, ParsingErrorKind};
use crate::reader::{le_u32, read_le_u32};
use crate::record::{spec_read_record_id, Record, RecordId, RecordIdV};

verus! {

/// The group tag, as a little-endian value.
pub const GROUP_TAG: u32 = 0x5055_5247;

/// A group header is 24 bytes, and its declared size includes the header.
pub const GROUP_HEADER_LEN: usize = 24;

/// Appends a collected prefix to the rest of a walk, or propagates failure.
pub open spec fn ids_with_prefix(prefix: Seq<u32>, rest: Option<Seq<u32>>) -> Option<Seq<u32>> {
    match rest {
        Some(r) => Some(prefix + r),
        None => None,
    }
}

/// What one entry of a stream yields at `pos`: the form identifiers it
/// holds, in stream order, and the position just past it. An entry tagged
/// `GRUP` is a group whose declared size covers its own 24-byte header; its
/// body is walked recursively. Any other entry is a record whose identifier
/// is collected and whose payload is skipped.
pub open spec fn spec_entry_form_ids(s: Seq<u8>, pos: int) -> Option<(Seq<u32>, int)>
    decreases s.len() - pos, 0int,
{
    if pos < 0 || pos + 4 > s.len() {
        None
    } else if le_u32(s, pos) == GROUP_TAG {
        if pos + GROUP_HEADER_LEN > s.len() {
            None
        } else {
            let size = le_u32(s, pos + 4) as int;
            if size < GROUP_HEADER_LEN || pos + size > s.len() {
                None
            } else {
                match spec_group_children(s, pos + GROUP_HEADER_LEN, pos + size) {
                    Some(ids) => Some((ids, pos + size)),
                    None => None,
                }
            }
        }
    } else {
        match spec_read_record_id(s, pos, false) {
            Some((_flags, rid, end)) => Some(
                (
                    match rid {
                        Some(RecordIdV::FormId(f)) => seq![f],
                        _ => Seq::empty(),
                    },
                    end,
                ),
            ),
            None => None,
        }
    }
}

/// What a group body from `pos` to `end` yields: the form identifiers of
/// its entries, walked in order; the entries must fill the body exactly.
pub open spec fn spec_group_children(s: Seq<u8>, pos: int, end: int) -> Option<Seq<u32>>
    decreases s.len() - pos, 1int,
{
    if pos == end {
        Some(Seq::empty())
    } else if pos > end || pos < 0 || end > s.len() {
        None
    } else {
        match spec_entry_form_ids(s, pos) {
            Some((ids, p2)) => if pos < p2 <= end {
                match spec_group_children(s, p2, end) {
                    Some(rest) => Some(ids + rest),
                    None => None,
                }
            } else {
                None
            },
            None => None,
        }
    }
}

/// Walks one entry of the stream at `pos`, appending the form identifiers
/// it holds to `ids`, and returns the position just past it.
pub fn read_entry_form_ids(data: &[u8], pos: usize, ids: &mut Vec<u32>) -> (r: Result<usize, Error>)
    ensures
        match r {
            Ok(end) => spec_entry_form_ids(data@, pos as int) matches Some((nids, e)) && e
                == end as int && final(ids)@ == old(ids)@ + nids && pos < end <= data@.len(),
            Err(e) => spec_entry_form_ids(data@, pos as int) is None && (e is ParsingError
                || e is DecodeError),
        },
    decreases data@.len() - pos,
{
    let len = data.len();
    if pos >= len || len - pos < 4 {
        return Err(Error::ParsingError(
            crate::reader::copy_range(data, if pos <= len { pos } else { len }, len),
            ParsingErrorKind::UnexpectedEndOfStream,
        ));
    }
    let tag = read_le_u32(data, pos);
    if tag != GROUP_TAG {
        match Record::read_record_id(data, pos, false) {
            Ok((_flags, rid, end)) => {
                match rid {
                    Some(RecordId::FormId(f)) => {
                        ids.push(f);
                        proof {
                            assert(ids@ =~= old(ids)@ + seq![f]);
                            assert(spec_entry_form_ids(data@, pos as int) matches Some((
                                nids,
                                e,
                            )) && ids@ == old(ids)@ + nids && e == end as int);
                        }
                    },
                    _ => {
                        proof {
                            assert(ids@ =~= old(ids)@ + Seq::<u32>::empty());
                            assert(spec_entry_form_ids(data@, pos as int) matches Some((
                                nids,
                                e,
                            )) && ids@ == old(ids)@ + nids && e == end as int);
                        }
                    },
                }
                Ok(end)
            },
            Err(e) => Err(e),
        }
    } else {
        if len - pos < GROUP_HEADER_LEN {
            return Err(Error::ParsingError(
                crate::reader::copy_range(data, pos, len),
                ParsingErrorKind::UnexpectedEndOfStream,
            ));
        }
        let size = read_le_u32(data, pos + 4) as usize;
        if size < GROUP_HEADER_LEN {
            return Err(Error::ParsingError(
                crate::reader::copy_range(data, pos, pos + GROUP_HEADER_LEN),
                ParsingErrorKind::GroupMalformed,
            ));
        }
        if size > len - pos {
            return Err(Error::ParsingError(
                crate::reader::copy_range(data, pos, len),
                ParsingErrorKind::UnexpectedEndOfStream,
            ));
        }
        let end = pos + size;
        let mut cur = pos + GROUP_HEADER_LEN;
        let ghost base = ids@;
        proof {
            assert(base == old(ids)@);
            assert(ids@.skip(base.len() as int) =~= Seq::<u32>::empty());
            assert(ids@.take(base.len() as int) =~= base);
            match spec_group_children(data@, pos + GROUP_HEADER_LEN, end as int) {
                Some(r) => {
                    assert(Seq::<u32>::empty() + r =~= r);
                },
                None => {},
            }
        }
        while cur < end
            invariant
                pos + GROUP_HEADER_LEN <= cur <= end <= data@.len(),
                len == data@.len(),
                le_u32(data@, pos as int) == GROUP_TAG,
                size as int == le_u32(data@, pos + 4) as int,
                GROUP_HEADER_LEN <= size,
                end == pos + size,
                base == old(ids)@,
                base.len() <= ids@.len(),
                ids@.take(base.len() as int) == base,
                spec_group_children(data@, pos + GROUP_HEADER_LEN, end as int)
                    == ids_with_prefix(
                    ids@.skip(base.len() as int),
                    spec_group_children(data@, cur as int, end as int),
                ),
            decreases end - cur,
        {
            let prev = cur;
            let ghost ids_before = ids@;
            cur = match read_entry_form_ids(data, cur, ids) {
                Ok(p) => p,
                Err(e) => {
                    return Err(e);
                },
            };
            if cur > end {
                return Err(Error::ParsingError(
                    crate::reader::copy_range(data, prev, len),
                    ParsingErrorKind::GroupMalformed,
                ));
            }
            proof {
                let nids = ids@.skip(ids_before.len() as int);
                assert(ids@ =~= ids_before + nids);
                assert(ids@.take(base.len() as int) =~= base);
                assert(ids@.skip(base.len() as int) =~= ids_before.skip(base.len() as int) + nids);
                match spec_group_children(data@, cur as int, end as int) {
                    Some(rest) => {
                        assert((ids_before.skip(base.len() as int) + nids) + rest =~= ids_before
                            .skip(base.len() as int) + (nids + rest));
                    },
                    None => {},
                }
            }
        }
        proof {
            let collected = ids@.skip(base.len() as int);
            assert(spec_group_children(data@, end as int, end as int) == Some(
                Seq::<u32>::empty(),
            ));
            assert(collected + Seq::<u32>::empty() =~= collected);
            assert(spec_group_children(data@, pos + GROUP_HEADER_LEN, end as int) == Some(
                collected,
            ));
            assert(spec_entry_form_ids(data@, pos as int) == Some((collected, end as int)));
            assert(old(ids)@ + collected =~= ids@);
        }
        Ok(end)
    }
}

} // verus!
