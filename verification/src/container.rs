//! Writing an icon container: the header, the table of entries, the payload blocks.

use crate::error::invalid_input;
use crate::layout::{
    container, dimension_byte, directory_entry, encodable, entry_ok, entry_table, header, le16,
    le32, lemma_offsets_ascend, payload_blocks, payload_offset, EntryView, BITS_PER_PIXEL,
    COLOR_PLANES, ENTRY_LEN, HEADER_LEN, MAX_ENTRIES, RESOURCE_ICON,
};
use vstd::prelude::*;

verus! {

/// One image on its way into a container: its size in pixels and its encoded payload.
#[derive(Debug)]
pub struct IconEntry {
    pub width: u32,
    pub height: u32,
    pub payload: Vec<u8>,
}

impl View for IconEntry {
    type V = EntryView;

    open spec fn view(&self) -> EntryView {
        EntryView { width: self.width, height: self.height, payload: self.payload@ }
    }
}

/// What a list of entries is, entry by entry.
pub open spec fn entry_views(entries: Seq<IconEntry>) -> Seq<EntryView> {
    entries.map_values(|entry: IconEntry| entry@)
}

/// The byte that stands for a width or height in a table entry.
fn dimension(pixels: u32) -> (r: u8)
    ensures
        r == dimension_byte(pixels),
{
    (pixels % 256) as u8
}

/// Appends the two bytes of `value`, low byte first.
fn push_le16(out: &mut Vec<u8>, value: u16)
    ensures
        final(out)@ == old(out)@ + le16(value as int),
{
    out.push((value % 256) as u8);
    out.push((value / 256) as u8);
    assert(out@ =~= old(out)@ + le16(value as int));
}

/// Appends the four bytes of `value`, low byte first.
fn push_le32(out: &mut Vec<u8>, value: u32)
    ensures
        final(out)@ == old(out)@ + le32(value as int),
{
    out.push((value % 256) as u8);
    out.push((value / 256 % 256) as u8);
    out.push((value / 65536 % 256) as u8);
    out.push((value / 16777216) as u8);
    assert(out@ =~= old(out)@ + le32(value as int));
}

/// Appends the table entry of `entry`, whose payload starts at `offset`.
fn push_entry(out: &mut Vec<u8>, entry: &IconEntry, offset: u32)
    requires
        entry.payload@.len() <= u32::MAX,
    ensures
        final(out)@ == old(out)@ + directory_entry(entry@, offset as int),
{
    out.push(dimension(entry.width));
    out.push(dimension(entry.height));
    out.push(0);
    out.push(0);
    assert(out@ =~= old(out)@ + seq![
        dimension_byte(entry.width),
        dimension_byte(entry.height),
        0u8,
        0u8,
    ]);
    push_le16(out, COLOR_PLANES);
    push_le16(out, BITS_PER_PIXEL);
    push_le32(out, entry.payload.len() as u32);
    push_le32(out, offset);
    assert(out@ =~= old(out)@ + directory_entry(entry@, offset as int));
}

/// Where the payloads of `entries` end, or `None` if they have no container: more entries
/// than the count field can tell, an entry without pixels or without payload, or an end
/// beyond what a 32-bit offset can reach.
fn measure(entries: &Vec<IconEntry>) -> (r: Option<u32>)
    ensures
        r.is_some() == encodable(entry_views(entries@)),
        r matches Some(end) ==> end == payload_offset(
            entry_views(entries@),
            entries@.len() as int,
        ),
{
    let ghost views = entry_views(entries@);
    let count = entries.len();
    if count > MAX_ENTRIES {
        return None;
    }
    let mut end: u32 = (HEADER_LEN + ENTRY_LEN * count) as u32;
    let mut index: usize = 0;
    while index < count
        invariant
            views == entry_views(entries@),
            count == entries.len(),
            count <= MAX_ENTRIES,
            index <= count,
            end == payload_offset(views, index as int),
            forall|i: int| 0 <= i < index ==> entry_ok(#[trigger] views[i]),
        decreases count - index,
    {
        let entry = &entries[index];
        assert(views[index as int] == entry@);
        if entry.width == 0 || entry.height == 0 || entry.payload.len() == 0 {
            assert(!entry_ok(views[index as int]));
            return None;
        }
        if entry.payload.len() > (u32::MAX - end) as usize {
            proof {
                if index + 1 < count {
                    lemma_offsets_ascend(views, index as int, count as int);
                }
            }
            return None;
        }
        end = end + entry.payload.len() as u32;
        index = index + 1;
    }
    Some(end)
}

/// Serializes `entries` into one container, in their order.
///
/// Fails exactly where the entries have no container; see [`encodable`].
pub fn serialize(entries: &Vec<IconEntry>) -> (r: Result<Vec<u8>, std::io::Error>)
    ensures
        r.is_ok() == encodable(entry_views(entries@)),
        r matches Ok(bytes) ==> bytes@ == container(entry_views(entries@)),
{
    let ghost views = entry_views(entries@);
    let count = entries.len();
    if measure(entries).is_none() {
        return Err(invalid_input("the images do not fit an icon container"));
    }
    let mut out: Vec<u8> = Vec::new();
    push_le16(&mut out, 0);
    push_le16(&mut out, RESOURCE_ICON);
    push_le16(&mut out, count as u16);
    assert(out@ =~= header(count as int));

    let mut offset: u32 = (HEADER_LEN + ENTRY_LEN * count) as u32;
    let mut index: usize = 0;
    while index < count
        invariant
            views == entry_views(entries@),
            encodable(views),
            count == entries.len(),
            index <= count,
            offset == payload_offset(views, index as int),
            out@ == header(count as int) + entry_table(views, index as int),
        decreases count - index,
    {
        let entry = &entries[index];
        assert(views[index as int] == entry@);
        proof {
            lemma_offsets_ascend(views, index as int, count as int);
            if index > 0 {
                lemma_offsets_ascend(views, 0, index as int);
            }
        }
        push_entry(&mut out, entry, offset);
        assert(out@ =~= header(count as int) + entry_table(views, index + 1));
        offset = offset + entry.payload.len() as u32;
        index = index + 1;
    }

    let mut index: usize = 0;
    while index < count
        invariant
            views == entry_views(entries@),
            count == entries.len(),
            index <= count,
            out@ == header(count as int) + entry_table(views, count as int) + payload_blocks(
                views,
                index as int,
            ),
        decreases count - index,
    {
        let entry = &entries[index];
        assert(views[index as int] == entry@);
        let ghost before = out@;
        out.extend_from_slice(entry.payload.as_slice());
        assert(out@ =~= before + entry.payload@);
        assert(out@ =~= header(count as int) + entry_table(views, count as int) + payload_blocks(
            views,
            index + 1,
        ));
        index = index + 1;
    }
    Ok(out)
}

} // verus!
