//! The byte layout of an icon container, as a mathematical description.
//!
//! A container is a header of 6 bytes, a table of 16 bytes for each image, and then the
//! images' payload blocks, one after the other in the order of the table. All numbers are
//! little-endian. Each table entry tells where its payload starts and how long it is.

use vstd::prelude::*;

verus! {

/// The length of the header in bytes.
pub const HEADER_LEN: usize = 6;

/// The length of one table entry in bytes.
pub const ENTRY_LEN: usize = 16;

/// The largest number of images that the header's count field can tell.
pub const MAX_ENTRIES: usize = 65535;

/// The resource type "icon" of the header.
pub const RESOURCE_ICON: u16 = 1;

/// The number of colour planes that every entry declares.
pub const COLOR_PLANES: u16 = 1;

/// The number of bits per pixel that every entry declares.
pub const BITS_PER_PIXEL: u16 = 32;

/// One image of a container: its size in pixels and its encoded payload.
pub struct EntryView {
    pub width: u32,
    pub height: u32,
    pub payload: Seq<u8>,
}

/// The two bytes of `value`, low byte first.
pub open spec fn le16(value: int) -> Seq<u8> {
    seq![(value % 256) as u8, (value / 256 % 256) as u8]
}

/// The four bytes of `value`, low byte first.
pub open spec fn le32(value: int) -> Seq<u8> {
    seq![
        (value % 256) as u8,
        (value / 256 % 256) as u8,
        (value / 65536 % 256) as u8,
        (value / 16777216 % 256) as u8,
    ]
}

/// The byte that stands for a width or height: its low eight bits. That is the number
/// itself up to 255, and 0 for 256.
pub open spec fn dimension_byte(pixels: u32) -> u8 {
    (pixels % 256) as u8
}

/// The header of a container of `count` images: a reserved zero, the resource type, and the
/// count.
pub open spec fn header(count: int) -> Seq<u8> {
    le16(0) + le16(RESOURCE_ICON as int) + le16(count)
}

/// Where the payload of image `index` starts: right after the whole table for the first
/// image, and right after the previous payload for each later one.
pub open spec fn payload_offset(entries: Seq<EntryView>, index: int) -> int
    decreases index,
{
    if index <= 0 {
        HEADER_LEN + ENTRY_LEN * entries.len()
    } else {
        payload_offset(entries, index - 1) + entries[index - 1].payload.len()
    }
}

/// The table entry of one image whose payload starts at `offset`: width, height, a palette
/// size of zero, a reserved zero, planes, bits per pixel, payload length, payload offset.
pub open spec fn directory_entry(entry: EntryView, offset: int) -> Seq<u8> {
    seq![dimension_byte(entry.width), dimension_byte(entry.height), 0u8, 0u8] + le16(
        COLOR_PLANES as int,
    ) + le16(BITS_PER_PIXEL as int) + le32(entry.payload.len() as int) + le32(offset)
}

/// The table entries of the first `count` images.
pub open spec fn entry_table(entries: Seq<EntryView>, count: int) -> Seq<u8>
    decreases count,
{
    if count <= 0 {
        Seq::empty()
    } else {
        entry_table(entries, count - 1) + directory_entry(
            entries[count - 1],
            payload_offset(entries, count - 1),
        )
    }
}

/// The payload blocks of the first `count` images.
pub open spec fn payload_blocks(entries: Seq<EntryView>, count: int) -> Seq<u8>
    decreases count,
{
    if count <= 0 {
        Seq::empty()
    } else {
        payload_blocks(entries, count - 1) + entries[count - 1].payload
    }
}

/// The whole container: header, table, payload blocks.
pub open spec fn container(entries: Seq<EntryView>) -> Seq<u8> {
    header(entries.len() as int) + entry_table(entries, entries.len() as int) + payload_blocks(
        entries,
        entries.len() as int,
    )
}

/// An image that a table entry can describe: it has pixels and a payload.
pub open spec fn entry_ok(entry: EntryView) -> bool {
    &&& entry.width >= 1
    &&& entry.height >= 1
    &&& entry.payload.len() >= 1
}

/// The lists of images that have a container: no more than the count field can tell, each of
/// them describable, and all of it short enough for 32-bit offsets.
pub open spec fn encodable(entries: Seq<EntryView>) -> bool {
    &&& entries.len() <= MAX_ENTRIES
    &&& forall|i: int| 0 <= i < entries.len() ==> entry_ok(#[trigger] entries[i])
    &&& payload_offset(entries, entries.len() as int) <= u32::MAX
}

/// The 16-bit number that `bytes` holds at `at`.
pub open spec fn read_le16(bytes: Seq<u8>, at: int) -> int {
    bytes[at] + 256 * bytes[at + 1]
}

/// The 32-bit number that `bytes` holds at `at`.
pub open spec fn read_le32(bytes: Seq<u8>, at: int) -> int {
    bytes[at] + 256 * bytes[at + 1] + 65536 * bytes[at + 2] + 16777216 * bytes[at + 3]
}

/// The number of images that a container's header declares.
pub open spec fn stored_count(bytes: Seq<u8>) -> int {
    read_le16(bytes, 4)
}

/// Where table entry `index` starts.
pub open spec fn entry_start(index: int) -> int {
    HEADER_LEN + ENTRY_LEN * index
}

/// The width that table entry `index` declares, where a byte of 0 means 256.
pub open spec fn stored_width(bytes: Seq<u8>, index: int) -> int {
    if bytes[entry_start(index)] == 0 {
        256
    } else {
        bytes[entry_start(index)] as int
    }
}

/// The height that table entry `index` declares, where a byte of 0 means 256.
pub open spec fn stored_height(bytes: Seq<u8>, index: int) -> int {
    if bytes[entry_start(index) + 1] == 0 {
        256
    } else {
        bytes[entry_start(index) + 1] as int
    }
}

/// The number of colour planes that table entry `index` declares.
pub open spec fn stored_planes(bytes: Seq<u8>, index: int) -> int {
    read_le16(bytes, entry_start(index) + 4)
}

/// The number of bits per pixel that table entry `index` declares.
pub open spec fn stored_bits_per_pixel(bytes: Seq<u8>, index: int) -> int {
    read_le16(bytes, entry_start(index) + 6)
}

/// The payload length that table entry `index` declares.
pub open spec fn stored_size(bytes: Seq<u8>, index: int) -> int {
    read_le32(bytes, entry_start(index) + 8)
}

/// The payload offset that table entry `index` declares.
pub open spec fn stored_offset(bytes: Seq<u8>, index: int) -> int {
    read_le32(bytes, entry_start(index) + 12)
}

/// The bytes that table entry `index` points at.
pub open spec fn stored_payload(bytes: Seq<u8>, index: int) -> Seq<u8> {
    bytes.subrange(
        stored_offset(bytes, index),
        stored_offset(bytes, index) + stored_size(bytes, index),
    )
}

/// Payloads lie one behind the other: of two images, the payload of the second starts no
/// sooner than where the payload of the first ends.
pub proof fn lemma_offsets_ascend(entries: Seq<EntryView>, i: int, j: int)
    requires
        0 <= i < j <= entries.len(),
    ensures
        payload_offset(entries, i) + entries[i].payload.len() <= payload_offset(entries, j),
    decreases j - i,
{
    if i + 1 < j {
        lemma_offsets_ascend(entries, i, j - 1);
    }
}

/// The table of `count` images takes 16 bytes for each.
proof fn lemma_table_len(entries: Seq<EntryView>, count: int)
    requires
        0 <= count,
    ensures
        entry_table(entries, count).len() == ENTRY_LEN * count,
    decreases count,
{
    if count > 0 {
        lemma_table_len(entries, count - 1);
    }
}

/// The payload blocks of `count` images end where the next payload would start.
proof fn lemma_blocks_len(entries: Seq<EntryView>, count: int)
    requires
        0 <= count,
    ensures
        payload_blocks(entries, count).len() == payload_offset(entries, count) - payload_offset(
            entries,
            0,
        ),
    decreases count,
{
    if count > 0 {
        lemma_blocks_len(entries, count - 1);
    }
}

/// The length of a container: the header, the table and all payloads.
pub proof fn lemma_container_len(entries: Seq<EntryView>)
    ensures
        container(entries).len() == payload_offset(entries, entries.len() as int),
{
    lemma_table_len(entries, entries.len() as int);
    lemma_blocks_len(entries, entries.len() as int);
}

/// In a table of `count` images, the 16 bytes of image `index` are its table entry.
proof fn lemma_table_entry(entries: Seq<EntryView>, count: int, index: int, k: int)
    requires
        0 <= index < count <= entries.len(),
        0 <= k < ENTRY_LEN,
    ensures
        entry_table(entries, count)[ENTRY_LEN * index + k] == directory_entry(
            entries[index],
            payload_offset(entries, index),
        )[k],
    decreases count,
{
    lemma_table_len(entries, count - 1);
    if index < count - 1 {
        lemma_table_entry(entries, count - 1, index, k);
    }
}

/// In the payload blocks of `count` images, the bytes of image `index` stand where its
/// offset says, counted from the end of the table.
proof fn lemma_block_byte(entries: Seq<EntryView>, count: int, index: int, k: int)
    requires
        0 <= index < count <= entries.len(),
        0 <= k < entries[index].payload.len(),
    ensures
        payload_blocks(entries, count)[payload_offset(entries, index) - payload_offset(entries, 0)
            + k] == entries[index].payload[k],
    decreases count,
{
    lemma_blocks_len(entries, count - 1);
    if index < count - 1 {
        lemma_blocks_len(entries, index + 1);
        lemma_offsets_ascend(entries, index, count - 1);
        lemma_block_byte(entries, count - 1, index, k);
    }
}

/// Byte `k` of table entry `index` of a container.
proof fn lemma_container_entry_byte(entries: Seq<EntryView>, index: int, k: int)
    requires
        0 <= index < entries.len(),
        0 <= k < ENTRY_LEN,
    ensures
        container(entries)[entry_start(index) + k] == directory_entry(
            entries[index],
            payload_offset(entries, index),
        )[k],
{
    let n = entries.len() as int;
    lemma_table_len(entries, n);
    lemma_table_entry(entries, n, index, k);
}

/// The sixteen bytes of a table entry, one by one.
proof fn lemma_entry_bytes(entry: EntryView, offset: int)
    ensures
        directory_entry(entry, offset).len() == ENTRY_LEN,
        directory_entry(entry, offset)[0] == dimension_byte(entry.width),
        directory_entry(entry, offset)[1] == dimension_byte(entry.height),
        directory_entry(entry, offset)[2] == 0,
        directory_entry(entry, offset)[3] == 0,
        forall|k: int|
            0 <= k < 2 ==> #[trigger] directory_entry(entry, offset)[4 + k] == le16(
                COLOR_PLANES as int,
            )[k],
        forall|k: int|
            0 <= k < 2 ==> #[trigger] directory_entry(entry, offset)[6 + k] == le16(
                BITS_PER_PIXEL as int,
            )[k],
        forall|k: int|
            0 <= k < 4 ==> #[trigger] directory_entry(entry, offset)[8 + k] == le32(
                entry.payload.len() as int,
            )[k],
        forall|k: int|
            0 <= k < 4 ==> #[trigger] directory_entry(entry, offset)[12 + k] == le32(offset)[k],
{
}

/// A 16-bit number is read where its two bytes stand.
proof fn lemma_read_le16_at(bytes: Seq<u8>, at: int, value: int)
    requires
        0 <= value < 65536,
        bytes[at] == le16(value)[0],
        bytes[at + 1] == le16(value)[1],
    ensures
        read_le16(bytes, at) == value,
{
}

/// A 32-bit number is read where its four bytes stand.
proof fn lemma_read_le32_at(bytes: Seq<u8>, at: int, value: int)
    requires
        0 <= value < 4294967296,
        bytes[at] == le32(value)[0],
        bytes[at + 1] == le32(value)[1],
        bytes[at + 2] == le32(value)[2],
        bytes[at + 3] == le32(value)[3],
    ensures
        read_le32(bytes, at) == value,
{
}

/// What table entry `index` of a container declares: the size and the place of the payload
/// of image `index`, the fixed colour fields, and the low eight bits of its width and height.
pub proof fn lemma_stored_entry(entries: Seq<EntryView>, index: int)
    requires
        encodable(entries),
        0 <= index < entries.len(),
    ensures
        container(entries)[entry_start(index)] == dimension_byte(entries[index].width),
        container(entries)[entry_start(index) + 1] == dimension_byte(entries[index].height),
        stored_planes(container(entries), index) == COLOR_PLANES,
        stored_bits_per_pixel(container(entries), index) == BITS_PER_PIXEL,
        stored_size(container(entries), index) == entries[index].payload.len(),
        stored_offset(container(entries), index) == payload_offset(entries, index),
{
    let bytes = container(entries);
    let start = entry_start(index);
    let offset = payload_offset(entries, index);
    let size = entries[index].payload.len() as int;
    let entry = directory_entry(entries[index], offset);
    assert forall|k: int| 0 <= k < ENTRY_LEN implies bytes[start + k] == entry[k] by {
        lemma_container_entry_byte(entries, index, k);
    }
    lemma_entry_bytes(entries[index], offset);
    lemma_offsets_ascend(entries, index, entries.len() as int);
    assert(0 <= offset) by {
        if index > 0 {
            lemma_offsets_ascend(entries, 0, index);
        }
    }
    assert(bytes[start + 0] == entry[0]);
    assert(bytes[start + 1] == entry[1]);
    assert(stored_planes(bytes, index) == COLOR_PLANES) by {
        assert(bytes[start + 4] == entry[4 + 0int]);
        assert(bytes[start + 5] == entry[4 + 1int]);
        lemma_read_le16_at(bytes, start + 4, COLOR_PLANES as int);
    }
    assert(stored_bits_per_pixel(bytes, index) == BITS_PER_PIXEL) by {
        assert(bytes[start + 6] == entry[6 + 0int]);
        assert(bytes[start + 7] == entry[6 + 1int]);
        lemma_read_le16_at(bytes, start + 6, BITS_PER_PIXEL as int);
    }
    assert(stored_size(bytes, index) == size) by {
        assert(bytes[start + 8] == entry[8 + 0int]);
        assert(bytes[start + 9] == entry[8 + 1int]);
        assert(bytes[start + 10] == entry[8 + 2int]);
        assert(bytes[start + 11] == entry[8 + 3int]);
        lemma_read_le32_at(bytes, start + 8, size);
    }
    assert(stored_offset(bytes, index) == offset) by {
        assert(bytes[start + 12] == entry[12 + 0int]);
        assert(bytes[start + 13] == entry[12 + 1int]);
        assert(bytes[start + 14] == entry[12 + 2int]);
        assert(bytes[start + 15] == entry[12 + 3int]);
        lemma_read_le32_at(bytes, start + 12, offset);
    }
}

/// Directory integrity. In the container of `entries.len()` images the count field is that
/// number; the first payload starts right behind the table; each payload starts where the one
/// before it ends, so that the offsets strictly increase and no two payloads overlap; and
/// every payload lies within the container.
pub proof fn lemma_directory_integrity(entries: Seq<EntryView>)
    requires
        encodable(entries),
    ensures
        stored_count(container(entries)) == entries.len(),
        entries.len() > 0 ==> stored_offset(container(entries), 0) == entry_start(
            entries.len() as int,
        ),
        forall|i: int, j: int|
            0 <= i < j < entries.len() ==> #[trigger] stored_offset(container(entries), i)
                < #[trigger] stored_offset(container(entries), j),
        forall|i: int|
            0 <= i < entries.len() - 1 ==> #[trigger] stored_offset(container(entries), i)
                + stored_size(container(entries), i) == stored_offset(container(entries), i + 1),
        forall|i: int|
            0 <= i < entries.len() ==> #[trigger] stored_offset(container(entries), i)
                + stored_size(container(entries), i) <= container(entries).len(),
{
    let bytes = container(entries);
    let count = entries.len() as int;
    assert(bytes[4] == le16(count)[0]);
    assert(bytes[5] == le16(count)[1]);
    lemma_read_le16_at(bytes, 4, count);
    lemma_container_len(entries);
    assert forall|i: int, j: int| 0 <= i < j < entries.len() implies #[trigger] stored_offset(
        bytes,
        i,
    ) < #[trigger] stored_offset(bytes, j) by {
        lemma_stored_entry(entries, i);
        lemma_stored_entry(entries, j);
        lemma_offsets_ascend(entries, i, j);
    }
    assert forall|i: int| 0 <= i < entries.len() - 1 implies #[trigger] stored_offset(bytes, i)
        + stored_size(bytes, i) == stored_offset(bytes, i + 1) by {
        lemma_stored_entry(entries, i);
        lemma_stored_entry(entries, i + 1);
    }
    assert forall|i: int| 0 <= i < entries.len() implies #[trigger] stored_offset(bytes, i)
        + stored_size(bytes, i) <= bytes.len() by {
        lemma_stored_entry(entries, i);
        lemma_offsets_ascend(entries, i, count);
    }
    if entries.len() > 0 {
        lemma_stored_entry(entries, 0);
    }
}

/// Order preservation. Table entry `index` of a container describes image `index`: its
/// first two bytes are the low eight bits of that image's width and height, so that it
/// declares the width and height themselves for sizes up to 256, and the bytes it points at
/// are that image's payload.
pub proof fn lemma_order_preserved(entries: Seq<EntryView>, index: int)
    requires
        encodable(entries),
        0 <= index < entries.len(),
    ensures
        container(entries)[entry_start(index)] == entries[index].width % 256,
        container(entries)[entry_start(index) + 1] == entries[index].height % 256,
        entries[index].width <= 256 ==> stored_width(container(entries), index)
            == entries[index].width,
        entries[index].height <= 256 ==> stored_height(container(entries), index)
            == entries[index].height,
        stored_payload(container(entries), index) == entries[index].payload,
{
    let bytes = container(entries);
    let count = entries.len() as int;
    let offset = payload_offset(entries, index);
    let payload = entries[index].payload;
    lemma_stored_entry(entries, index);
    lemma_table_len(entries, count);
    lemma_blocks_len(entries, count);
    lemma_offsets_ascend(entries, index, count);
    if index > 0 {
        lemma_offsets_ascend(entries, 0, index);
    }
    assert forall|k: int| 0 <= k < payload.len() implies bytes[offset + k] == payload[k] by {
        lemma_block_byte(entries, count, index, k);
    }
    assert(stored_payload(bytes, index) =~= payload);
}

} // verus!
