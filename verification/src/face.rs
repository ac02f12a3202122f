//! The faces that are handed to the font reader.
//!
//! A font file starts with a directory of its tables. Where a count or a length in a table asks for
//! bytes at places that 32 bits cannot number, `ab_glyph` may stop the program instead of refusing
//! the file. In a plain face none does: what is counted in four bytes lies inside its table, and
//! what is counted in two bytes, though it may leave the face, starts early enough in it.

use vstd::prelude::*;
use vstd::slice::slice_subrange;

verus! {

/// The first four bytes of a file that holds several faces, `ttcf`.
pub const COLLECTION: u32 = 0x7474_6366;

/// The characters and their glyphs, `cmap`.
pub const CHARACTER_MAP: u32 = 0x636d_6170;

/// The distances between pairs of glyphs, `kern`.
pub const KERNING: u32 = 0x6b65_726e;

/// The classes of the glyphs, `GDEF`.
pub const GLYPH_CLASSES: u32 = 0x4744_4546;

/// How glyphs are moved, `GPOS`.
pub const GLYPH_POSITIONS: u32 = 0x4750_4f53;

/// How glyphs are replaced, `GSUB`.
pub const GLYPH_SUBSTITUTES: u32 = 0x4753_5542;

/// The version of a `GDEF` table that describes variations, too.
pub const VARIABLE_GLYPH_CLASSES: u32 = 0x0001_0003;

/// The most bytes of a plain face. From any place in it, a length of two bytes leads to a place that
/// 32 bits can number.
pub const LONGEST_FACE: u32 = 0xffff_0000;

/// The number in the two bytes from `at` on, the higher byte first.
pub open spec fn short_at(data: Seq<u8>, at: int) -> int {
    data[at] * 0x100 + data[at + 1]
}

/// The number in the four bytes from `at` on, the highest byte first.
pub open spec fn long_at(data: Seq<u8>, at: int) -> int {
    short_at(data, at) * 0x1_0000 + short_at(data, at + 2)
}

/// Whether a tag is that of a compact outline table, `CFF ` or `CFF2`.
pub open spec fn is_compact_outline(tag: int) -> bool {
    tag == 0x4346_4620 || tag == 0x4346_4632
}

/// Whether a tag is that of a table of bitmaps: `bdat`, `bloc`, `CBDT`, `CBLC`, `EBDT`, `EBLC` or
/// `sbix`.
pub open spec fn is_bitmap(tag: int) -> bool {
    ||| tag == 0x6264_6174
    ||| tag == 0x626c_6f63
    ||| tag == 0x4342_4454
    ||| tag == 0x4342_4c43
    ||| tag == 0x4542_4454
    ||| tag == 0x4542_4c43
    ||| tag == 0x7362_6978
}

/// Whether a tag is that of a table of colours: `COLR`, `CPAL` or `SVG `.
pub open spec fn is_colour(tag: int) -> bool {
    tag == 0x434f_4c52 || tag == 0x4350_414c || tag == 0x5356_4720
}

/// Whether a tag is that of a table of variations: `avar`, `fvar`, `gvar`, `HVAR`, `MVAR`, `STAT` or
/// `VVAR`.
pub open spec fn is_variation(tag: int) -> bool {
    ||| tag == 0x6176_6172
    ||| tag == 0x6676_6172
    ||| tag == 0x6776_6172
    ||| tag == 0x4856_4152
    ||| tag == 0x4d56_4152
    ||| tag == 0x5354_4154
    ||| tag == 0x5656_4152
}

/// Whether a tag is that of a table of Apple's layout: `ankr`, `feat`, `kerx`, `morx` or `trak`.
pub open spec fn is_apple_layout(tag: int) -> bool {
    ||| tag == 0x616e_6b72
    ||| tag == 0x6665_6174
    ||| tag == 0x6b65_7278
    ||| tag == 0x6d6f_7278
    ||| tag == 0x7472_616b
}

/// Whether a plain face may hold a table of this tag.
pub open spec fn plain_tag(tag: int) -> bool {
    &&& !is_compact_outline(tag)
    &&& !is_bitmap(tag)
    &&& !is_colour(tag)
    &&& !is_variation(tag)
    &&& !is_apple_layout(tag)
}

/// Whether the items stay inside the table that follow a header at `at`, where the header has
/// `header` bytes, the last four of which count the items, and each item has `item` bytes. A header
/// that is cut off counts none.
pub open spec fn items_fit(table: Seq<u8>, at: int, header: int, item: int) -> bool {
    at + header <= table.len() ==> at + header + item * long_at(table, at + header - 4)
        <= table.len()
}

/// Whether the character map at `at` in a `cmap` table is one of the formats that count in two
/// bytes, or its items stay inside the table.
pub open spec fn plain_mapping(table: Seq<u8>, at: int) -> bool {
    at + 2 <= table.len() ==> {
        let format = short_at(table, at);
        &&& format == 10 ==> items_fit(table, at, 20, 2)
        &&& format == 12 || format == 13 ==> items_fit(table, at, 16, 12)
        &&& format == 14 ==> items_fit(table, at, 10, 11)
    }
}

/// Whether every character map of a `cmap` table is plain. The offsets of the maps stand in
/// records of eight bytes behind a header of four; where one is cut off, there is no map.
pub open spec fn plain_character_map(table: Seq<u8>) -> bool {
    4 <= table.len() && 4 + 8 * short_at(table, 2) <= table.len() ==> forall|i: int|
        0 <= i < short_at(table, 2) ==> #[trigger] plain_mapping_record(table, i)
}

/// Whether the character map of record `i` of a `cmap` table is plain.
pub open spec fn plain_mapping_record(table: Seq<u8>, i: int) -> bool {
    plain_mapping(table, long_at(table, 8 + 8 * i))
}

/// Whether a table of this tag is plain:
/// - a `cmap` table has plain character maps;
/// - a `kern` table has version 0, whose subtables have lengths of two bytes;
/// - a `GPOS` or `GSUB` table has no minor version, and so no variations;
/// - a `GDEF` table has none of them either.
///
/// A table that is too short to have a version is not read.
pub open spec fn plain_table(tag: int, table: Seq<u8>) -> bool {
    &&& tag == CHARACTER_MAP ==> plain_character_map(table)
    &&& tag == KERNING && 2 <= table.len() ==> short_at(table, 0) == 0
    &&& (tag == GLYPH_POSITIONS || tag == GLYPH_SUBSTITUTES) && 4 <= table.len() ==> short_at(
        table,
        2,
    ) == 0
    &&& tag == GLYPH_CLASSES && 4 <= table.len() ==> long_at(table, 0) != VARIABLE_GLYPH_CLASSES
}

/// Whether record `i` of the directory names a plain table. A record has sixteen bytes: the tag, a
/// checksum, the table's offset and its length. A table outside the bytes is not read.
pub open spec fn plain_record(data: Seq<u8>, i: int) -> bool {
    let at = 12 + 16 * i;
    let tag = long_at(data, at);
    let start = long_at(data, at + 8);
    let end = start + long_at(data, at + 12);
    &&& plain_tag(tag)
    &&& end <= data.len() ==> plain_table(tag, data.subrange(start, end))
}

/// Whether the bytes are a plain face: one face and no collection, not too long, with a directory
/// inside the bytes that names plain tables only.
pub open spec fn plain_face(data: Seq<u8>) -> bool {
    &&& 12 <= data.len() <= LONGEST_FACE
    &&& long_at(data, 0) != COLLECTION
    &&& short_at(data, 4) < u16::MAX
    &&& 12 + 16 * short_at(data, 4) <= data.len()
    &&& forall|i: int| 0 <= i < short_at(data, 4) ==> #[trigger] plain_record(data, i)
}

/// Reads two bytes as a number.
fn read_short(data: &[u8], at: usize) -> (number: u16)
    requires
        at + 2 <= data@.len(),
    ensures
        number == short_at(data@, at as int),
{
    data[at] as u16 * 0x100 + data[at + 1] as u16
}

/// Reads four bytes as a number.
fn read_long(data: &[u8], at: usize) -> (number: u32)
    requires
        at + 4 <= data@.len(),
    ensures
        number == long_at(data@, at as int),
{
    assert(at + 4 <= data.len());
    read_short(data, at) as u32 * 0x1_0000 + read_short(data, at + 2) as u32
}

/// Tells whether a plain face may hold a table of this tag.
fn is_plain_tag(tag: u32) -> (plain: bool)
    ensures
        plain == plain_tag(tag as int),
{
    let compact_outline = tag == 0x4346_4620 || tag == 0x4346_4632;
    let bitmap = tag == 0x6264_6174 || tag == 0x626c_6f63 || tag == 0x4342_4454 || tag
        == 0x4342_4c43 || tag == 0x4542_4454 || tag == 0x4542_4c43 || tag == 0x7362_6978;
    let colour = tag == 0x434f_4c52 || tag == 0x4350_414c || tag == 0x5356_4720;
    let variation = tag == 0x6176_6172 || tag == 0x6676_6172 || tag == 0x6776_6172 || tag
        == 0x4856_4152 || tag == 0x4d56_4152 || tag == 0x5354_4154 || tag == 0x5656_4152;
    let apple_layout = tag == 0x616e_6b72 || tag == 0x6665_6174 || tag == 0x6b65_7278 || tag
        == 0x6d6f_7278 || tag == 0x7472_616b;
    !compact_outline && !bitmap && !colour && !variation && !apple_layout
}

/// Tells whether the items behind a header stay inside the table.
fn do_items_fit(table: &[u8], at: usize, header: usize, item: u64) -> (fit: bool)
    requires
        at <= table@.len(),
        4 <= header <= 20,
        item <= 12,
    ensures
        fit == items_fit(table@, at as int, header as int, item as int),
{
    if table.len() - at < header {
        return true;
    }
    let count: u32 = read_long(table, at + header - 4);
    assert(item * count <= 12 * 0xffff_ffff) by (nonlinear_arith)
        requires
            item <= 12,
            count <= 0xffff_ffff,
    ;
    item * count as u64 <= (table.len() - at - header) as u64
}

/// Tells whether the character map at `at` is plain.
fn is_plain_mapping(table: &[u8], at: u32) -> (plain: bool)
    ensures
        plain == plain_mapping(table@, at as int),
{
    if (table.len() as u64) < at as u64 + 2 {
        return true;
    }
    let at: usize = at as usize;
    let format: u16 = read_short(table, at);
    if format == 10 {
        do_items_fit(table, at, 20, 2)
    } else if format == 12 || format == 13 {
        do_items_fit(table, at, 16, 12)
    } else if format == 14 {
        do_items_fit(table, at, 10, 11)
    } else {
        true
    }
}

/// Tells whether every character map of a `cmap` table is plain.
fn is_plain_character_map(table: &[u8]) -> (plain: bool)
    ensures
        plain == plain_character_map(table@),
{
    if table.len() < 4 {
        return true;
    }
    let count: usize = read_short(table, 2) as usize;
    if table.len() < 4 + 8 * count {
        return true;
    }
    for i in 0..count
        invariant
            count == short_at(table@, 2),
            4 + 8 * count <= table@.len(),
            forall|j: int| 0 <= j < i ==> #[trigger] plain_mapping_record(table@, j),
    {
        let plain = is_plain_mapping(table, read_long(table, 8 + 8 * i));
        assert(plain == plain_mapping_record(table@, i as int));
        if !plain {
            return false;
        }
    }
    true
}

/// Tells whether a table of this tag is plain.
fn is_plain_table(tag: u32, table: &[u8]) -> (plain: bool)
    ensures
        plain == plain_table(tag as int, table@),
{
    if tag == CHARACTER_MAP {
        is_plain_character_map(table)
    } else if tag == KERNING {
        table.len() < 2 || read_short(table, 0) == 0
    } else if tag == GLYPH_POSITIONS || tag == GLYPH_SUBSTITUTES {
        table.len() < 4 || read_short(table, 2) == 0
    } else if tag == GLYPH_CLASSES {
        table.len() < 4 || read_long(table, 0) != VARIABLE_GLYPH_CLASSES
    } else {
        true
    }
}

/// Tells whether record `i` of the directory names a plain table.
fn is_plain_record(data: &[u8], i: usize) -> (plain: bool)
    requires
        i < u16::MAX,
        12 + 16 * (i + 1) <= data@.len(),
    ensures
        plain == plain_record(data@, i as int),
{
    let at: usize = 12 + 16 * i;
    let tag: u32 = read_long(data, at);
    if !is_plain_tag(tag) {
        return false;
    }
    let start: u64 = read_long(data, at + 8) as u64;
    let end: u64 = start + read_long(data, at + 12) as u64;
    if (data.len() as u64) < end {
        return true;
    }
    is_plain_table(tag, slice_subrange(data, start as usize, end as usize))
}

/// Tells whether the bytes are a plain face.
pub fn is_plain_face(data: &[u8]) -> (plain: bool)
    ensures
        plain == plain_face(data@),
{
    if data.len() < 12 || data.len() as u64 > LONGEST_FACE as u64 {
        return false;
    }
    if read_long(data, 0) == COLLECTION {
        return false;
    }
    let count: u16 = read_short(data, 4);
    if count == u16::MAX || data.len() < 12 + 16 * count as usize {
        return false;
    }
    for i in 0..count as usize
        invariant
            count == short_at(data@, 4),
            count < u16::MAX,
            12 + 16 * count <= data@.len(),
            forall|j: int| 0 <= j < i ==> #[trigger] plain_record(data@, j),
    {
        if !is_plain_record(data, i) {
            return false;
        }
    }
    true
}

/// Numbers are read with the highest byte first.
pub proof fn law_numbers_start_with_the_highest_byte(data: Seq<u8>, at: int)
    ensures
        short_at(data, at) == 256 * data[at] + data[at + 1],
        long_at(data, at) == 16777216 * data[at] + 65536 * data[at + 1] + 256 * data[at + 2]
            + data[at + 3],
{
}

/// A plain face is neither too short nor too long, does not start with `ttcf`, and has its whole
/// directory, of fewer than 65535 tables. Each table in it has a tag that a plain face may hold, and
/// is plain where it lies inside the bytes.
pub proof fn law_plain_faces(data: Seq<u8>, i: int)
    requires
        plain_face(data),
    ensures
        12 <= data.len() <= 4294901760,
        !(data[0] == 0x74 && data[1] == 0x74 && data[2] == 0x63 && data[3] == 0x66),
        256 * data[4] + data[5] < 65535,
        12 + 16 * (256 * data[4] + data[5]) <= data.len(),
        0 <= i < 256 * data[4] + data[5] ==> {
            let tag = long_at(data, 12 + 16 * i);
            let start = long_at(data, 20 + 16 * i);
            let end = start + long_at(data, 24 + 16 * i);
            &&& plain_tag(tag)
            &&& end <= data.len() ==> plain_table(tag, data.subrange(start, end))
        },
{
    if 0 <= i < 256 * data[4] + data[5] {
        assert(plain_record(data, i));
    }
}

/// Nothing else is asked of a plain face.
pub proof fn law_faces_that_are_plain(data: Seq<u8>)
    requires
        12 <= data.len() <= 4294901760,
        !(data[0] == 0x74 && data[1] == 0x74 && data[2] == 0x63 && data[3] == 0x66),
        256 * data[4] + data[5] < 65535,
        12 + 16 * (256 * data[4] + data[5]) <= data.len(),
        forall|i: int|
            #![trigger plain_tag(long_at(data, 12 + 16 * i))]
            0 <= i < 256 * data[4] + data[5] ==> {
                let tag = long_at(data, 12 + 16 * i);
                let start = long_at(data, 12 + 16 * i + 8);
                let end = start + long_at(data, 12 + 16 * i + 12);
                &&& plain_tag(tag)
                &&& end <= data.len() ==> plain_table(tag, data.subrange(start, end))
            },
    ensures
        plain_face(data),
{
    assert forall|i: int| 0 <= i < short_at(data, 4) implies #[trigger] plain_record(data, i) by {
        assert(plain_tag(long_at(data, 12 + 16 * i)));
    }
}

/// A plain face may hold any table but `CFF `, `CFF2`, `bdat`, `bloc`, `CBDT`, `CBLC`, `EBDT`,
/// `EBLC`, `sbix`, `COLR`, `CPAL`, `SVG `, `avar`, `fvar`, `gvar`, `HVAR`, `MVAR`, `STAT`, `VVAR`,
/// `ankr`, `feat`, `kerx`, `morx` and `trak`.
pub proof fn law_plain_tags(tag: int)
    ensures
        plain_tag(tag) <==> !seq![
            0x4346_4620int,
            0x4346_4632,
            0x6264_6174,
            0x626c_6f63,
            0x4342_4454,
            0x4342_4c43,
            0x4542_4454,
            0x4542_4c43,
            0x7362_6978,
            0x434f_4c52,
            0x4350_414c,
            0x5356_4720,
            0x6176_6172,
            0x6676_6172,
            0x6776_6172,
            0x4856_4152,
            0x4d56_4152,
            0x5354_4154,
            0x5656_4152,
            0x616e_6b72,
            0x6665_6174,
            0x6b65_7278,
            0x6d6f_7278,
            0x7472_616b,
        ].contains(tag),
{
    let refused = seq![
        0x4346_4620int,
        0x4346_4632,
        0x6264_6174,
        0x626c_6f63,
        0x4342_4454,
        0x4342_4c43,
        0x4542_4454,
        0x4542_4c43,
        0x7362_6978,
        0x434f_4c52,
        0x4350_414c,
        0x5356_4720,
        0x6176_6172,
        0x6676_6172,
        0x6776_6172,
        0x4856_4152,
        0x4d56_4152,
        0x5354_4154,
        0x5656_4152,
        0x616e_6b72,
        0x6665_6174,
        0x6b65_7278,
        0x6d6f_7278,
        0x7472_616b,
    ];
    if !plain_tag(tag) {
        assert(refused[0] == tag || refused[1] == tag || refused[2] == tag || refused[3] == tag
            || refused[4] == tag || refused[5] == tag || refused[6] == tag || refused[7] == tag
            || refused[8] == tag || refused[9] == tag || refused[10] == tag || refused[11] == tag
            || refused[12] == tag || refused[13] == tag || refused[14] == tag || refused[15] == tag
            || refused[16] == tag || refused[17] == tag || refused[18] == tag || refused[19] == tag
            || refused[20] == tag || refused[21] == tag || refused[22] == tag || refused[23]
            == tag);
    }
}

/// Of the tables with a version, `kern` is plain with two zero bytes in front, `GPOS` and `GSUB`
/// with two zero bytes behind the first two, and `GDEF` with any version but 1.3; what is too short for
/// its version is plain as well, and so is every table that is none of these and no `cmap`.
pub proof fn law_plain_versions(tag: int, table: Seq<u8>)
    requires
        tag != 0x636d_6170,
    ensures
        plain_table(tag, table) <==> {
            ||| tag == 0x6b65_726e && (table.len() < 2 || table[0] == 0 && table[1] == 0)
            ||| (tag == 0x4750_4f53 || tag == 0x4753_5542) && (table.len() < 4 || table[2] == 0
                && table[3] == 0)
            ||| tag == 0x4744_4546 && (table.len() < 4 || !(table[0] == 0 && table[1] == 1
                && table[2] == 0 && table[3] == 3))
            ||| tag != 0x6b65_726e && tag != 0x4750_4f53 && tag != 0x4753_5542 && tag != 0x4744_4546
        },
{
}

/// In a plain `cmap` table the character map of record `i`, which starts at `at`, keeps its items
/// inside the table, where it counts them in four bytes and its header is whole.
pub proof fn law_plain_maps_keep_inside(table: Seq<u8>, i: int, at: int)
    requires
        plain_table(0x636d_6170, table),
        4 + 8 * (256 * table[2] + table[3]) <= table.len(),
        0 <= i < 256 * table[2] + table[3],
        at == 16777216 * table[8 + 8 * i] + 65536 * table[9 + 8 * i] + 256 * table[10 + 8 * i]
            + table[11 + 8 * i],
        at + 2 <= table.len(),
        table[at] == 0,
    ensures
        table[at + 1] == 10 && at + 20 <= table.len() ==> at + 20 + 2 * (16777216 * table[at + 16] + 65536 * table[at + 17]
            + 256 * table[at + 18] + table[at + 19]) <= table.len(),
        (table[at + 1] == 12 || table[at + 1] == 13) && at + 16 <= table.len() ==> at + 16 + 12 * (16777216 * table[at + 12]
            + 65536 * table[at + 13] + 256 * table[at + 14] + table[at + 15]) <= table.len(),
        table[at + 1] == 14 && at + 10 <= table.len() ==> at + 10 + 11 * (16777216 * table[at + 6] + 65536 * table[at + 7]
            + 256 * table[at + 8] + table[at + 9]) <= table.len(),
{
    assert(plain_mapping_record(table, i));
}

/// A `cmap` table is plain where none of its maps counts its items in four bytes, and where what
/// each such map counts fits behind it.
pub proof fn law_maps_that_fit_are_plain(table: Seq<u8>)
    requires
        4 <= table.len() && 4 + 8 * (256 * table[2] + table[3]) <= table.len() ==> forall|i: int|
            0 <= i < 256 * table[2] + table[3] ==> {
                let at = #[trigger] long_at(table, 8 + 8 * i);
                ||| at + 2 > table.len()
                ||| table[at] != 0
                ||| table[at + 1] != 10 && table[at + 1] != 12 && table[at + 1] != 13 && table[at
                    + 1] != 14
                ||| table[at + 1] == 10 && (at + 20 > table.len() || at + 20 + 2 * long_at(
                    table,
                    at + 16,
                ) <= table.len())
                ||| (table[at + 1] == 12 || table[at + 1] == 13) && (at + 16 > table.len() || at
                    + 16 + 12 * long_at(table, at + 12) <= table.len())
                ||| table[at + 1] == 14 && (at + 10 > table.len() || at + 10 + 11 * long_at(
                    table,
                    at + 6,
                ) <= table.len())
            },
    ensures
        plain_table(0x636d_6170, table),
{
    if 4 <= table.len() && 4 + 8 * short_at(table, 2) <= table.len() {
        assert forall|i: int| 0 <= i < short_at(table, 2) implies #[trigger] plain_mapping_record(
            table,
            i,
        ) by {
            let at = long_at(table, 8 + 8 * i);
            assert(0 <= at);
        }
    }
}

} // verus!
