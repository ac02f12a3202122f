use crosshair_compositor::face::{is_plain_face, LONGEST_FACE};
use crosshair_compositor::font::{greeting_glyphs, text_glyphs};

fn words(words: &[u16]) -> Vec<u8> {
    words.iter().flat_map(|word| word.to_be_bytes()).collect()
}

/// A file with these tables, one behind the other.
fn file(tables: &[(&[u8; 4], Vec<u8>)]) -> Vec<u8> {
    let mut data = words(&[0, 0, tables.len() as u16, 0, 0, 0]);
    data[1] = 1;
    let mut offset = 12 + 16 * tables.len();
    for (tag, table) in tables {
        data.extend_from_slice(*tag);
        data.extend_from_slice(&[0; 4]);
        data.extend_from_slice(&(offset as u32).to_be_bytes());
        data.extend_from_slice(&(table.len() as u32).to_be_bytes());
        offset += table.len();
    }
    for (_, table) in tables {
        data.extend_from_slice(table);
    }
    data
}

fn is_plain(tag: &[u8; 4], table: &[u8]) -> bool {
    let plain = is_plain_face(&file(&[(tag, table.to_vec())]));
    let pair = [(b"name", vec![1, 2]), (tag, table.to_vec())];
    assert_eq!(is_plain_face(&file(&pair)), plain);
    plain
}

/// A `cmap` table with one map for Windows.
fn character_map(encoding: u16, map: &[u16]) -> Vec<u8> {
    let mut table = words(&[0, 1, 3, encoding, 0, 12]);
    table.extend(words(map));
    table
}

/// A font that is read through this `cmap` table and kerned by this `kern` table.
fn kerned_font(cmap: Vec<u8>, kern: Vec<u8>) -> Vec<u8> {
    let mut head = vec![0; 54];
    head[18] = 4;
    file(&[
        (b"cmap", cmap),
        (b"head", head),
        (b"hhea", vec![0; 36]),
        (b"kern", kern),
        (b"maxp", vec![0, 0, 0x50, 0, 0, 96]),
    ])
}

/// A font that is read through this `cmap` table.
fn font(cmap: Vec<u8>) -> Vec<u8> {
    kerned_font(cmap, vec![])
}

#[test]
fn collection_is_no_plain_face() {
    let endless = [0x74, 0x74, 0x63, 0x66, 0, 1, 0, 0, 0xff, 0xff, 0xff, 0xff];
    assert!(!is_plain_face(&endless));
    assert_eq!(greeting_glyphs(&endless), None);
    assert_eq!(text_glyphs(&endless, ""), None);

    let mut empty = endless;
    empty[8..].fill(0);
    assert!(!is_plain_face(&empty));
    assert_eq!(greeting_glyphs(&empty), None);
}

#[test]
fn directory_lies_inside_the_bytes() {
    assert!(is_plain_face(&file(&[])));
    assert!(!is_plain_face(&[]));
    assert!(!is_plain_face(&file(&[])[..11]));
    let data = file(&[(b"name", vec![])]);
    assert!(is_plain_face(&data));
    assert!(!is_plain_face(&data[..27]));

    let mut full = vec![0; 12 + 16 * 65535];
    full[4..6].fill(0xff);
    assert!(!is_plain_face(&full));
    full[5] = 0xfe;
    assert!(is_plain_face(&full));
}

#[test]
fn tables_that_count_in_four_bytes_are_not_plain() {
    for tag in [
        b"CFF ", b"CFF2", b"bdat", b"bloc", b"CBDT", b"CBLC", b"EBDT", b"EBLC", b"sbix", b"COLR",
        b"CPAL", b"SVG ", b"avar", b"fvar", b"gvar", b"HVAR", b"MVAR", b"STAT", b"VVAR", b"ankr",
        b"feat", b"kerx", b"morx", b"trak",
    ] {
        assert!(!is_plain(tag, &[]));
        assert_eq!(greeting_glyphs(&file(&[(tag, vec![])])), None);
    }
    for tag in [
        b"FFTM", b"GDEF", b"GPOS", b"GSUB", b"MATH", b"OS/2", b"VORG", b"cmap", b"cvt ", b"fpgm",
        b"gasp", b"glyf", b"head", b"hhea", b"hmtx", b"kern", b"loca", b"maxp", b"name", b"post",
        b"prep", b"vhea", b"vmtx",
    ] {
        assert!(is_plain(tag, &[]));
    }
}

#[test]
fn versions_decide_on_layout_tables() {
    assert!(is_plain(b"kern", &words(&[0, 1, 2])));
    assert!(!is_plain(b"kern", &words(&[1, 0, 0])));
    assert!(!is_plain(b"kern", &words(&[1])));
    assert!(is_plain(b"kern", &[1]));
    for tag in [b"GPOS", b"GSUB"] {
        assert!(is_plain(tag, &words(&[1, 0, 5])));
        assert!(!is_plain(tag, &words(&[1, 1])));
        assert!(is_plain(tag, &[0, 1, 0]));
    }
    for version in [0, 2] {
        assert!(is_plain(b"GDEF", &words(&[1, version])));
    }
    assert!(!is_plain(b"GDEF", &words(&[1, 3])));
    assert!(is_plain(b"GDEF", &[0, 1, 0]));
}

#[test]
fn table_outside_the_bytes_is_not_read() {
    let data = file(&[(b"kern", words(&[1, 0]))]);
    assert!(!is_plain_face(&data));
    assert!(is_plain_face(&data[..data.len() - 1]));
}

#[test]
fn character_maps_stay_inside_their_table() {
    // The format, the words before the count, the bytes of an item.
    for (format, before, item) in [(10, 8, 2), (12, 6, 12), (13, 6, 12), (14, 3, 11)] {
        let mut map = vec![0; before];
        map[0] = format;
        for (count, spare, plain) in [
            ([0, 0], 0, true),
            ([0, 1], item, true),
            ([0, 1], item - 1, false),
            ([0, 3], 3 * item, true),
            ([0, 3], 3 * item - 1, false),
            ([1, 0], 0, false),
            ([0xffff, 0xffff], 50, false),
        ] {
            let mut table = character_map(1, &map);
            table.extend(words(&count));
            table.extend(vec![0; spare]);
            assert_eq!(is_plain(b"cmap", &table), plain, "{format} {count:?} {spare}");
        }
        let cut = [character_map(1, &map), vec![0xff; 3]].concat();
        assert!(is_plain(b"cmap", &cut));
    }
    for format in [0, 2, 4, 6, 8, 11, 15] {
        let map = character_map(1, &[format, 0xffff, 0xffff, 0xffff, 0xffff, 0xffff]);
        assert!(is_plain(b"cmap", &map));
    }
}

#[test]
fn every_character_map_counts() {
    let bad = [12, 0, 0, 0, 0, 0, 0xffff, 0xffff];
    let mut table = words(&[0, 2, 3, 1, 0, 20, 3, 10, 0, 24]);
    table.extend(words(&[6, 0]));
    table.extend(words(&bad));
    assert!(!is_plain(b"cmap", &table));
    assert_eq!(greeting_glyphs(&font(table.clone())), None);
    // One record: the second map is not read.
    table[3] = 1;
    assert!(is_plain(b"cmap", &table));
    // Records that leave the table: no map is read.
    table[3] = 50;
    assert!(is_plain(b"cmap", &table));
    // A map that starts outside the table is not read.
    assert!(is_plain(b"cmap", &words(&[0, 1, 3, 1, 0xffff, 0xffff])));
}

#[test]
fn glyphs_come_from_long_character_maps() {
    let groups = [0, 1, 0, 'x' as u16, 0, 'z' as u16, 0, 5];
    let mut map = vec![12, 0, 0, 28, 0, 0];
    map.extend(groups);
    let data = font(character_map(10, &map));
    assert_eq!(text_glyphs(&data, "zxa"), Some(vec![7, 5, 0]));
    map[0] = 13;
    let data = font(character_map(10, &map));
    assert_eq!(text_glyphs(&data, "zxa"), Some(vec![5, 5, 0]));
    map[7] = 2;
    let data = font(character_map(10, &map));
    assert_eq!(text_glyphs(&data, "zxa"), None);
    let trimmed = [10, 0, 0, 26, 0, 0, 0, 'x' as u16, 0, 3, 5, 6, 7];
    let data = font(character_map(1, &trimmed));
    assert_eq!(text_glyphs(&data, "zxa"), Some(vec![7, 5, 0]));
}

#[test]
fn plain_face_without_tables_is_no_font() {
    assert_eq!(text_glyphs(&file(&[]), "x"), None);
    assert_eq!(text_glyphs(&file(&[(b"cmap", vec![])]), "x"), None);
}

#[test]
fn lengths_of_two_bytes_stay_within_32_bits() {
    assert_eq!(LONGEST_FACE.checked_add(u16::MAX.into()), Some(u32::MAX));
}

#[test]
fn kerning_of_several_subtables_is_read() {
    let trimmed = [6, 16, 0, 'x' as u16, 3, 5, 6, 7];
    // Two whole subtables, and one whose length leaves the table.
    let kern = words(&[0, 2, 0, 10, 0x201, 0, 0, 0, 8, 0x201, 0, 0, 0xffff, 0x201]);
    let data = kerned_font(character_map(1, &trimmed), kern.clone());
    assert!(is_plain_face(&data));
    assert_eq!(text_glyphs(&data, "zxa"), Some(vec![7, 5, 0]));
    // One subtable, whose length does not count.
    let mut single = kern;
    single[3] = 1;
    let data = kerned_font(character_map(1, &trimmed), single);
    assert_eq!(text_glyphs(&data, "yy"), Some(vec![6, 6]));
}
