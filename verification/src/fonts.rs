//! Fallback fonts for the scripts that titles are written in.

use crate::ffmpeg::Os;
use vstd::prelude::*;

verus! {

/// The fonts to fall back on, in order: a key and the path of the font file.
pub open spec fn font_table(os: Os) -> Seq<(Seq<char>, Seq<char>)> {
    match os {
        Os::MacOs => seq![
            ("latin_ext"@, "/System/Library/Fonts/Helvetica.ttc"@),
            ("cjk"@, "/System/Library/Fonts/PingFang.ttc"@),
            ("arabic"@, "/System/Library/Fonts/GeezaPro.ttc"@),
            ("thai"@, "/System/Library/Fonts/Thonburi.ttf"@),
            ("devanagari"@, "/System/Library/Fonts/Kohinoor.ttc"@),
            ("hebrew"@, "/System/Library/Fonts/Supplemental/Arial Hebrew.ttf"@),
            ("armenian"@, "/System/Library/Fonts/Supplemental/Mshtakan.ttf"@),
            ("georgian"@, "/System/Library/Fonts/Supplemental/BPG.ttf"@),
            ("tibetan"@, "/System/Library/Fonts/Supplemental/Kailasa.ttf"@),
            ("myanmar"@, "/System/Library/Fonts/Supplemental/Myanmar MN.ttc"@),
            ("khmer"@, "/System/Library/Fonts/Supplemental/Khmer MN.ttc"@),
            ("lao"@, "/System/Library/Fonts/Supplemental/Lao MN.ttf"@),
            ("sinhala"@, "/System/Library/Fonts/Supplemental/Sinhala MN.ttc"@),
        ],
        Os::Windows => seq![
            ("latin_ext"@, "C:\\Windows\\Fonts\\segoeui.ttf"@),
            ("cjk"@, "C:\\Windows\\Fonts\\msgothic.ttc"@),
            ("arabic"@, "C:\\Windows\\Fonts\\arial.ttf"@),
            ("thai"@, "C:\\Windows\\Fonts\\tahoma.ttf"@),
            ("devanagari"@, "C:\\Windows\\Fonts\\mangal.ttf"@),
            ("tamil"@, "C:\\Windows\\Fonts\\latha.ttf"@),
            ("telugu"@, "C:\\Windows\\Fonts\\gautami.ttf"@),
            ("kannada"@, "C:\\Windows\\Fonts\\tunga.ttf"@),
            ("malayalam"@, "C:\\Windows\\Fonts\\kartika.ttf"@),
            ("sinhala"@, "C:\\Windows\\Fonts\\iskpota.ttf"@),
            ("myanmar"@, "C:\\Windows\\Fonts\\mmrtext.ttf"@),
            ("ethiopic"@, "C:\\Windows\\Fonts\\nyala.ttf"@),
            ("georgian"@, "C:\\Windows\\Fonts\\sylfaen.ttf"@),
            ("armenian"@, "C:\\Windows\\Fonts\\sylfaen.ttf"@),
            ("khmer"@, "C:\\Windows\\Fonts\\leelawad.ttf"@),
        ],
        Os::Other => seq![
            ("latin_ext"@, "/usr/share/fonts/truetype/dejavu/DejaVuSans.ttf"@),
            ("latin_ext2"@, "/usr/share/fonts/truetype/liberation/LiberationSans-Regular.ttf"@),
            ("cjk"@, "/usr/share/fonts/truetype/wqy/wqy-zenhei.ttc"@),
            ("cjk2"@, "/usr/share/fonts/opentype/noto/NotoSansCJK-Regular.ttc"@),
            ("arabic"@, "/usr/share/fonts/truetype/noto/NotoSansArabic-Regular.ttf"@),
            ("arabic2"@, "/usr/share/fonts/truetype/arabic/NotoNaskhArabic-Regular.ttf"@),
            ("hebrew"@, "/usr/share/fonts/truetype/noto/NotoSansHebrew-Regular.ttf"@),
            ("devanagari"@, "/usr/share/fonts/truetype/noto/NotoSansDevanagari-Regular.ttf"@),
            ("thai"@, "/usr/share/fonts/truetype/noto/NotoSansThai-Regular.ttf"@),
            ("tamil"@, "/usr/share/fonts/truetype/noto/NotoSansTamil-Regular.ttf"@),
            ("telugu"@, "/usr/share/fonts/truetype/noto/NotoSansTelugu-Regular.ttf"@),
            ("kannada"@, "/usr/share/fonts/truetype/noto/NotoSansKannada-Regular.ttf"@),
            ("malayalam"@, "/usr/share/fonts/truetype/noto/NotoSansMalayalam-Regular.ttf"@),
            ("bengali"@, "/usr/share/fonts/truetype/noto/NotoSansBengali-Regular.ttf"@),
            ("sinhala"@, "/usr/share/fonts/truetype/noto/NotoSansSinhala-Regular.ttf"@),
            ("myanmar"@, "/usr/share/fonts/truetype/noto/NotoSansMyanmar-Regular.ttf"@),
            ("khmer"@, "/usr/share/fonts/truetype/noto/NotoSansKhmer-Regular.ttf"@),
            ("lao"@, "/usr/share/fonts/truetype/noto/NotoSansLao-Regular.ttf"@),
            ("tibetan"@, "/usr/share/fonts/truetype/noto/NotoSansTibetan-Regular.ttf"@),
            ("ethiopic"@, "/usr/share/fonts/truetype/noto/NotoSansEthiopic-Regular.ttf"@),
            ("georgian"@, "/usr/share/fonts/truetype/noto/NotoSansGeorgian-Regular.ttf"@),
            ("armenian"@, "/usr/share/fonts/truetype/noto/NotoSansArmenian-Regular.ttf"@),
        ],
    }
}

/// The texts of a list of keys and paths.
pub open spec fn font_texts(list: Seq<(&'static str, &'static str)>) -> Seq<(Seq<char>, Seq<char>)> {
    list.map_values(|f: (&'static str, &'static str)| (f.0@, f.1@))
}

/// The fonts to fall back on, in order: a key and the path of the font file. A
/// file that is missing is passed over.
pub fn font_candidates(os: Os) -> (r: Vec<(&'static str, &'static str)>)
    ensures
        font_texts(r@) == font_table(os),
{
    let r: Vec<(&'static str, &'static str)> = match os {
        Os::MacOs => vec![
            ("latin_ext", "/System/Library/Fonts/Helvetica.ttc"),
            ("cjk", "/System/Library/Fonts/PingFang.ttc"),
            ("arabic", "/System/Library/Fonts/GeezaPro.ttc"),
            ("thai", "/System/Library/Fonts/Thonburi.ttf"),
            ("devanagari", "/System/Library/Fonts/Kohinoor.ttc"),
            ("hebrew", "/System/Library/Fonts/Supplemental/Arial Hebrew.ttf"),
            ("armenian", "/System/Library/Fonts/Supplemental/Mshtakan.ttf"),
            ("georgian", "/System/Library/Fonts/Supplemental/BPG.ttf"),
            ("tibetan", "/System/Library/Fonts/Supplemental/Kailasa.ttf"),
            ("myanmar", "/System/Library/Fonts/Supplemental/Myanmar MN.ttc"),
            ("khmer", "/System/Library/Fonts/Supplemental/Khmer MN.ttc"),
            ("lao", "/System/Library/Fonts/Supplemental/Lao MN.ttf"),
            ("sinhala", "/System/Library/Fonts/Supplemental/Sinhala MN.ttc"),
        ],
        Os::Windows => vec![
            ("latin_ext", "C:\\Windows\\Fonts\\segoeui.ttf"),
            ("cjk", "C:\\Windows\\Fonts\\msgothic.ttc"),
            ("arabic", "C:\\Windows\\Fonts\\arial.ttf"),
            ("thai", "C:\\Windows\\Fonts\\tahoma.ttf"),
            ("devanagari", "C:\\Windows\\Fonts\\mangal.ttf"),
            ("tamil", "C:\\Windows\\Fonts\\latha.ttf"),
            ("telugu", "C:\\Windows\\Fonts\\gautami.ttf"),
            ("kannada", "C:\\Windows\\Fonts\\tunga.ttf"),
            ("malayalam", "C:\\Windows\\Fonts\\kartika.ttf"),
            ("sinhala", "C:\\Windows\\Fonts\\iskpota.ttf"),
            ("myanmar", "C:\\Windows\\Fonts\\mmrtext.ttf"),
            ("ethiopic", "C:\\Windows\\Fonts\\nyala.ttf"),
            ("georgian", "C:\\Windows\\Fonts\\sylfaen.ttf"),
            ("armenian", "C:\\Windows\\Fonts\\sylfaen.ttf"),
            ("khmer", "C:\\Windows\\Fonts\\leelawad.ttf"),
        ],
        Os::Other => vec![
            ("latin_ext", "/usr/share/fonts/truetype/dejavu/DejaVuSans.ttf"),
            ("latin_ext2", "/usr/share/fonts/truetype/liberation/LiberationSans-Regular.ttf"),
            ("cjk", "/usr/share/fonts/truetype/wqy/wqy-zenhei.ttc"),
            ("cjk2", "/usr/share/fonts/opentype/noto/NotoSansCJK-Regular.ttc"),
            ("arabic", "/usr/share/fonts/truetype/noto/NotoSansArabic-Regular.ttf"),
            ("arabic2", "/usr/share/fonts/truetype/arabic/NotoNaskhArabic-Regular.ttf"),
            ("hebrew", "/usr/share/fonts/truetype/noto/NotoSansHebrew-Regular.ttf"),
            ("devanagari", "/usr/share/fonts/truetype/noto/NotoSansDevanagari-Regular.ttf"),
            ("thai", "/usr/share/fonts/truetype/noto/NotoSansThai-Regular.ttf"),
            ("tamil", "/usr/share/fonts/truetype/noto/NotoSansTamil-Regular.ttf"),
            ("telugu", "/usr/share/fonts/truetype/noto/NotoSansTelugu-Regular.ttf"),
            ("kannada", "/usr/share/fonts/truetype/noto/NotoSansKannada-Regular.ttf"),
            ("malayalam", "/usr/share/fonts/truetype/noto/NotoSansMalayalam-Regular.ttf"),
            ("bengali", "/usr/share/fonts/truetype/noto/NotoSansBengali-Regular.ttf"),
            ("sinhala", "/usr/share/fonts/truetype/noto/NotoSansSinhala-Regular.ttf"),
            ("myanmar", "/usr/share/fonts/truetype/noto/NotoSansMyanmar-Regular.ttf"),
            ("khmer", "/usr/share/fonts/truetype/noto/NotoSansKhmer-Regular.ttf"),
            ("lao", "/usr/share/fonts/truetype/noto/NotoSansLao-Regular.ttf"),
            ("tibetan", "/usr/share/fonts/truetype/noto/NotoSansTibetan-Regular.ttf"),
            ("ethiopic", "/usr/share/fonts/truetype/noto/NotoSansEthiopic-Regular.ttf"),
            ("georgian", "/usr/share/fonts/truetype/noto/NotoSansGeorgian-Regular.ttf"),
            ("armenian", "/usr/share/fonts/truetype/noto/NotoSansArmenian-Regular.ttf"),
        ],
    };
    assert(font_texts(r@) =~= font_table(os));
    r
}

/// The keys of the fonts that were found, in the order of the table.
pub open spec fn found_keys(table: Seq<(Seq<char>, Seq<char>)>, found: Seq<bool>) -> Seq<Seq<char>>
    decreases table.len(),
{
    if table.len() == 0 {
        seq![]
    } else {
        let rest = found_keys(table.drop_last(), found);
        if found[table.len() - 1] {
            rest.push(table.last().0)
        } else {
            rest
        }
    }
}

/// The keys of a list of strings.
pub open spec fn key_texts(list: Seq<&'static str>) -> Seq<Seq<char>> {
    list.map_values(|s: &'static str| s@)
}

/// The keys of the fonts whose files were found, in the order in which they are
/// tried. `found` tells for each candidate whether its file was.
pub fn fallback_keys(os: Os, found: &Vec<bool>) -> (r: Vec<&'static str>)
    requires
        found@.len() == font_table(os).len(),
    ensures
        key_texts(r@) == found_keys(font_table(os), found@),
{
    let list: Vec<(&'static str, &'static str)> = font_candidates(os);
    let ghost table = font_table(os);
    let mut r: Vec<&'static str> = Vec::new();
    let mut i: usize = 0;
    assert(font_texts(list@).len() == list@.len());
    while i < list.len()
        invariant
            i <= list@.len() == found@.len(),
            table == font_texts(list@),
            key_texts(r@) == found_keys(table.take(i as int), found@),
        decreases list@.len() - i,
    {
        let ghost before = key_texts(r@);
        assert(table.take(i + 1).drop_last() =~= table.take(i as int));
        if found[i] {
            r.push(list[i].0);
            assert(key_texts(r@) =~= before.push(list@[i as int].0@));
        }
        i += 1;
    }
    assert(table.take(i as int) =~= table);
    r
}

/// How many of the first `n` files were found.
pub open spec fn found_before(found: Seq<bool>, n: int) -> int
    decreases n,
{
    if n <= 0 {
        0
    } else if found[n - 1] {
        found_before(found, n - 1) + 1
    } else {
        found_before(found, n - 1)
    }
}

/// Each font that was found has its key behind those of the fonts found before it in
/// the table, and no other has its key there.
pub proof fn lemma_found_keys(table: Seq<(Seq<char>, Seq<char>)>, found: Seq<bool>, i: int)
    requires
        0 <= i < table.len() == found.len(),
    ensures
        found_keys(table, found).len() == found_before(found, table.len() as int),
        found[i] ==> 0 <= found_before(found, i) < found_keys(table, found).len() && found_keys(
            table,
            found,
        )[found_before(found, i)] == table[i].0,
{
    lemma_found_keys_up_to(table, found, i);
}

proof fn lemma_found_keys_up_to(table: Seq<(Seq<char>, Seq<char>)>, found: Seq<bool>, i: int)
    requires
        table.len() <= found.len(),
    ensures
        found_keys(table, found).len() == found_before(found, table.len() as int),
        0 <= i < table.len() && found[i] ==> 0 <= found_before(found, i) < found_keys(
            table,
            found,
        ).len() && found_keys(table, found)[found_before(found, i)] == table[i].0,
    decreases table.len(),
{
    if table.len() > 0 {
        lemma_found_keys_up_to(table.drop_last(), found, i);
    }
}

} // verus!
