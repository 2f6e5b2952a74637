use cdg_player::disc::{
    choose_cdg, cue_reference, decide_7z_entry, decide_zip_entry, disc_kind, entry_data,
    first_cue, is_cue_file, is_disc_file, plan_7z_entry, rewrite_cue, rewrite_cue_line,
    sanitize_cue, sanitize_filename, sanitized_name, CdgChoice, DiscKind, EntryPlan, Extraction,
    ListedFile,
};

fn some(s: &str) -> Option<String> {
    Some(s.to_string())
}

#[test]
fn file_names_lose_non_ascii_stems() {
    assert_eq!(sanitize_filename("Béla.cdg"), "Bla.cdg");
    assert_eq!(sanitize_filename("Plain.cue"), "Plain.cue");
    assert_eq!(sanitize_filename("dir/Säge.bin"), "Sge.bin");
    assert_eq!(sanitize_filename("a.b.bin"), "a.b.bin");
    assert_eq!(sanitize_filename(".cue"), ".cue");
    assert_eq!(sanitize_filename("naïve"), "nave");
    assert_eq!(sanitize_filename("x.é"), "x.é");
    assert_eq!(sanitize_filename("end."), "end");
    assert_eq!(sanitize_filename("é.cue"), ".cue");
}

#[test]
fn no_file_name_keeps_the_whole_name() {
    assert_eq!(sanitize_filename("a/é/.."), "a//..");
    assert_eq!(sanitized_name("é/..", &None), "/..");
    assert_eq!(sanitized_name("ignored", &some("Ä1.x")), "1.x");
}

#[test]
fn sanitizing_keeps_the_extension() {
    let out = sanitize_filename("Ünïcode.CDG");
    assert_eq!(out, "ncode.CDG");
    assert_eq!(sanitize_filename(&out), out);
}

#[test]
fn cue_references() {
    assert_eq!(cue_reference("FILE \"a b.bin\" BINARY"), some("a b.bin"));
    assert_eq!(cue_reference("  file \"x\"y\" WAVE"), some("x\"y"));
    assert_eq!(cue_reference("FILE a.bin BINARY"), None);
    assert_eq!(cue_reference("FILE \"a.bin BINARY"), None);
    assert_eq!(cue_reference("  TITLE \"FILE\""), None);
    assert_eq!(cue_reference("FILE\"a\""), None);
}

#[test]
fn cue_line_rewritten() {
    let line = "  File \"Béla.bin\" BINARY ";
    let out = rewrite_cue_line(line, &some("Béla.bin"));
    assert_eq!(out, "  File \"Bla.bin\" BINARY ");
    assert_eq!(cue_reference(&out), some("Bla.bin"));
    assert_eq!(rewrite_cue_line("TRACK 01 é", &None), "TRACK 01 é");
}

#[test]
fn cue_sheet_rewritten() {
    let sheet = "FILE \"Béla.bin\" BINARY\r\n  TRACK 01 AUDIO\r\n    TITLE \"é\"\n";
    let out = sanitize_cue(sheet.as_bytes());
    assert_eq!(
        String::from_utf8(out).unwrap(),
        "FILE \"Bla.bin\" BINARY\n  TRACK 01 AUDIO\n    TITLE \"é\""
    );
    assert_eq!(sanitize_cue(&[]), Vec::<u8>::new());
    let lines = vec!["FILE \"é\" X".to_string(), "é".to_string()];
    assert_eq!(rewrite_cue(&lines, &vec![some("é"), None]), "FILE \"\" X\né");
}

#[test]
fn cue_sheet_in_another_encoding() {
    let out = sanitize_cue(b"FILE \"B\xE9la.bin\" BINARY");
    assert_eq!(out, b"FILE \"Bla.bin\" BINARY");
}

#[test]
fn cue_sheet_names_the_extracted_file() {
    let mut extraction = Extraction::new();
    let plan = extraction.plan_zip_entry("Disc é/Säge.BIN", true);
    let line = rewrite_cue_line("FILE \"Säge.BIN\" BINARY", &some("Säge.BIN"));
    match plan {
        EntryPlan::Extract { to, cue } => {
            assert_eq!(cue_reference(&line), Some(to));
            assert!(!cue);
        }
        other => panic!("{:?}", other),
    }
    match plan_7z_entry("Disc é/Säge.BIN", false) {
        EntryPlan::Extract { to, .. } => assert_eq!(cue_reference(&line), Some(to)),
        other => panic!("{:?}", other),
    }
}

#[test]
fn disc_files() {
    assert!(is_disc_file("A.CUE") && is_disc_file("b.bin") && is_disc_file("c.Cdg"));
    assert!(!is_disc_file("readme.txt") && !is_disc_file("cdg"));
    assert!(is_cue_file("x.Cue") && !is_cue_file("x.bin"));
}

#[test]
fn zip_entries() {
    let mut e = Extraction::new();
    assert_eq!(e.plan_zip_entry("notes.txt", false), EntryPlan::Skip);
    assert_eq!(
        e.plan_zip_entry("a.bin", false),
        EntryPlan::Refuse("CD+G Player supports uncompressed archives only.".to_string())
    );
    assert_eq!(
        e.plan_zip_entry("a/One.cue", true),
        EntryPlan::Extract { to: "One.cue".to_string(), cue: true }
    );
    assert_eq!(e.cue, some("One.cue"));
    e.plan_zip_entry("a/Two.CUE", true);
    e.plan_zip_entry("a/b.cdg", true);
    assert_eq!(e.finish(), Ok("Two.CUE".to_string()));
    assert_eq!(
        decide_zip_entry("x.bin", true, &None, &None),
        EntryPlan::Refuse("Bad entry name: x.bin".to_string())
    );
}

#[test]
fn archive_without_cue_is_refused() {
    let mut e = Extraction::new();
    e.plan_zip_entry("a.bin", true);
    assert_eq!(
        e.finish(),
        Err("CD+G Player requires a disc image to have a .cue.".to_string())
    );
}

#[test]
fn sevenz_entries() {
    assert_eq!(plan_7z_entry("dir.cue", true), EntryPlan::Skip);
    assert_eq!(plan_7z_entry("x.txt", false), EntryPlan::Skip);
    assert_eq!(
        plan_7z_entry("d/ä.b.Cue", false),
        EntryPlan::Extract { to: ".b.Cue".to_string(), cue: true }
    );
    assert_eq!(
        decide_7z_entry("n.bin", false, "ö.bin", &some("ö.bin")),
        EntryPlan::Extract { to: ".bin".to_string(), cue: false }
    );
}

#[test]
fn accents_in_either_form() {
    let composed = "Caf\u{e9}.bin";
    let spelled = "Cafe\u{301}.bin";
    assert_eq!(sanitize_filename(composed), "Caf.bin");
    assert_eq!(sanitize_filename(spelled), "Caf.bin");
    // Two marks, one of which is part of the composed letter.
    assert_eq!(sanitize_filename("\u{1eb9}\u{301}x.cue"), "x.cue");
    assert_eq!(sanitize_filename("e\u{323}\u{301}x.cue"), "x.cue");
    assert_eq!(sanitize_filename("a\u{308}bc\u{327}"), "b");
    // Signs have composed forms, too.
    assert_eq!(sanitize_filename("1=\u{338}2.bin"), "12.bin");
    assert_eq!(sanitize_filename("1\u{2260}2.bin"), "12.bin");
    let mut e = Extraction::new();
    let line = rewrite_cue_line(&format!("FILE \"{}\" BINARY", spelled), &some(spelled));
    match e.plan_zip_entry(&format!("Disc/{}", composed), true) {
        EntryPlan::Extract { to, .. } => assert_eq!(cue_reference(&line), Some(to)),
        other => panic!("{:?}", other),
    }
}

#[test]
fn letters_that_do_not_compose_stay() {
    assert_eq!(sanitize_filename("x\u{301}.bin"), "x.bin");
    assert_eq!(sanitize_filename("1\u{FE0F}\u{20E3}.bin"), "1.bin");
    assert_eq!(sanitize_filename("2\u{FE0F}\u{20E3}.bin"), "2.bin");
    // A mark of the same class comes first.
    assert_eq!(sanitize_filename("e\u{313}\u{301}.bin"), "e.bin");
}

#[test]
fn order_of_marks_does_not_matter() {
    assert_eq!(sanitize_filename("e\u{316}\u{301}x.bin"), "x.bin");
    assert_eq!(sanitize_filename("e\u{301}\u{316}x.bin"), "x.bin");
    assert_eq!(sanitize_filename("\u{e9}\u{316}x.bin"), "x.bin");
    // Both forms of a letter with two accents, of which it has one composed.
    assert_eq!(sanitize_filename("\u{1e69}y"), "y");
    assert_eq!(sanitize_filename("s\u{323}\u{307}y"), "y");
}

#[test]
fn names_without_composites_keep_their_ascii() {
    for name in ["Béla", "AC-DC (Live) #1", "日本a語b", "ß x Ø", "x\u{301}q\u{323}"] {
        let ascii: String = name.chars().filter(|c| c.is_ascii()).collect();
        assert_eq!(sanitize_filename(name), ascii);
    }
}

#[test]
fn colons_do_not_end_a_name() {
    assert_eq!(sanitize_filename("dir/AC: x.bin"), "AC: x.bin");
    assert_eq!(sanitize_filename("1: x.bin"), "1: x.bin");
    let mut e = Extraction::new();
    assert_eq!(
        e.plan_zip_entry("Disc: 1/disc.cue", true),
        EntryPlan::Extract { to: "disc.cue".to_string(), cue: true }
    );
}

#[test]
fn final_parts_of_paths() {
    assert_eq!(sanitize_filename("/x.bin"), "x.bin");
    assert_eq!(sanitize_filename("a/x.bin/"), "x.bin");
    assert_eq!(sanitize_filename("a/x.bin/./"), "x.bin");
    assert_eq!(sanitize_filename("a//x.bin"), "x.bin");
    assert_eq!(sanitize_filename("./."), "./.");
    assert_eq!(sanitize_filename("/"), "/");
    assert_eq!(sanitize_filename(""), "");
    assert_eq!(sanitize_filename("a/../."), "a/../.");
}

#[test]
fn folders_go_from_any_path() {
    // The last part is read with the backslash or split at it.
    let out = sanitize_filename("dir/x\\y.bin");
    assert!(out == "x\\y.bin" || out == "y.bin");
    let out = sanitize_filename("dir/C:x.bin");
    assert_eq!(out, "C:x.bin");
}

#[test]
fn extracted_data() {
    assert_eq!(entry_data(false, vec![0xFF, 0]), vec![0xFF, 0]);
    assert_eq!(entry_data(true, b"FILE \"\xC3\xA9.bin\"\n".to_vec()), b"FILE \".bin\"".to_vec());
}

#[test]
fn kinds_of_discs() {
    assert_eq!(disc_kind(&some("ZIP")), DiscKind::Zip);
    assert_eq!(disc_kind(&some("7z")), DiscKind::SevenZ);
    assert_eq!(disc_kind(&some("cue")), DiscKind::Cue);
    assert_eq!(disc_kind(&None), DiscKind::Cue);
}

#[test]
fn extracted_cue_is_found() {
    let names = |list: &[&str]| list.iter().map(|s| s.to_string()).collect::<Vec<_>>();
    assert_eq!(first_cue(&names(&["a.bin", "b.cue", "c.cue"])), Some(1));
    assert_eq!(first_cue(&names(&["a.CUE", ".cue", "cue"])), None);
}

#[test]
fn graphics_file_is_chosen() {
    let file = |e: &str, size: u64| ListedFile { extension: some(e), size };
    assert_eq!(choose_cdg(Some(10), &vec![]), CdgChoice::Named);
    assert_eq!(choose_cdg(Some(0), &vec![file("cdg", 5)]), CdgChoice::Missing);
    assert_eq!(choose_cdg(None, &vec![file("bin", 5), file("CDG", 5)]), CdgChoice::Listed(1));
    assert_eq!(choose_cdg(None, &vec![file("cdg", 0), file("cdg", 5)]), CdgChoice::Missing);
    assert_eq!(
        choose_cdg(None, &vec![ListedFile { extension: None, size: 1 }]),
        CdgChoice::Missing
    );
}
