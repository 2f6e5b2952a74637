//! What becomes of the paths, names and cue sheets of an archive, said of the
//! characters that they are made of.

use crate::disc::{
    cdg_file, cue_file, cue_line, cue_lines, disc_file, file_reference, final_part,
    final_part_with_drives, has_drive, is_piece, kept, kind_of, name_extension, name_stem,
    plain_path, possible_7z_plan, possible_again, possible_cue, possible_file_name, possible_names,
    possible_zip_plan, referenced, sanitized, seen_name, sevenz_plan, slashed, texts_of, zip_plan,
    DiscKind, ListedFile, PlannedEntry,
};
use crate::disc_laws::{
    lemma_final_part_again, lemma_reference_names_7z_file, lemma_reference_names_file,
    lemma_rewritten_reference, same_file,
};
use crate::text::{
    ends_with, first_index, joined, last_index, lemma_first_index, lemma_is_first_index,
    lemma_is_last_index, lemma_last_index, lines, lower, starts_with, trim, upper, without_return,
};
use crate::text_laws::{lemma_case, lemma_joined_lines_read_back};
use vstd::prelude::*;

verus! {

// ── Paths ───────────────────────────────────────────────────────────────────

/// A name that is neither empty nor `.` nor `..` is the final part of a path in which
/// it stands alone or behind a slash.
pub proof fn lemma_final_part_named(dir: Seq<char>, name: Seq<char>)
    requires
        name.len() > 0,
        !name.contains('/'),
        name != seq!['.'],
        name != seq!['.', '.'],
    ensures
        final_part(name) == Some(name),
        final_part(dir + seq!['/'] + name) == Some(name),
{
    let path = dir + seq!['/'] + name;
    let n = dir.len() as int;
    assert forall|i: int| 0 <= i < name.len() implies (#[trigger] name[i]) != '/' by {
        assert(name.contains(name[i]));
    }
    assert forall|i: int| n < i < path.len() implies (#[trigger] path[i]) != '/' by {
        assert(path[i] == name[i - n - 1]);
    }
    lemma_is_last_index(name, '/', -1);
    lemma_is_last_index(path, '/', n);
    assert(name.skip(0) =~= name);
    assert(path.skip(n + 1) =~= name);
}

/// A path that ends in `..` has no final part.
pub proof fn lemma_final_part_of_parent(dir: Seq<char>)
    ensures
        final_part(seq!['.', '.']) is None,
        final_part(dir + seq!['/', '.', '.']) is None,
{
    let path = dir + seq!['/', '.', '.'];
    lemma_is_last_index(seq!['.', '.'], '/', -1);
    lemma_is_last_index(path, '/', dir.len() as int);
    assert(seq!['.', '.'].skip(0) =~= seq!['.', '.']);
    assert(path.skip(dir.len() as int + 1) =~= seq!['.', '.']);
}

/// A slash at the end of a path does not matter, nor a `.` behind it. An empty path
/// and `.` have no final part.
pub proof fn lemma_final_part_skips(path: Seq<char>)
    ensures
        final_part(path + seq!['/']) == final_part(path),
        final_part(path + seq!['/', '.']) == final_part(path),
        final_part(seq![]) is None,
        final_part(seq!['.']) is None,
{
    let a = path + seq!['/'];
    let b = path + seq!['/', '.'];
    let n = path.len() as int;
    lemma_is_last_index(a, '/', n);
    lemma_is_last_index(b, '/', n);
    assert(a.skip(n + 1) =~= seq![]);
    assert(b.skip(n + 1) =~= seq!['.']);
    assert(a.take(n) =~= path);
    assert(b.take(n) =~= path);
    lemma_is_last_index(seq!['.'], '/', -1);
    assert(seq!['.'].skip(0) =~= seq!['.']);
}

/// Where backslashes separate parts too, a name behind one is the final part of a path,
/// and a drive letter in front has no part in it.
pub proof fn lemma_final_part_with_backslashes(dir: Seq<char>, name: Seq<char>, drive: char)
    requires
        name.len() > 0,
        !name.contains('/'),
        !name.contains('\\'),
        name != seq!['.'],
        name != seq!['.', '.'],
        'a' <= drive <= 'z' || 'A' <= drive <= 'Z',
    ensures
        !has_drive(dir + seq!['\\'] + name) ==> final_part_with_drives(
            dir + seq!['\\'] + name,
        ) == Some(name),
        final_part_with_drives(seq![drive, ':'] + (dir + seq!['\\'] + name)) == Some(name),
        final_part_with_drives(seq![drive, ':'] + name) == Some(name),
{
    let path = dir + seq!['\\'] + name;
    assert forall|i: int| 0 <= i < name.len() implies (#[trigger] name[i]) != '\\' by {
        assert(name.contains(name[i]));
    }
    assert(slashed(name) =~= name);
    assert(slashed(path) =~= slashed(dir) + seq!['/'] + name);
    lemma_final_part_named(slashed(dir), name);
    assert((seq![drive, ':'] + path).skip(2) =~= path);
    assert((seq![drive, ':'] + name).skip(2) =~= name);
}

/// The extension of a file name is what stands behind its last dot, and its stem what
/// stands before. A name whose only dot is its first character, or that has none, is
/// all stem.
pub proof fn lemma_name_split(stem: Seq<char>, ext: Seq<char>)
    requires
        !ext.contains('.'),
    ensures
        stem.len() > 0 ==> name_stem(stem + seq!['.'] + ext) == stem,
        stem.len() > 0 ==> name_extension(stem + seq!['.'] + ext) == ext,
        name_stem(seq!['.'] + ext) == seq!['.'] + ext,
        name_extension(seq!['.'] + ext).len() == 0,
        name_stem(ext) == ext,
        name_extension(ext).len() == 0,
{
    let name = stem + seq!['.'] + ext;
    let hidden = seq!['.'] + ext;
    let n = stem.len() as int;
    assert forall|i: int| 0 <= i < ext.len() implies (#[trigger] ext[i]) != '.' by {
        assert(ext.contains(ext[i]));
    }
    assert forall|i: int| n < i < name.len() implies (#[trigger] name[i]) != '.' by {
        assert(name[i] == ext[i - n - 1]);
    }
    assert forall|i: int| 0 < i < hidden.len() implies (#[trigger] hidden[i]) != '.' by {
        assert(hidden[i] == ext[i - 1]);
    }
    lemma_is_last_index(name, '.', n);
    lemma_is_last_index(hidden, '.', 0);
    lemma_is_last_index(ext, '.', -1);
    assert(name.take(n) =~= stem);
    assert(name.skip(n + 1) =~= ext);
}

/// A sanitized name is made of characters of the name that the platform sees, of
/// the dot before its extension, and of nothing else.
pub proof fn lemma_sanitized_characters(name: Seq<char>, f: Option<Seq<char>>, i: int)
    requires
        possible_file_name(name, f),
        0 <= i < sanitized(name, f).len(),
    ensures
        name.contains(sanitized(name, f)[i]) || sanitized(name, f)[i] == '.',
{
    reveal_strlit(".");
    let out = sanitized(name, f);
    match f {
        Some(g) => {
            let stem = name_stem(g);
            let ext = name_extension(g);
            lemma_last_index(g, '.');
            lemma_kept_characters(stem);
            let c = out[i];
            if i < kept(stem).len() {
                assert(out[i] == kept(stem)[i]);
                assert(stem.contains(c));
                let j = choose|j: int| 0 <= j < stem.len() && stem[j] == c;
                assert(g[j] == c);
                lemma_piece_characters(name, g, j);
            } else if i > kept(stem).len() {
                let j = i - kept(stem).len() - 1;
                assert(c == ext[j]);
                assert(c == g[last_index(g, '.') + 1 + j]);
                lemma_piece_characters(name, g, last_index(g, '.') + 1 + j);
            }
        },
        None => {
            lemma_kept_characters(name);
            assert(name.contains(kept(name)[i]));
        },
    }
}

proof fn lemma_piece_characters(s: Seq<char>, f: Seq<char>, i: int)
    requires
        is_piece(s, f),
        0 <= i < f.len(),
    ensures
        s.contains(f[i]),
{
    let (a, b) = choose|a: int, b: int|
        0 <= a <= b <= s.len() && f == #[trigger] s.subrange(a, b);
    assert(f[i] == s[a + i]);
}

proof fn lemma_kept_characters(s: Seq<char>)
    ensures
        forall|i: int| 0 <= i < kept(s).len() ==> s.contains(#[trigger] kept(s)[i]),
    decreases s.len(),
{
    if s.len() > 0 {
        let rest = s.drop_first();
        lemma_kept_characters(rest);
        assert forall|i: int| 0 <= i < kept(s).len() implies s.contains(#[trigger] kept(s)[i]) by {
            let c = kept(s)[i];
            let first = kept(s) == seq![s[0]] + kept(rest);
            if first && i == 0 {
                assert(s[0] == c);
            } else {
                let j = if first {
                    i - 1
                } else {
                    i
                };
                assert(c == kept(rest)[j]);
                assert(rest.contains(c));
                let m = choose|m: int| 0 <= m < rest.len() && rest[m] == c;
                assert(s[m + 1] == c);
            }
        }
    }
}

/// Without a file name, a name is sanitized as a whole.
pub proof fn lemma_nameless_sanitized(name: Seq<char>)
    ensures
        sanitized(name, None) == kept(name),
{
}

// ── Cue sheets ──────────────────────────────────────────────────────────────

/// Whether a line, without the white space around it, begins with the word `FILE` in
/// whatever case and a space.
pub open spec fn file_line(line: Seq<char>) -> bool {
    let t = trim(line);
    &&& t.len() >= 5
    &&& t[0] == 'F' || t[0] == 'f'
    &&& t[1] == 'I' || t[1] == 'i'
    &&& t[2] == 'L' || t[2] == 'l'
    &&& t[3] == 'E' || t[3] == 'e'
    &&& t[4] == ' '
}

/// Whether a text holds two double quotes.
pub open spec fn holds_two_quotes(line: Seq<char>) -> bool {
    exists|i: int, j: int|
        0 <= i < j < line.len() && #[trigger] line[i] == '"' && #[trigger] line[j] == '"'
}

proof fn lemma_file_word(t: Seq<char>)
    ensures
        starts_with(upper(t), "FILE "@) <==> {
            &&& t.len() >= 5
            &&& t[0] == 'F' || t[0] == 'f'
            &&& t[1] == 'I' || t[1] == 'i'
            &&& t[2] == 'L' || t[2] == 'l'
            &&& t[3] == 'E' || t[3] == 'e'
            &&& t[4] == ' '
        },
{
    reveal_strlit("FILE ");
    let w = "FILE "@;
    let u = upper(t);
    if t.len() >= 5 {
        let start = u.subrange(0, 5);
        lemma_case(t, 0);
        lemma_case(t, 1);
        lemma_case(t, 2);
        lemma_case(t, 3);
        lemma_case(t, 4);
        assert(start[0] == u[0] && start[1] == u[1] && start[2] == u[2] && start[3] == u[3]
            && start[4] == u[4]);
        assert(start =~= w <==> {
            &&& u[0] == 'F' && u[1] == 'I' && u[2] == 'L' && u[3] == 'E' && u[4] == ' '
        });
    }
}

/// A line of a cue sheet refers to a file exactly if it is a `FILE` line with two
/// double quotes. What it refers to stands between the first and the last of them.
pub proof fn lemma_reference(line: Seq<char>)
    ensures
        referenced(line) is Some <==> file_line(line) && holds_two_quotes(line),
        referenced(line) matches Some(name) ==> exists|a: Seq<char>, b: Seq<char>|
            !a.contains('"') && !b.contains('"') && line == #[trigger] quoted(a, name, b),
{
    lemma_file_word(trim(line));
    lemma_first_index(line, '"');
    lemma_last_index(line, '"');
    let open = first_index(line, '"') as int;
    let close = last_index(line, '"');
    if holds_two_quotes(line) {
        let (i, j) = choose|i: int, j: int|
            0 <= i < j < line.len() && #[trigger] line[i] == '"' && #[trigger] line[j] == '"';
        assert(open <= i && j <= close);
    }
    if open < close {
        assert(line[open] == '"' && line[close] == '"');
        assert(holds_two_quotes(line));
    }
    if let Some(name) = referenced(line) {
        let a = line.take(open);
        let b = line.skip(close + 1);
        assert(!a.contains('"'));
        assert forall|i: int| 0 <= i < b.len() implies (#[trigger] b[i]) != '"' by {
            assert(b[i] == line[close + 1 + i]);
        }
        assert(line =~= quoted(a, name, b));
    }
}

/// A text in double quotes, with what stands around it.
pub open spec fn quoted(before: Seq<char>, text: Seq<char>, after: Seq<char>) -> Seq<char> {
    before + seq!['"'] + text + seq!['"'] + after
}

/// Rewriting a line replaces the file name between its quotes by the sanitized name,
/// and keeps all around it. A line that refers to no file is unchanged.
pub proof fn lemma_line_rewritten(
    a: Seq<char>,
    name: Seq<char>,
    b: Seq<char>,
    other: Seq<char>,
    f: Option<Seq<char>>,
)
    requires
        !a.contains('"'),
        !b.contains('"'),
    ensures
        file_line(quoted(a, name, b)) ==> referenced(quoted(a, name, b)) == Some(name),
        file_line(quoted(a, name, b)) ==> cue_line(quoted(a, name, b), f) == quoted(
            a,
            sanitized(name, f),
            b,
        ),
        referenced(other) is None ==> cue_line(other, f) == other,
{
    let line = quoted(a, name, b);
    let open = a.len() as int;
    let close = open + 1 + name.len();
    assert forall|i: int| 0 <= i < open implies line[i] != '"' by {
        assert(a.contains(a[i]));
    }
    assert forall|i: int| close < i < line.len() implies line[i] != '"' by {
        assert(line[i] == b[i - close - 1]);
        assert(b.contains(b[i - close - 1]));
    }
    lemma_is_first_index(line, '"', open);
    lemma_is_last_index(line, '"', close);
    lemma_file_word(trim(line));
    assert(line.subrange(open + 1, close) =~= name);
    if file_line(line) {
        assert(cue_line(line, f) =~= quoted(a, sanitized(name, f), b));
    }
}

/// Whether `outs` are the lines `list` of a cue sheet with every reference sanitized:
/// as many lines, a line without a reference unchanged, and a line with one referring
/// to a sanitized name of that file, which is fixed if every platform reads it alike.
pub open spec fn sheet_matches(list: Seq<Seq<char>>, outs: Seq<Seq<char>>) -> bool {
    &&& outs.len() == list.len()
    &&& forall|k: int| 0 <= k < list.len() ==> line_matches(list[k], #[trigger] outs[k])
}

/// Whether `out` is a line of a cue sheet with its reference sanitized.
pub open spec fn line_matches(line: Seq<char>, out: Seq<char>) -> bool {
    match referenced(line) {
        None => out == line,
        Some(name) => {
            &&& exists|f: Option<Seq<char>>| #[trigger]
                possible_file_name(name, f) && referenced(out) == Some(sanitized(name, f))
            &&& plain_path(name) ==> referenced(out) == Some(sanitized(name, final_part(name)))
        },
    }
}

/// Every line of a cue sheet is rewritten on its own, whichever line it is.
pub proof fn lemma_sheet_rewritten(list: Seq<Seq<char>>, names: Seq<Option<Seq<char>>>)
    requires
        possible_names(list, names),
    ensures
        sheet_matches(list, cue_lines(list, names)),
{
    let outs = cue_lines(list, names);
    assert forall|k: int| 0 <= k < list.len() implies line_matches(list[k], #[trigger] outs[k]) by {
        if referenced(list[k]) is Some {
            let name = referenced(list[k])->Some_0;
            lemma_rewritten_reference(list[k], names[k]);
            assert(possible_file_name(name, names[k]));
        }
    }
}

/// The names that belong to the lines stand in the order of the lines.
pub proof fn lemma_names_in_order(names: Seq<Option<String>>, k: int)
    requires
        0 <= k < names.len(),
    ensures
        texts_of(names).len() == names.len(),
        names[k] is None ==> texts_of(names)[k] is None,
        names[k] matches Some(name) ==> texts_of(names)[k] == Some(name@),
{
}

/// Line `k` of a rewritten sheet, given the final component of the name that it refers
/// to: it is unchanged without a reference, and with one it refers to the sanitized
/// name.
pub proof fn lemma_each_line_rewritten(
    list: Seq<Seq<char>>,
    names: Seq<Option<Seq<char>>>,
    k: int,
)
    requires
        0 <= k < list.len(),
    ensures
        cue_lines(list, names).len() == list.len(),
        referenced(list[k]) is None ==> cue_lines(list, names)[k] == list[k],
        referenced(list[k]) matches Some(name) ==> referenced(cue_lines(list, names)[k]) == Some(
            sanitized(name, names[k]),
        ),
{
    if referenced(list[k]) is Some {
        lemma_rewritten_reference(list[k], names[k]);
    }
}

/// A sanitized cue sheet has the lines of the sheet, each with its reference
/// sanitized, joined with line feeds.
pub proof fn lemma_sheet_sanitized(text: Seq<char>, out: Seq<char>)
    requires
        possible_cue(text, out),
    ensures
        exists|outs: Seq<Seq<char>>| #[trigger]
            sheet_matches(lines(text), outs) && out == joined(outs, seq!['\n']),
{
    reveal_strlit("\n");
    assert("\n"@ =~= seq!['\n']);
    let names = choose|names: Seq<Option<Seq<char>>>| #[trigger]
        possible_names(lines(text), names) && out == joined(cue_lines(lines(text), names), "\n"@);
    lemma_sheet_rewritten(lines(text), names);
}

/// No line of a text has a line feed in it.
proof fn lemma_lines_have_no_feed(s: Seq<char>)
    ensures
        forall|k: int| 0 <= k < lines(s).len() ==> !(#[trigger] lines(s)[k]).contains('\n'),
    decreases s.len(),
{
    lemma_first_index(s, '\n');
    let n = first_index(s, '\n') as int;
    if s.len() > 0 {
        if n >= s.len() {
            assert(lines(s) =~= seq![s]);
        } else {
            let first = without_return(s.take(n));
            let rest = s.skip(n + 1);
            lemma_lines_have_no_feed(rest);
            assert forall|k: int| 0 <= k < lines(s).len() implies !(#[trigger] lines(
                s,
            )[k]).contains('\n') by {
                if k == 0 {
                    assert(lines(s)[0] == first);
                    assert forall|i: int| 0 <= i < first.len() implies first[i] != '\n' by {
                        assert(first[i] == s[i]);
                    }
                } else {
                    assert(lines(s)[k] == lines(rest)[k - 1]);
                }
            }
        }
    }
}

/// A rewritten line brings in no character that a name does not hold, but for dots.
proof fn lemma_rewritten_characters(line: Seq<char>, f: Option<Seq<char>>, c: char)
    requires
        referenced(line) matches Some(name) ==> possible_file_name(name, f),
        c != '.',
        !line.contains(c),
    ensures
        !cue_line(line, f).contains(c),
{
    if referenced(line) is Some {
        let name = referenced(line)->Some_0;
        let (open, close) = file_reference(line)->Some_0;
        lemma_first_index(line, '"');
        lemma_last_index(line, '"');
        let out = cue_line(line, f);
        let clean = sanitized(name, f);
        if out.contains(c) {
            let i = choose|i: int| 0 <= i < out.len() && out[i] == c;
            if i <= open {
                assert(line.contains(line[i]));
            } else if i <= open + clean.len() {
                let j = i - open - 1;
                assert(clean[j] == c);
                lemma_sanitized_characters(name, f, j);
                let m = choose|m: int| 0 <= m < name.len() && name[m] == c;
                assert(line[open + 1 + m] == c);
            } else {
                let m = i - open - 1 - clean.len() + close;
                assert(line[m] == c);
            }
        }
    }
}

/// A sanitized cue sheet is read back line for line: it has as many lines as the
/// sheet, and each is that line with its reference sanitized. The sheet has a last
/// line that is not empty, and no carriage returns within its lines.
pub proof fn lemma_sheet_read_back(text: Seq<char>, out: Seq<char>)
    requires
        possible_cue(text, out),
        lines(text).len() > 0,
        lines(text).last().len() > 0,
        forall|k: int| 0 <= k < lines(text).len() ==> !(#[trigger] lines(text)[k]).contains('\r'),
    ensures
        sheet_matches(lines(text), lines(out)),
{
    reveal_strlit("\n");
    assert("\n"@ =~= seq!['\n']);
    let list = lines(text);
    let names = choose|names: Seq<Option<Seq<char>>>| #[trigger]
        possible_names(lines(text), names) && out == joined(cue_lines(lines(text), names), "\n"@);
    let outs = cue_lines(list, names);
    lemma_sheet_rewritten(list, names);
    lemma_lines_have_no_feed(text);
    assert forall|k: int| 0 <= k < outs.len() implies !(#[trigger] outs[k]).contains('\n') && !(
    outs[k].len() > 0 && outs[k].last() == '\r') by {
        assert(referenced(list[k]) is Some || referenced(list[k]) is None);
        lemma_rewritten_characters(list[k], names[k], '\n');
        lemma_rewritten_characters(list[k], names[k], '\r');
        if outs[k].len() > 0 && outs[k].last() == '\r' {
            assert(outs[k].contains(outs[k].last()));
        }
    }
    let last = list.len() - 1;
    assert(outs.last() == cue_line(list[last], names[last]));
    assert(outs.last().len() > 0) by {
        if referenced(list[last]) is Some {
            lemma_first_index(list[last], '"');
            lemma_last_index(list[last], '"');
        }
    }
    lemma_joined_lines_read_back(outs);
}

/// Every line of a sheet that named an entry of a ZIP archive refers, in the sanitized
/// sheet, to the file that the entry is extracted to, whichever line it is.
pub proof fn lemma_every_reference_names_file(
    list: Seq<Seq<char>>,
    outs: Seq<Seq<char>>,
    k: int,
    entry: Seq<char>,
    plan: PlannedEntry,
)
    requires
        sheet_matches(list, outs),
        0 <= k < list.len(),
        referenced(list[k]) matches Some(name) && plain_path(name) && final_part(name) is Some
            && final_part(entry) is Some && same_file(
            final_part(name)->Some_0,
            final_part(entry)->Some_0,
        ),
        plain_path(entry),
        !has_drive(final_part(entry)->Some_0),
        disc_file(entry),
        possible_zip_plan(entry, true, plan),
    ensures
        plan matches PlannedEntry::Extract(to, _) && referenced(outs[k]) == Some(to),
{
    let name = referenced(list[k])->Some_0;
    let f = final_part(name);
    assert(line_matches(list[k], outs[k]));
    let g = choose|g: Option<Seq<char>>| #[trigger]
        possible_file_name(name, g) && referenced(outs[k]) == Some(sanitized(name, g));
    assert(g == f);
    lemma_reference_names_file(list[k], name, entry, f, plan);
    lemma_rewritten_reference(list[k], f);
}

/// So does every line of a sheet that named an entry of a 7z archive.
pub proof fn lemma_every_reference_names_7z_file(
    list: Seq<Seq<char>>,
    outs: Seq<Seq<char>>,
    k: int,
    entry: Seq<char>,
    plan: PlannedEntry,
)
    requires
        sheet_matches(list, outs),
        0 <= k < list.len(),
        referenced(list[k]) matches Some(name) && plain_path(name) && final_part(name) is Some
            && final_part(entry) is Some && same_file(
            final_part(name)->Some_0,
            final_part(entry)->Some_0,
        ),
        plain_path(entry),
        !has_drive(final_part(entry)->Some_0),
        disc_file(entry),
        possible_7z_plan(entry, false, plan),
    ensures
        plan matches PlannedEntry::Extract(to, _) && referenced(outs[k]) == Some(to),
{
    let name = referenced(list[k])->Some_0;
    let f = final_part(name);
    assert(line_matches(list[k], outs[k]));
    let g = choose|g: Option<Seq<char>>| #[trigger]
        possible_file_name(name, g) && referenced(outs[k]) == Some(sanitized(name, g));
    assert(g == f);
    lemma_reference_names_7z_file(list[k], name, entry, f, plan);
    lemma_rewritten_reference(list[k], f);
}

// ── Entries ─────────────────────────────────────────────────────────────────

/// Whether a character is an ASCII letter, given in lower case, in either case.
pub open spec fn either_case(c: char, lower_case: char) -> bool {
    c == lower_case || c as u32 + 32 == lower_case as u32
}

/// Whether a name ends with a dot and three letters, in either case.
pub open spec fn ends_dotted(name: Seq<char>, a: char, b: char, c: char) -> bool {
    let n = name.len();
    &&& n >= 4 && name[n - 4] == '.'
    &&& either_case(name[n - 3], a) && either_case(name[n - 2], b) && either_case(name[n - 1], c)
}

proof fn lemma_lower_is(s: Seq<char>, i: int, l: char)
    requires
        0 <= i < s.len(),
        97 <= l as u32 <= 122,
    ensures
        lower(s)[i] == l <==> either_case(s[i], l),
        lower(s)[i] == '.' <==> s[i] == '.',
        lower(s)[i] == '7' <==> s[i] == '7',
{
    lemma_case(s, i);
}

proof fn lemma_ends_dotted(name: Seq<char>, word: Seq<char>, a: char, b: char, c: char)
    requires
        word == seq!['.', a, b, c],
        97 <= a as u32 <= 122,
        97 <= b as u32 <= 122,
        97 <= c as u32 <= 122,
    ensures
        ends_with(lower(name), word) <==> ends_dotted(name, a, b, c),
{
    let n = name.len() as int;
    let l = lower(name);
    if n >= 4 {
        lemma_lower_is(name, n - 4, a);
        lemma_lower_is(name, n - 3, a);
        lemma_lower_is(name, n - 2, b);
        lemma_lower_is(name, n - 1, c);
        let end = l.subrange(n - 4, n);
        assert(end[0] == l[n - 4] && end[1] == l[n - 3] && end[2] == l[n - 2] && end[3] == l[n
            - 1]);
        assert(end =~= word <==> l[n - 4] == '.' && l[n - 3] == a && l[n - 2] == b && l[n - 1]
            == c);
    }
}

/// A file belongs to a disc image if its name ends with `.cue`, `.bin` or `.cdg`, in
/// either case; it is a cue sheet if it ends with the first.
pub proof fn lemma_disc_file_names(name: Seq<char>)
    ensures
        cue_file(name) <==> ends_dotted(name, 'c', 'u', 'e'),
        disc_file(name) <==> ends_dotted(name, 'c', 'u', 'e') || ends_dotted(name, 'b', 'i', 'n')
            || ends_dotted(name, 'c', 'd', 'g'),
{
    reveal_strlit(".cue");
    reveal_strlit(".bin");
    reveal_strlit(".cdg");
    assert(".cue"@ =~= seq!['.', 'c', 'u', 'e']);
    assert(".bin"@ =~= seq!['.', 'b', 'i', 'n']);
    assert(".cdg"@ =~= seq!['.', 'c', 'd', 'g']);
    lemma_ends_dotted(name, ".cue"@, 'c', 'u', 'e');
    lemma_ends_dotted(name, ".bin"@, 'b', 'i', 'n');
    lemma_ends_dotted(name, ".cdg"@, 'c', 'd', 'g');
}

/// What becomes of an entry of a ZIP archive: one that does not belong to a disc image
/// is passed over, a compressed one refused, and any other is extracted under the
/// sanitized name of its final part, without the directories before it. Where a
/// plain path has no final part, the archive is refused, with the path in the message.
pub proof fn lemma_zip_entries(name: Seq<char>, stored: bool, plan: PlannedEntry)
    requires
        possible_zip_plan(name, stored, plan),
    ensures
        plan is Skip <==> !disc_file(name),
        disc_file(name) && !stored ==> plan is Refuse,
        disc_file(name) && stored && plain_path(name) ==> match final_part(name) {
            None => plan matches PlannedEntry::Refuse(message) && ends_with(message, name),
            Some(f) => !has_drive(f) ==> plan == PlannedEntry::Extract(
                sanitized(f, Some(f)),
                cue_file(name),
            ),
        },
        plan matches PlannedEntry::Extract(_, cue) ==> cue == cue_file(name) && stored,
{
    let (f, g) = choose|f: Option<Seq<char>>, g: Option<Seq<char>>| #[trigger]
        possible_file_name(name, f) && #[trigger] possible_again(f, g) && plan == zip_plan(
            name,
            stored,
            f,
            g,
        );
    if plain_path(name) && final_part(name) is Some && !has_drive(final_part(name)->Some_0) {
        lemma_final_part_again(name);
        assert(f == final_part(name));
        assert(g == final_part(name));
    }
    if plan is Refuse && stored {
        let message = "Bad entry name: "@ + name;
        assert(message.subrange(message.len() - name.len(), message.len() as int) =~= name);
    }
}

/// What becomes of an entry of a 7z archive: a directory, and what does not belong to
/// a disc image, is passed over, and any other entry is extracted under the sanitized
/// name of its final part. None is refused.
pub proof fn lemma_7z_entries(name: Seq<char>, directory: bool, plan: PlannedEntry)
    requires
        possible_7z_plan(name, directory, plan),
    ensures
        plan is Skip <==> directory || !disc_file(name),
        !(plan is Refuse),
        plan matches PlannedEntry::Extract(_, cue) ==> cue == cue_file(name),
        !directory && disc_file(name) && plain_path(name) ==> match final_part(name) {
            None => plan == PlannedEntry::Extract(sanitized(name, None), cue_file(name)),
            Some(f) => !has_drive(f) ==> plan == PlannedEntry::Extract(
                sanitized(f, Some(f)),
                cue_file(name),
            ),
        },
{
    let (f, g) = choose|f: Option<Seq<char>>, g: Option<Seq<char>>| #[trigger]
        possible_file_name(name, f) && #[trigger] possible_file_name(
            seen_name(f, name),
            g,
        ) && plan == sevenz_plan(name, directory, seen_name(f, name), g);
    if plain_path(name) && final_part(name) is Some && !has_drive(final_part(name)->Some_0) {
        lemma_final_part_again(name);
        assert(f == final_part(name));
        assert(g == final_part(name));
    }
}

/// A disc is opened as a ZIP archive if the extension of its file is `zip`, as a 7z
/// archive if it is `7z`, in either case, and as a cue sheet otherwise.
pub proof fn lemma_kinds_of_discs(e: Seq<char>)
    ensures
        kind_of(None) == DiscKind::Cue,
        kind_of(Some(e)) == DiscKind::Zip <==> e.len() == 3 && either_case(e[0], 'z')
            && either_case(e[1], 'i') && either_case(e[2], 'p'),
        kind_of(Some(e)) == DiscKind::SevenZ <==> e.len() == 2 && e[0] == '7' && either_case(
            e[1],
            'z',
        ),
{
    reveal_strlit("zip");
    reveal_strlit("7z");
    let l = lower(e);
    if e.len() == 3 {
        lemma_lower_is(e, 0, 'z');
        lemma_lower_is(e, 1, 'i');
        lemma_lower_is(e, 2, 'p');
        assert(l =~= "zip"@ <==> l[0] == 'z' && l[1] == 'i' && l[2] == 'p');
    }
    if e.len() == 2 {
        lemma_lower_is(e, 0, 'z');
        lemma_lower_is(e, 1, 'z');
        assert(l =~= "7z"@ <==> l[0] == '7' && l[1] == 'z');
    }
    assert(l.len() == e.len());
}

/// A file has graphics if its extension is `cdg`, in either case.
pub proof fn lemma_cdg_extension(file: ListedFile)
    ensures
        cdg_file(file) <==> (file.extension matches Some(e) && e@.len() == 3
            && either_case(e@[0], 'c') && either_case(e@[1], 'd') && either_case(e@[2], 'g')),
{
    reveal_strlit("cdg");
    if let Some(e) = file.extension {
        let l = lower(e@);
        assert(l.len() == e@.len());
        if e@.len() == 3 {
            lemma_lower_is(e@, 0, 'c');
            lemma_lower_is(e@, 1, 'd');
            lemma_lower_is(e@, 2, 'g');
            assert(l =~= "cdg"@ <==> l[0] == 'c' && l[1] == 'd' && l[2] == 'g');
        }
    }
}

} // verus!
