//! Disc images: which files of an archive are taken, what they are called on
//! disk, and how the cue sheet is made to refer to them.

use crate::marks::{composes_behind, composes_in};
use crate::text::{
    chars_of, decode_lossy, ends_with, find_char, find_last_char, first_index, has_end, holds_at,
    join, joined, last_index, lemma_last_index, lines, lines_of, lossy_text, lower, starts_with,
    string_of, texts, to_lower, to_upper, trim, trim_range, upper,
};
use vstd::prelude::*;
use vstd::utf8::{decode_utf8, encode_utf8, valid_utf8};

verus! {

// ── File names ──────────────────────────────────────────────────────────────

/// What stands behind the last slash of a path.
pub open spec fn last_segment(path: Seq<char>) -> Seq<char> {
    path.skip(last_index(path, '/') + 1)
}

/// The last part of a path that is neither empty nor `.`; `None` if there is no
/// such part, or if it is `..`. Parts are separated by slashes.
pub open spec fn final_part(path: Seq<char>) -> Option<Seq<char>>
    decreases path.len(),
{
    let slash = last_index(path, '/');
    let part = last_segment(path);
    if part.len() == 0 || part == seq!['.'] {
        if 0 <= slash < path.len() {
            final_part(path.take(slash))
        } else {
            None
        }
    } else if part == seq!['.', '.'] {
        None
    } else {
        Some(part)
    }
}

/// Whether a path begins with a drive letter and a colon.
pub open spec fn has_drive(path: Seq<char>) -> bool {
    &&& path.len() > 1 && path[1] == ':'
    &&& 'a' <= path[0] <= 'z' || 'A' <= path[0] <= 'Z'
}

/// A path that every platform reads alike: without backslashes, without two slashes
/// at the start, and without a drive letter.
pub open spec fn plain_path(path: Seq<char>) -> bool {
    &&& !path.contains('\\')
    &&& !(path.len() > 1 && path[0] == '/' && path[1] == '/')
    &&& !has_drive(path)
}

/// Whether a character separates the parts of a path on some platform.
pub open spec fn separator(c: char) -> bool {
    c == '/' || c == '\\'
}

/// Whether a path begins with two separators.
pub open spec fn double_start(path: Seq<char>) -> bool {
    path.len() > 1 && separator(path[0]) && separator(path[1])
}

/// A path with slashes for backslashes.
pub open spec fn slashed(path: Seq<char>) -> Seq<char> {
    path.map_values(
        |c: char|
            if c == '\\' {
                '/'
            } else {
                c
            },
    )
}

/// The final part of a path where a backslash separates parts, too, and a drive
/// letter in front is no part.
pub open spec fn final_part_with_drives(path: Seq<char>) -> Option<Seq<char>> {
    if has_drive(path) {
        final_part(slashed(path.skip(2)))
    } else {
        final_part(slashed(path))
    }
}

/// Whether `f` is a piece of `s`.
pub open spec fn is_piece(s: Seq<char>, f: Seq<char>) -> bool {
    exists|a: int, b: int| 0 <= a <= b <= s.len() && f == #[trigger] s.subrange(a, b)
}

/// What holds on every platform of the file name of a path.
pub open spec fn possible_file_name(path: Seq<char>, f: Option<Seq<char>>) -> bool {
    &&& plain_path(path) ==> f == final_part(path)
    &&& !double_start(path) ==> f == final_part(path) || f == final_part_with_drives(path)
    &&& f matches Some(name) ==> name.len() > 0 && name != seq!['.', '.'] && is_piece(path, name)
}

/// The text of a string, if there is one.
pub open spec fn text_of(s: Option<String>) -> Option<Seq<char>> {
    match s {
        Some(t) => Some(t@),
        None => None,
    }
}

/// Takes the final component of a path with `Path::file_name`. It is the last part
/// that is neither empty nor `.`; there is none if that part is `..` or there is no
/// such part. Parts are separated by slashes; on some platforms also by backslashes,
/// and a drive letter in front is no part there. On a plain path the two agree. Of a
/// path with two separators at the start, which may name a share or a device, it is
/// only said that a name is a non-empty piece of it other than `..`.
#[verifier::external_body]
pub(crate) fn path_file_name(path: &str) -> (r: Option<String>)
    ensures
        possible_file_name(path@, text_of(r)),
{
    std::path::Path::new(path).file_name().and_then(|s| s.to_str()).map(|s| s.to_string())
}

/// A file name without its extension. A dot at the very start begins no
/// extension.
pub open spec fn name_stem(name: Seq<char>) -> Seq<char> {
    if last_index(name, '.') <= 0 {
        name
    } else {
        name.take(last_index(name, '.'))
    }
}

/// The extension of a file name; empty if it has none.
pub open spec fn name_extension(name: Seq<char>) -> Seq<char> {
    if last_index(name, '.') <= 0 {
        seq![]
    } else {
        name.skip(last_index(name, '.') + 1)
    }
}

/// Whether a character is in ASCII.
pub open spec fn ascii() -> spec_fn(char) -> bool {
    |c: char| c as u32 <= 0x7F
}

/// The ASCII characters of a text, without those that compose with a mark behind
/// them. Such a letter and its mark are one non-ASCII character, and it does not
/// matter whether they are written as one or as two.
pub open spec fn kept(s: Seq<char>) -> Seq<char>
    decreases s.len(),
{
    if s.len() == 0 {
        seq![]
    } else if ascii()(s[0]) && !composes_behind(s) {
        seq![s[0]] + kept(s.drop_first())
    } else {
        kept(s.drop_first())
    }
}

/// `name` with only the ASCII characters of its stem that [`kept`] keeps, given the
/// file name that the platform sees in it. The extension stays as it is.
pub open spec fn sanitized(name: Seq<char>, file_name: Option<Seq<char>>) -> Seq<char> {
    match file_name {
        Some(f) => if name_extension(f).len() == 0 {
            kept(name_stem(f))
        } else {
            kept(name_stem(f)) + "."@ + name_extension(f)
        },
        None => kept(name),
    }
}

/// The characters of `chars[0..to]` that are kept.
fn keep_ascii(chars: &Vec<char>, to: usize) -> (r: String)
    requires
        to <= chars@.len(),
    ensures
        r@ == kept(chars@.take(to as int)),
{
    let ghost all = chars@.take(to as int);
    let mut r = String::new();
    let mut i: usize = 0;
    assert(all.skip(0) =~= all);
    assert(r@ + kept(all) =~= kept(all));
    while i < to
        invariant
            i <= to <= chars@.len(),
            all == chars@.take(to as int),
            r@ + kept(all.skip(i as int)) == kept(all),
        decreases to - i,
    {
        let ghost before = r@;
        let ghost rest = all.skip(i as int);
        assert(rest.drop_first() =~= all.skip(i + 1));
        assert(rest =~= chars@.subrange(i as int, to as int));
        if chars[i] as u32 <= 0x7F && !composes_in(chars, i, to) {
            r.push(chars[i]);
            assert(r@ + kept(all.skip(i + 1)) =~= before + (seq![rest[0]] + kept(
                all.skip(i + 1),
            )));
        }
        i += 1;
    }
    assert(r@ + kept(all.skip(i as int)) =~= r@);
    r
}

/// Takes the characters that are not kept out of the stem of a file name.
/// `file_name` is the final component of `name`, read as a path.
pub fn sanitized_name(name: &str, file_name: &Option<String>) -> (r: String)
    ensures
        r@ == sanitized(name@, text_of(*file_name)),
{
    match file_name {
        Some(f) => {
            let chars: Vec<char> = chars_of(f.as_str());
            let n: usize = chars.len();
            proof {
                lemma_last_index(chars@, '.');
                assert(chars@.take(n as int) =~= chars@);
            }
            match find_last_char(&chars, '.') {
                Some(dot) => if dot == 0 {
                    keep_ascii(&chars, n)
                } else {
                    let mut r: String = keep_ascii(&chars, dot);
                    assert(chars@.subrange(dot + 1, n as int) =~= chars@.skip(dot + 1));
                    if dot + 1 < n {
                        r.append(".");
                        r.append(string_of(&chars, dot + 1, n).as_str());
                    }
                    r
                },
                None => keep_ascii(&chars, n),
            }
        },
        None => {
            let chars: Vec<char> = chars_of(name);
            assert(chars@.take(chars@.len() as int) =~= chars@);
            keep_ascii(&chars, chars.len())
        },
    }
}

/// What [`sanitize_filename`] may make of a name.
pub open spec fn possibly_sanitized(name: Seq<char>, out: Seq<char>) -> bool {
    exists|f: Option<Seq<char>>| #[trigger]
        possible_file_name(name, f) && out == sanitized(name, f)
}

/// Takes the non-ASCII characters out of the stem of a file name, also those that are
/// written as a letter and an accent, and keeps its extension. So a cue sheet and the
/// files it names agree, whichever way either writes its accents.
pub fn sanitize_filename(name: &str) -> (r: String)
    ensures
        possibly_sanitized(name@, r@),
        plain_path(name@) ==> r@ == sanitized(name@, final_part(name@)),
{
    let f: Option<String> = path_file_name(name);
    sanitized_name(name, &f)
}

// ── Cue sheets ──────────────────────────────────────────────────────────────

/// Where the quoted file name of a cue sheet's line is: the places of the first
/// and the last double quote. Only a `FILE` line has one.
pub open spec fn file_reference(line: Seq<char>) -> Option<(int, int)> {
    let open = first_index(line, '"') as int;
    let close = last_index(line, '"');
    if starts_with(upper(trim(line)), "FILE "@) && open < close {
        Some((open, close))
    } else {
        None
    }
}

/// The file name that a line of a cue sheet refers to.
pub open spec fn referenced(line: Seq<char>) -> Option<Seq<char>> {
    match file_reference(line) {
        Some((open, close)) => Some(line.subrange(open + 1, close)),
        None => None,
    }
}

/// A line of a cue sheet with its reference sanitized, given the file name that
/// the platform sees in the reference.
pub open spec fn cue_line(line: Seq<char>, file_name: Option<Seq<char>>) -> Seq<char> {
    match file_reference(line) {
        Some((open, close)) => line.take(open + 1) + sanitized(
            line.subrange(open + 1, close),
            file_name,
        ) + line.skip(close),
        None => line,
    }
}

/// Finds the quoted file name of a line of a cue sheet.
fn find_reference(chars: &Vec<char>) -> (r: Option<(usize, usize)>)
    ensures
        match r {
            Some((open, close)) => {
                &&& file_reference(chars@) == Some((open as int, close as int))
                &&& open < close < chars@.len()
            },
            None => file_reference(chars@) is None,
        },
{
    let n: usize = chars.len();
    assert(chars@.subrange(0, n as int) =~= chars@);
    let (from, to) = trim_range(chars, 0, n);
    let start: Vec<char> = to_upper(chars, from, to);
    if !holds_at(&start, &chars_of("FILE "), 0) {
        return None;
    }
    let open: usize = find_char(chars, 0, n, '"');
    match find_last_char(chars, '"') {
        Some(close) if open < close => Some((open, close)),
        _ => None,
    }
}

/// Reads the file name that a line of a cue sheet refers to.
pub fn cue_reference(line: &str) -> (r: Option<String>)
    ensures
        text_of(r) == referenced(line@),
{
    let chars: Vec<char> = chars_of(line);
    match find_reference(&chars) {
        Some((open, close)) => Some(string_of(&chars, open + 1, close)),
        None => None,
    }
}

/// Sanitizes the file name that a line of a cue sheet refers to. `file_name` is
/// the final component of that name, read as a path.
pub fn rewrite_cue_line(line: &str, file_name: &Option<String>) -> (r: String)
    ensures
        r@ == cue_line(line@, text_of(*file_name)),
{
    let chars: Vec<char> = chars_of(line);
    match find_reference(&chars) {
        Some((open, close)) => {
            let n: usize = chars.len();
            let name: String = string_of(&chars, open + 1, close);
            let mut r: String = string_of(&chars, 0, open + 1);
            r.append(sanitized_name(name.as_str(), file_name).as_str());
            r.append(string_of(&chars, close, n).as_str());
            assert(chars@.subrange(0, open + 1) =~= chars@.take(open + 1));
            assert(chars@.subrange(close as int, n as int) =~= chars@.skip(close as int));
            r
        },
        None => string_of(&chars, 0, chars.len()),
    }
}

/// The lines of a cue sheet with their references sanitized.
pub open spec fn cue_lines(list: Seq<Seq<char>>, names: Seq<Option<Seq<char>>>) -> Seq<Seq<char>> {
    Seq::new(list.len(), |i: int| cue_line(list[i], names[i]))
}

/// The texts of a list of strings that may be missing.
pub open spec fn texts_of(list: Seq<Option<String>>) -> Seq<Option<Seq<char>>> {
    list.map_values(|s: Option<String>| text_of(s))
}

/// Sanitizes the file names that a cue sheet refers to. `names` holds for each
/// line the final component of the file name that it refers to.
pub fn rewrite_cue(list: &Vec<String>, names: &Vec<Option<String>>) -> (r: String)
    requires
        list@.len() == names@.len(),
    ensures
        r@ == joined(cue_lines(texts(list@), texts_of(names@)), "\n"@),
{
    let mut out: Vec<String> = Vec::new();
    let mut i: usize = 0;
    while i < list.len()
        invariant
            i <= list@.len() == names@.len(),
            texts(out@) == cue_lines(texts(list@), texts_of(names@)).take(i as int),
        decreases list@.len() - i,
    {
        let ghost before = texts(out@);
        let line: String = rewrite_cue_line(list[i].as_str(), &names[i]);
        out.push(line);
        proof {
            let all = cue_lines(texts(list@), texts_of(names@));
            assert(texts(out@) =~= before.push(line@));
            assert(line@ == all[i as int]);
            assert(all.take(i + 1) =~= all.take(i as int).push(all[i as int]));
        }
        i += 1;
    }
    assert(texts(out@) =~= cue_lines(texts(list@), texts_of(names@)));
    join(&out, "\n")
}

/// Whether each of `names` may be the final component of the file name that the
/// line in its place refers to.
pub open spec fn possible_names(list: Seq<Seq<char>>, names: Seq<Option<Seq<char>>>) -> bool {
    &&& list.len() == names.len()
    &&& forall|i: int|
        0 <= i < list.len() ==> match #[trigger] referenced(list[i]) {
            Some(name) => possible_file_name(name, names[i]),
            None => names[i] is None,
        }
}

/// What [`sanitize_cue`] may make of a cue sheet's text.
pub open spec fn possible_cue(text: Seq<char>, out: Seq<char>) -> bool {
    exists|names: Seq<Option<Seq<char>>>| #[trigger]
        possible_names(lines(text), names) && out == joined(cue_lines(lines(text), names), "\n"@)
}

/// Rewrites the `FILE` references of a cue sheet to sanitized file names.
pub fn sanitize_cue(content: &[u8]) -> (r: Vec<u8>)
    ensures
        exists|out: Seq<char>| #[trigger]
            possible_cue(lossy_text(content@), out) && r@ == encode_utf8(out),
        valid_utf8(content@) ==> exists|out: Seq<char>| #[trigger]
            possible_cue(decode_utf8(content@), out) && r@ == encode_utf8(out),
{
    let text: String = decode_lossy(content);
    let list: Vec<String> = lines_of(text.as_str());
    let ghost all = lines(text@);
    let mut names: Vec<Option<String>> = Vec::new();
    let mut i: usize = 0;
    while i < list.len()
        invariant
            i <= list@.len(),
            all == texts(list@),
            possible_names(all.take(i as int), texts_of(names@)),
        decreases list@.len() - i,
    {
        let ghost before = texts_of(names@);
        let name: Option<String> = match cue_reference(list[i].as_str()) {
            Some(name) => path_file_name(name.as_str()),
            None => None,
        };
        names.push(name);
        proof {
            let now = texts_of(names@);
            assert(now =~= before.push(text_of(name)));
            assert forall|j: int| 0 <= j <= i implies match #[trigger] referenced(
                all.take(i + 1)[j],
            ) {
                Some(name) => possible_file_name(name, now[j]),
                None => now[j] is None,
            } by {
                if j < i {
                    assert(all.take(i + 1)[j] == all.take(i as int)[j]);
                    assert(now[j] == before[j]);
                } else {
                    assert(all[i as int] == list@[i as int]@);
                }
            }
        }
        i += 1;
    }
    assert(all.take(i as int) =~= all);
    let out: String = rewrite_cue(&list, &names);
    assert(possible_cue(lossy_text(content@), out@));
    assert(valid_utf8(content@) ==> possible_cue(decode_utf8(content@), out@));
    vstd::slice::slice_to_vec(out.as_str().as_bytes())
}

// ── Archives ────────────────────────────────────────────────────────────────

/// Whether a file belongs to a disc image, going by its name.
pub open spec fn disc_file(name: Seq<char>) -> bool {
    ||| ends_with(lower(name), ".cue"@)
    ||| ends_with(lower(name), ".bin"@)
    ||| ends_with(lower(name), ".cdg"@)
}

/// Whether a file is a cue sheet, going by its name.
pub open spec fn cue_file(name: Seq<char>) -> bool {
    ends_with(lower(name), ".cue"@)
}

/// Whether a file belongs to a disc image, going by its name.
pub fn is_disc_file(name: &str) -> (r: bool)
    ensures
        r == disc_file(name@),
{
    let lower: Vec<char> = to_lower(name);
    has_end(&lower, ".cue") || has_end(&lower, ".bin") || has_end(&lower, ".cdg")
}

/// Whether a file is a cue sheet, going by its name.
pub fn is_cue_file(name: &str) -> (r: bool)
    ensures
        r == cue_file(name@),
{
    has_end(&to_lower(name), ".cue")
}

/// What becomes of an entry of an archive.
#[derive(Debug, Clone, PartialEq, Eq)]
pub enum EntryPlan {
    /// It is passed over.
    Skip,
    /// The archive is refused, with a message.
    Refuse(String),
    /// It is written to the file `to`; a cue sheet is sanitized first.
    Extract { to: String, cue: bool },
}

/// What an [`EntryPlan`] says.
pub enum PlannedEntry {
    Skip,
    Refuse(Seq<char>),
    Extract(Seq<char>, bool),
}

impl View for EntryPlan {
    type V = PlannedEntry;

    open spec fn view(&self) -> PlannedEntry {
        match *self {
            EntryPlan::Skip => PlannedEntry::Skip,
            EntryPlan::Refuse(message) => PlannedEntry::Refuse(message@),
            EntryPlan::Extract { to, cue } => PlannedEntry::Extract(to@, cue),
        }
    }
}

/// What becomes of an entry of a ZIP archive. `file_name` is the final component
/// of its name, and `again` that of `file_name`.
pub open spec fn zip_plan(
    name: Seq<char>,
    stored: bool,
    file_name: Option<Seq<char>>,
    again: Option<Seq<char>>,
) -> PlannedEntry {
    if !disc_file(name) {
        PlannedEntry::Skip
    } else if !stored {
        PlannedEntry::Refuse("CD+G Player supports uncompressed archives only."@)
    } else {
        match file_name {
            None => PlannedEntry::Refuse("Bad entry name: "@ + name),
            Some(f) => PlannedEntry::Extract(sanitized(f, again), cue_file(name)),
        }
    }
}

/// Decides what becomes of an entry of a ZIP archive. `file_name` is the final
/// component of its name, read as a path, and `again` that of `file_name`.
pub fn decide_zip_entry(
    name: &str,
    stored: bool,
    file_name: &Option<String>,
    again: &Option<String>,
) -> (plan: EntryPlan)
    ensures
        plan@ == zip_plan(name@, stored, text_of(*file_name), text_of(*again)),
{
    if !is_disc_file(name) {
        EntryPlan::Skip
    } else if !stored {
        EntryPlan::Refuse("CD+G Player supports uncompressed archives only.".to_string())
    } else {
        match file_name {
            None => {
                let mut message: String = "Bad entry name: ".to_string();
                message.append(name);
                EntryPlan::Refuse(message)
            },
            Some(f) => EntryPlan::Extract {
                to: sanitized_name(f.as_str(), again),
                cue: is_cue_file(name),
            },
        }
    }
}

/// Whether `again` may be the final component of `file_name`.
pub open spec fn possible_again(file_name: Option<Seq<char>>, again: Option<Seq<char>>) -> bool {
    match file_name {
        Some(f) => possible_file_name(f, again),
        None => again is None,
    }
}

/// What may become of an entry of a ZIP archive.
pub open spec fn possible_zip_plan(name: Seq<char>, stored: bool, plan: PlannedEntry) -> bool {
    exists|f: Option<Seq<char>>, g: Option<Seq<char>>| #[trigger]
        possible_file_name(name, f) && #[trigger] possible_again(f, g) && plan == zip_plan(
            name,
            stored,
            f,
            g,
        )
}

/// What becomes of an entry of a 7z archive. `file_name` is the final component
/// of its name, or its name if it has none, and `again` the final component of
/// that.
pub open spec fn sevenz_plan(
    name: Seq<char>,
    directory: bool,
    file_name: Seq<char>,
    again: Option<Seq<char>>,
) -> PlannedEntry {
    if directory || !disc_file(name) {
        PlannedEntry::Skip
    } else {
        PlannedEntry::Extract(sanitized(file_name, again), cue_file(name))
    }
}

/// Decides what becomes of an entry of a 7z archive. `file_name` is the final
/// component of its name, read as a path, or its name if it has none, and
/// `again` the final component of that.
pub fn decide_7z_entry(
    name: &str,
    directory: bool,
    file_name: &str,
    again: &Option<String>,
) -> (plan: EntryPlan)
    ensures
        plan@ == sevenz_plan(name@, directory, file_name@, text_of(*again)),
{
    if directory || !is_disc_file(name) {
        EntryPlan::Skip
    } else {
        EntryPlan::Extract { to: sanitized_name(file_name, again), cue: is_cue_file(name) }
    }
}

/// A file name, or `name` if there is none.
pub open spec fn seen_name(file_name: Option<Seq<char>>, name: Seq<char>) -> Seq<char> {
    match file_name {
        Some(f) => f,
        None => name,
    }
}

/// What may become of an entry of a 7z archive.
pub open spec fn possible_7z_plan(name: Seq<char>, directory: bool, plan: PlannedEntry) -> bool {
    exists|f: Option<Seq<char>>, g: Option<Seq<char>>| #[trigger]
        possible_file_name(name, f) && #[trigger] possible_file_name(
            seen_name(f, name),
            g,
        ) && plan == sevenz_plan(name, directory, seen_name(f, name), g)
}

/// Plans what becomes of an entry of a 7z archive.
pub fn plan_7z_entry(name: &str, directory: bool) -> (plan: EntryPlan)
    ensures
        possible_7z_plan(name@, directory, plan@),
{
    let f: Option<String> = path_file_name(name);
    let ghost seen = text_of(f);
    match f {
        Some(f) => {
            let g: Option<String> = path_file_name(f.as_str());
            assert(possible_file_name(seen_name(seen, name@), text_of(g)));
            decide_7z_entry(name, directory, f.as_str(), &g)
        },
        None => {
            let g: Option<String> = path_file_name(name);
            assert(possible_file_name(seen_name(seen, name@), text_of(g)));
            decide_7z_entry(name, directory, name, &g)
        },
    }
}

/// The cue sheet found so far while an archive is extracted.
pub struct Extraction {
    pub cue: Option<String>,
}

impl Extraction {
    /// Starts an extraction.
    pub fn new() -> (r: Self)
        ensures
            r.cue is None,
    {
        Extraction { cue: None }
    }

    /// Plans what becomes of the next entry of a ZIP archive. Of several cue
    /// sheets the last one counts.
    pub fn plan_zip_entry(&mut self, name: &str, stored: bool) -> (plan: EntryPlan)
        ensures
            possible_zip_plan(name@, stored, plan@),
            text_of(final(self).cue) == match plan@ {
                PlannedEntry::Extract(to, true) => Some(to),
                _ => text_of(old(self).cue),
            },
    {
        let f: Option<String> = path_file_name(name);
        let g: Option<String> = match &f {
            Some(f) => path_file_name(f.as_str()),
            None => None,
        };
        assert(possible_again(text_of(f), text_of(g)));
        let plan: EntryPlan = decide_zip_entry(name, stored, &f, &g);
        if let EntryPlan::Extract { to, cue } = &plan {
            if *cue {
                let chars: Vec<char> = chars_of(to.as_str());
                self.cue = Some(string_of(&chars, 0, chars.len()));
                assert(chars@.subrange(0, chars@.len() as int) =~= to@);
            }
        }
        plan
    }

    /// Ends an extraction: the file name of the cue sheet, which has to be there.
    pub fn finish(self) -> (r: Result<String, String>)
        ensures
            match r {
                Ok(cue) => self.cue == Some(cue),
                Err(message) => self.cue is None && message@
                    == "CD+G Player requires a disc image to have a .cue."@,
            },
    {
        match self.cue {
            Some(cue) => Ok(cue),
            None => Err("CD+G Player requires a disc image to have a .cue.".to_string()),
        }
    }
}

/// The bytes to write for an extracted entry.
pub fn entry_data(cue: bool, data: Vec<u8>) -> (r: Vec<u8>)
    ensures
        !cue ==> r@ == data@,
        cue ==> exists|out: Seq<char>| #[trigger]
            possible_cue(lossy_text(data@), out) && r@ == encode_utf8(out),
        cue && valid_utf8(data@) ==> exists|out: Seq<char>| #[trigger]
            possible_cue(decode_utf8(data@), out) && r@ == encode_utf8(out),
{
    if cue {
        sanitize_cue(data.as_slice())
    } else {
        data
    }
}

// ── Files on disk ───────────────────────────────────────────────────────────

/// How a disc image is opened.
#[derive(Debug, Clone, Copy, PartialEq, Eq, Structural)]
pub enum DiscKind {
    Zip,
    SevenZ,
    Cue,
}

/// How a file with this extension is opened.
pub open spec fn kind_of(extension: Option<Seq<char>>) -> DiscKind {
    match extension {
        Some(e) => if lower(e) == "zip"@ {
            DiscKind::Zip
        } else if lower(e) == "7z"@ {
            DiscKind::SevenZ
        } else {
            DiscKind::Cue
        },
        None => DiscKind::Cue,
    }
}

/// Whether `s` is `word`.
fn is_word(s: &Vec<char>, word: &str) -> (r: bool)
    ensures
        r == (s@ == word@),
{
    let word: Vec<char> = chars_of(word);
    let r: bool = s.len() == word.len() && holds_at(s, &word, 0);
    assert(s@.subrange(0, s@.len() as int) =~= s@);
    r
}

/// Chooses how to open a disc image from the extension of its file.
pub fn disc_kind(extension: &Option<String>) -> (r: DiscKind)
    ensures
        r == kind_of(text_of(*extension)),
{
    match extension {
        Some(e) => {
            let lower: Vec<char> = to_lower(e.as_str());
            if is_word(&lower, "zip") {
                DiscKind::Zip
            } else if is_word(&lower, "7z") {
                DiscKind::SevenZ
            } else {
                DiscKind::Cue
            }
        },
        None => DiscKind::Cue,
    }
}

/// The first file of a directory with the extension `cue`, if there is one.
pub fn first_cue(names: &Vec<String>) -> (r: Option<usize>)
    ensures
        match r {
            Some(i) => {
                &&& i < names@.len()
                &&& name_extension(names@[i as int]@) == "cue"@
                &&& forall|j: int|
                    0 <= j < i ==> name_extension(#[trigger] names@[j]@) != "cue"@
            },
            None => forall|j: int|
                0 <= j < names@.len() ==> name_extension(#[trigger] names@[j]@) != "cue"@,
        },
{
    let mut i: usize = 0;
    while i < names.len()
        invariant
            i <= names@.len(),
            forall|j: int| 0 <= j < i ==> name_extension(#[trigger] names@[j]@) != "cue"@,
        decreases names@.len() - i,
    {
        let extension: String = extension_of(names[i].as_str());
        if is_word(&chars_of(extension.as_str()), "cue") {
            return Some(i);
        }
        i += 1;
    }
    None
}

/// The extension of a file name; empty if it has none.
fn extension_of(name: &str) -> (r: String)
    ensures
        r@ == name_extension(name@),
{
    let chars: Vec<char> = chars_of(name);
    let n: usize = chars.len();
    match find_last_char(&chars, '.') {
        Some(dot) if dot > 0 => {
            assert(chars@.subrange(dot + 1, n as int) =~= chars@.skip(dot + 1));
            string_of(&chars, dot + 1, n)
        },
        _ => String::new(),
    }
}

/// A file that lies beside a cue sheet.
#[derive(Debug, Clone, PartialEq, Eq)]
pub struct ListedFile {
    /// Its extension, if it has one that can be read.
    pub extension: Option<String>,
    /// Its size in bytes; 0 if it is unknown.
    pub size: u64,
}

/// Whether a file has the extension `cdg`, in whatever case.
pub open spec fn cdg_file(file: ListedFile) -> bool {
    file.extension matches Some(e) && lower(e@) == "cdg"@
}

/// Where the graphics of a disc image are.
#[derive(Debug, Clone, Copy, PartialEq, Eq, Structural)]
pub enum CdgChoice {
    /// In the `.cdg` file that is named like the cue sheet.
    Named,
    /// In a listed file.
    Listed(usize),
    /// Nowhere.
    Missing,
}

/// Chooses the file with the graphics of a disc image: the `.cdg` file named like
/// the cue sheet if there is one, whose size is then `named`, or else the first
/// other `.cdg` file. An empty file has no graphics.
pub fn choose_cdg(named: Option<u64>, listed: &Vec<ListedFile>) -> (r: CdgChoice)
    ensures
        match named {
            Some(size) => r == if size > 0 {
                CdgChoice::Named
            } else {
                CdgChoice::Missing
            },
            None => match r {
                CdgChoice::Named => false,
                CdgChoice::Listed(i) => {
                    &&& i < listed@.len()
                    &&& cdg_file(listed@[i as int])
                    &&& listed@[i as int].size > 0
                    &&& forall|j: int| 0 <= j < i ==> !cdg_file(#[trigger] listed@[j])
                },
                CdgChoice::Missing => {
                    ||| forall|j: int| 0 <= j < listed@.len() ==> !cdg_file(#[trigger] listed@[j])
                    ||| exists|i: int|
                        {
                            &&& 0 <= i < listed@.len()
                            &&& cdg_file(#[trigger] listed@[i])
                            &&& listed@[i].size == 0
                            &&& forall|j: int| 0 <= j < i ==> !cdg_file(#[trigger] listed@[j])
                        }
                },
            },
        },
{
    if let Some(size) = named {
        return if size > 0 {
            CdgChoice::Named
        } else {
            CdgChoice::Missing
        };
    }
    let mut i: usize = 0;
    while i < listed.len()
        invariant
            i <= listed@.len(),
            named is None,
            forall|j: int| 0 <= j < i ==> !cdg_file(#[trigger] listed@[j]),
        decreases listed@.len() - i,
    {
        if let Some(e) = &listed[i].extension {
            if is_word(&to_lower(e.as_str()), "cdg") {
                assert(cdg_file(listed@[i as int]));
                return if listed[i].size > 0 {
                    CdgChoice::Listed(i)
                } else {
                    CdgChoice::Missing
                };
            }
        }
        i += 1;
    }
    CdgChoice::Missing
}

} // verus!
