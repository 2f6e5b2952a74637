//! What holds of sanitized file names and cue sheets as a whole.

use crate::disc::{
    ascii, cue_file, cue_line, disc_file, file_reference, final_part, has_drive, kept,
    last_segment, name_extension, name_stem, plain_path, possible_7z_plan, possible_again,
    possible_file_name, possible_zip_plan, referenced, sanitized, seen_name, sevenz_plan,
    zip_plan, PlannedEntry,
};
use crate::marks::{
    class_of, composed, composes_at, composes_behind, lemma_composed,
    lemma_dot_composes_with_nothing, lemma_marks_above_ascii, lemma_no_other_composes, MarkClass,
};
use crate::text::{
    ascii_upper, last_index, lemma_first_index, lemma_is_first_index, lemma_is_last_index,
    lemma_last_index, lemma_trim_left, lemma_trim_right, trim, upper, white,
};
use vstd::prelude::*;

verus! {

/// Where no character composes with a mark behind it, exactly the ASCII characters
/// of a text are kept.
pub proof fn lemma_kept_without_composites(s: Seq<char>)
    requires
        forall|k: int|
            0 <= k < s.len() && ascii()(s[k]) ==> !composes_behind(#[trigger] s.skip(k)),
    ensures
        kept(s) == s.filter(ascii()),
    decreases s.len(),
{
    if s.len() == 0 {
        reveal(Seq::filter);
        assert(kept(s) =~= s.filter(ascii()));
    } else {
        let rest = s.drop_first();
        assert forall|k: int| 0 <= k < rest.len() && ascii()(rest[k]) implies !composes_behind(
            #[trigger] rest.skip(k),
        ) by {
            assert(rest[k] == s[k + 1]);
            assert(rest.skip(k) =~= s.skip(k + 1));
        }
        lemma_kept_without_composites(rest);
        assert(s =~= seq![s[0]] + rest);
        Seq::filter_distributes_over_add(seq![s[0]], rest, ascii());
        assert(s.skip(0) =~= s);
        assert(seq![s[0]].filter(ascii()) =~= if ascii()(s[0]) {
            seq![s[0]]
        } else {
            seq![]
        }) by {
            reveal(Seq::filter);
            assert(seq![s[0]].drop_last() =~= seq![]);
            assert(seq![s[0]].drop_last().filter(ascii()) =~= seq![]);
        }
        assert(kept(s) =~= s.filter(ascii()));
    }
}

/// Only ASCII characters are kept.
proof fn lemma_kept_is_ascii(s: Seq<char>)
    ensures
        forall|i: int| 0 <= i < kept(s).len() ==> ascii()(#[trigger] kept(s)[i]),
    decreases s.len(),
{
    if s.len() > 0 {
        let rest = kept(s.drop_first());
        lemma_kept_is_ascii(s.drop_first());
        assert forall|i: int| 0 <= i < kept(s).len() implies ascii()(#[trigger] kept(s)[i]) by {
            if ascii()(s[0]) && !composes_behind(s) {
                assert(kept(s) == seq![s[0]] + rest);
                if i > 0 {
                    assert(kept(s)[i] == rest[i - 1]);
                }
            } else {
                assert(kept(s)[i] == rest[i]);
            }
        }
    }
}

/// A text of ASCII characters alone is left as it is.
proof fn lemma_ascii_kept(s: Seq<char>)
    requires
        forall|i: int| 0 <= i < s.len() ==> ascii()(#[trigger] s[i]),
    ensures
        kept(s) == s,
    decreases s.len(),
{
    if s.len() > 0 {
        let rest = s.drop_first();
        assert forall|i: int| 0 <= i < rest.len() implies ascii()(#[trigger] rest[i]) by {
            assert(rest[i] == s[i + 1]);
        }
        lemma_ascii_kept(rest);
        assert forall|i: int| !#[trigger] composes_at(s, i) by {
            if composes_at(s, i) {
                lemma_composed(s[0], s[i]);
                lemma_marks_above_ascii(s[i]);
                assert(ascii()(s[i]));
            }
        }
        assert(s =~= seq![s[0]] + rest);
    }
}

/// A file name of ASCII characters is kept, unless it ends with a dot.
pub proof fn lemma_ascii_name_kept(name: Seq<char>)
    requires
        forall|i: int| 0 <= i < name.len() ==> ascii()(#[trigger] name[i]),
        name.len() > 0 ==> name.last() != '.',
    ensures
        sanitized(name, Some(name)) == name,
{
    reveal_strlit(".");
    lemma_last_index(name, '.');
    let dot = last_index(name, '.');
    let stem = name_stem(name);
    assert forall|i: int| 0 <= i < stem.len() implies ascii()(#[trigger] stem[i]) by {
        assert(stem[i] == name[i]);
    }
    lemma_ascii_kept(stem);
    if dot > 0 {
        assert(name =~= stem + "."@ + name_extension(name));
    }
}

/// Sanitizing keeps the extension of a file name, and of its stem just what [`kept`]
/// keeps, if anything is left. There has to be an extension.
pub proof fn lemma_extension_kept(name: Seq<char>, f: Seq<char>)
    requires
        name_extension(f).len() > 0,
        kept(name_stem(f)).len() > 0,
    ensures
        name_extension(sanitized(name, Some(f))) == name_extension(f),
        name_stem(sanitized(name, Some(f))) == kept(name_stem(f)),
{
    reveal_strlit(".");
    let stem = kept(name_stem(f));
    let ext = name_extension(f);
    let out = sanitized(name, Some(f));
    let dot = last_index(f, '.');
    lemma_last_index(f, '.');
    assert forall|i: int| stem.len() < i < out.len() implies out[i] != '.' by {
        assert(out[i] == ext[i - stem.len() - 1]);
        assert(ext[i - stem.len() - 1] == f[dot + i - stem.len()]);
    }
    lemma_is_last_index(out, '.', stem.len() as int);
    assert(out.skip(stem.len() as int + 1) =~= ext);
    assert(out.take(stem.len() as int) =~= stem);
}

/// A file name with a stem and an extension, of which no character composes with a
/// mark behind it, becomes the ASCII characters of its stem, in order, and then its
/// extension as it is.
pub proof fn lemma_stem_and_extension(stem: Seq<char>, ext: Seq<char>)
    requires
        stem.len() > 0,
        ext.len() > 0,
        !ext.contains('.'),
        forall|k: int|
            0 <= k < stem.len() && ascii()(stem[k]) ==> !composes_behind(#[trigger] stem.skip(k)),
    ensures
        ({
            let name = stem + "."@ + ext;
            sanitized(name, Some(name)) == stem.filter(ascii()) + "."@ + ext
        }),
{
    reveal_strlit(".");
    let name = stem + "."@ + ext;
    let dot = stem.len() as int;
    assert forall|i: int| dot < i < name.len() implies name[i] != '.' by {
        assert(name[i] == ext[i - dot - 1]);
        assert(ext.contains(ext[i - dot - 1]));
    }
    lemma_is_last_index(name, '.', dot);
    assert(name.take(dot) =~= stem);
    assert(name.skip(dot + 1) =~= ext);
    lemma_kept_without_composites(stem);
}

/// Sanitizing a second time changes nothing, if the name has an ASCII extension.
pub proof fn lemma_sanitized_twice(name: Seq<char>, f: Seq<char>)
    requires
        name_extension(f).len() > 0,
        forall|i: int|
            0 <= i < name_extension(f).len() ==> ascii()(#[trigger] name_extension(f)[i]),
    ensures
        ({
            let once = sanitized(name, Some(f));
            sanitized(once, Some(once)) == once
        }),
{
    reveal_strlit(".");
    let once = sanitized(name, Some(f));
    let stem = kept(name_stem(f));
    let ext = name_extension(f);
    lemma_kept_is_ascii(name_stem(f));
    lemma_last_index(f, '.');
    assert forall|i: int| 0 <= i < once.len() implies ascii()(#[trigger] once[i]) by {
        if i < stem.len() {
            assert(once[i] == stem[i]);
        } else if i > stem.len() {
            assert(once[i] == ext[i - stem.len() - 1]);
        }
    }
    assert(once.last() == ext.last());
    assert(ext.last() == f.last());
    lemma_ascii_name_kept(once);
}

/// A `FILE` line of a cue sheet refers, once rewritten, to the sanitized name and
/// nothing else.
pub proof fn lemma_rewritten_reference(line: Seq<char>, f: Option<Seq<char>>)
    requires
        referenced(line) is Some,
    ensures
        referenced(cue_line(line, f)) == Some(sanitized(referenced(line)->Some_0, f)),
{
    reveal_strlit("FILE ");
    let word = "FILE "@;
    let (open, close) = file_reference(line)->Some_0;
    let name = sanitized(line.subrange(open + 1, close), f);
    let out = cue_line(line, f);
    lemma_first_index(line, '"');
    lemma_last_index(line, '"');
    let end = open + 1 + name.len();
    assert(out.len() == end + line.len() - close);
    assert forall|i: int| 0 <= i <= open implies #[trigger] out[i] == line[i] by {}
    assert forall|i: int| end <= i < out.len() implies #[trigger] out[i] == line[
        i - end + close
    ] by {}
    // The quotes of the rewritten line.
    lemma_is_first_index(out, '"', open);
    assert(out[end] == line[close]);
    lemma_is_last_index(out, '"', end);
    assert(out.subrange(open + 1, end) =~= name);
    // The line still begins with the word.
    let k = lemma_trim_left(line, white());
    let left = line.skip(k);
    assert(k <= open) by {
        if open < k {
            assert(white()(line[open]));
        }
    }
    let m = lemma_trim_right(left, white());
    let t = trim(line);
    assert(upper(t).subrange(0, 5) == word);
    assert forall|j: int| 0 <= j < 5 implies #[trigger] ascii_upper(line[k + j]) == word[j] by {
        assert(upper(t).subrange(0, 5)[j] == word[j]);
        assert(t[j] == line[k + j]);
    }
    assert(k + 5 <= open) by {
        if open < k + 5 {
            assert(ascii_upper(line[k + (open - k)]) == word[open - k]);
            assert(line[open] == '"');
        }
    }
    let k2 = lemma_trim_left(out, white());
    assert(k2 == k) by {
        assert(!white()(line[k]));
        if k < k2 {
            assert(white()(out[k]));
            assert(out[k] == line[k]);
        }
        if k2 < k {
            assert(out[k2] == line[k2]);
            assert(white()(line[k2]));
        }
    }
    let left2 = out.skip(k);
    let m2 = lemma_trim_right(left2, white());
    assert(m2 > end - k) by {
        if m2 <= end - k {
            assert(white()(left2[end - k]));
            assert(left2[end - k] == out[end]);
        }
    }
    let t2 = trim(out);
    assert(upper(t2).subrange(0, 5) =~= word) by {
        assert forall|j: int| 0 <= j < 5 implies upper(t2)[j] == word[j] by {
            assert(t2[j] == out[k + j]);
            assert(out[k + j] == line[k + j]);
        }
    }
}

/// Nothing of a run of non-ASCII characters is kept, and what follows it does not
/// depend on it.
proof fn lemma_run_dropped(run: Seq<char>, rest: Seq<char>)
    requires
        forall|i: int| 0 <= i < run.len() ==> !ascii()(#[trigger] run[i]),
    ensures
        kept(run + rest) == kept(rest),
    decreases run.len(),
{
    if run.len() == 0 {
        assert(run + rest =~= rest);
    } else {
        let less = run.drop_first();
        assert forall|i: int| 0 <= i < less.len() implies !ascii()(#[trigger] less[i]) by {
            assert(less[i] == run[i + 1]);
        }
        lemma_run_dropped(less, rest);
        assert((run + rest).drop_first() =~= less + rest);
        assert(!ascii()(run[0]));
    }
}

/// No character composes across a starter.
proof fn lemma_starter_ends(a: Seq<char>, s: Seq<char>)
    requires
        a.len() > 0,
        s.len() > 0,
        class_of(s[0]) == MarkClass::Starter,
    ensures
        composes_behind(a + s) == composes_behind(a),
{
    let all = a + s;
    if composes_behind(a) {
        let i = choose|i: int| composes_at(a, i);
        assert forall|j: int| 1 <= j < i implies class_of(#[trigger] all[j]) != MarkClass::Starter
            && class_of(all[j]) != class_of(all[i]) by {
            assert(all[j] == a[j]);
        }
        assert(composes_at(all, i));
    }
    if composes_behind(all) {
        let i = choose|i: int| composes_at(all, i);
        assert(all[a.len() as int] == s[0]);
        if i == a.len() {
            lemma_composed(all[0], all[i]);
        }
        assert(i < a.len());
        assert forall|j: int| 1 <= j < i implies class_of(#[trigger] a[j]) != MarkClass::Starter
            && class_of(a[j]) != class_of(a[i]) by {
            assert(all[j] == a[j]);
        }
        assert(composes_at(a, i));
    }
}

/// Two texts that begin alike keep alike if what follows does, and begins with a
/// starter.
proof fn lemma_same_beginning(a: Seq<char>, s: Seq<char>, t: Seq<char>)
    requires
        s.len() > 0,
        t.len() > 0,
        class_of(s[0]) == MarkClass::Starter,
        class_of(t[0]) == MarkClass::Starter,
        kept(s) == kept(t),
    ensures
        kept(a + s) == kept(a + t),
    decreases a.len(),
{
    if a.len() == 0 {
        assert(a + s =~= s);
        assert(a + t =~= t);
    } else {
        let rest = a.drop_first();
        lemma_same_beginning(rest, s, t);
        assert((a + s).drop_first() =~= rest + s);
        assert((a + t).drop_first() =~= rest + t);
        lemma_starter_ends(a, s);
        lemma_starter_ends(a, t);
    }
}

/// Whether a text is made of marks.
pub open spec fn all_marks(s: Seq<char>) -> bool {
    forall|i: int| 0 <= i < s.len() ==> class_of(#[trigger] s[i]) != MarkClass::Starter
}

/// A letter with marks behind it composes with the mark at place `i`. One composed
/// character may stand for the two, with marks behind it in its turn.
pub open spec fn spelled_out(
    letter: char,
    marks: Seq<char>,
    i: int,
    whole: char,
    rest: Seq<char>,
) -> bool {
    &&& composes_at(seq![letter] + marks, i + 1)
    &&& composed(letter, marks[i]) == Some(whole)
    &&& all_marks(marks)
    &&& all_marks(rest)
}

/// It does not matter whether a text has a letter and a mark that compose, or the
/// composed character in their place: the same is kept.
pub proof fn lemma_kept_composed(
    a: Seq<char>,
    letter: char,
    marks: Seq<char>,
    i: int,
    whole: char,
    rest: Seq<char>,
    b: Seq<char>,
)
    requires
        spelled_out(letter, marks, i, whole, rest),
    ensures
        kept(a + (seq![letter] + marks + b)) == kept(a + (seq![whole] + rest + b)),
{
    let s = seq![letter] + marks + b;
    let t = seq![whole] + rest + b;
    let head = seq![letter] + marks;
    assert(head[i + 1] == marks[i]);
    lemma_composed(letter, marks[i]);
    assert forall|j: int| 0 <= j < marks.len() implies !ascii()(#[trigger] marks[j]) by {
        lemma_marks_above_ascii(marks[j]);
    }
    assert forall|j: int| 0 <= j < rest.len() implies !ascii()(#[trigger] rest[j]) by {
        lemma_marks_above_ascii(rest[j]);
    }
    lemma_run_dropped(marks, b);
    lemma_run_dropped(rest, b);
    assert(s.drop_first() =~= marks + b);
    assert(t.drop_first() =~= rest + b);
    assert(composes_at(s, i + 1)) by {
        assert(s[i + 1] == head[i + 1]);
        assert forall|j: int| 1 <= j < i + 1 implies class_of(#[trigger] s[j])
            != MarkClass::Starter && class_of(s[j]) != class_of(s[i + 1]) by {
            assert(s[j] == head[j]);
        }
    }
    assert(kept(s) == kept(b));
    assert(kept(t) == kept(b));
    if class_of(letter) != MarkClass::Starter {
        lemma_marks_above_ascii(letter);
    }
    lemma_same_beginning(a, s, t);
}

/// Nor does it matter how non-ASCII characters are composed: a run of them that
/// begins with a starter may be replaced by another.
pub proof fn lemma_kept_recomposed(a: Seq<char>, s: Seq<char>, t: Seq<char>, b: Seq<char>)
    requires
        s.len() > 0,
        t.len() > 0,
        class_of(s[0]) == MarkClass::Starter,
        class_of(t[0]) == MarkClass::Starter,
        forall|i: int| 0 <= i < s.len() ==> !ascii()(#[trigger] s[i]),
        forall|i: int| 0 <= i < t.len() ==> !ascii()(#[trigger] t[i]),
    ensures
        kept(a + (s + b)) == kept(a + (t + b)),
{
    lemma_run_dropped(s, b);
    lemma_run_dropped(t, b);
    assert((s + b)[0] == s[0]);
    assert((t + b)[0] == t[0]);
    lemma_same_beginning(a, s + b, t + b);
}

/// Whether two marks may be exchanged: their order matters only within a class, and
/// marks of the other classes never compose.
pub open spec fn exchangeable(m: char, n: char) -> bool {
    &&& class_of(m) != MarkClass::Starter
    &&& class_of(n) != MarkClass::Starter
    &&& class_of(m) != class_of(n) || class_of(m) == MarkClass::Other
}

/// What composes with the first character still does once two marks are exchanged.
proof fn lemma_composes_exchanged(a: Seq<char>, m: char, n: char, b: Seq<char>)
    requires
        a.len() > 0,
        exchangeable(m, n),
        composes_behind(a + seq![m, n] + b),
    ensures
        composes_behind(a + seq![n, m] + b),
{
    let s = a + seq![m, n] + b;
    let t = a + seq![n, m] + b;
    let k = a.len() as int;
    let i = choose|i: int| composes_at(s, i);
    let to = if i == k {
        k + 1
    } else if i == k + 1 {
        k
    } else {
        i
    };
    assert(s[k] == m && s[k + 1] == n && t[k] == n && t[k + 1] == m);
    assert forall|j: int| 0 <= j < s.len() && j != k && j != k + 1 implies #[trigger] s[j]
        == t[j] by {}
    assert(t[to] == s[i]);
    lemma_composed(s[0], s[i]);
    lemma_no_other_composes(s[0], s[i]);
    assert forall|j: int| 1 <= j < to implies class_of(#[trigger] t[j]) != MarkClass::Starter
        && class_of(t[j]) != class_of(t[to]) by {
        if j != k && j != k + 1 {
            assert(s[j] == t[j]);
        } else {
            assert(class_of(s[k]) != MarkClass::Starter);
            assert(class_of(s[k + 1]) != MarkClass::Starter);
            assert(t[j] == s[2 * k + 1 - j]);
        }
    }
    assert(composes_at(t, to));
}

/// The order of marks of different classes does not matter.
pub proof fn lemma_kept_reordered(a: Seq<char>, m: char, n: char, b: Seq<char>)
    requires
        exchangeable(m, n),
    ensures
        kept(a + seq![m, n] + b) == kept(a + seq![n, m] + b),
    decreases a.len(),
{
    let s = a + seq![m, n] + b;
    let t = a + seq![n, m] + b;
    if a.len() == 0 {
        lemma_marks_above_ascii(m);
        lemma_marks_above_ascii(n);
        assert(s =~= seq![m, n] + b);
        assert(t =~= seq![n, m] + b);
        lemma_run_dropped(seq![m, n], b);
        lemma_run_dropped(seq![n, m], b);
    } else {
        let rest = a.drop_first();
        lemma_kept_reordered(rest, m, n, b);
        assert(s.drop_first() =~= rest + seq![m, n] + b);
        assert(t.drop_first() =~= rest + seq![n, m] + b);
        if composes_behind(s) {
            lemma_composes_exchanged(a, m, n, b);
        }
        if composes_behind(t) {
            lemma_composes_exchanged(a, n, m, b);
        }
    }
}

/// Two file names that are written alike but for one letter with its accents, which
/// one of them spells out and the other composes, have one sanitized name. The
/// letter stands in the stem: the extension is kept as it is written.
pub proof fn lemma_composed_name(
    a: Seq<char>,
    letter: char,
    marks: Seq<char>,
    at: int,
    whole: char,
    rest: Seq<char>,
    b: Seq<char>,
)
    requires
        spelled_out(letter, marks, at, whole, rest),
        b.contains('.') || !a.contains('.'),
    ensures
        ({
            let s = a + (seq![letter] + marks + b);
            let t = a + (seq![whole] + rest + b);
            sanitized(s, Some(s)) == sanitized(t, Some(t))
        }),
{
    let s = a + (seq![letter] + marks + b);
    let t = a + (seq![whole] + rest + b);
    lemma_composed(letter, marks[at]);
    assert(whole != '.');
    assert(letter != '.') by {
        lemma_dot_composes_with_nothing(marks[at]);
    }
    let d = last_index(b, '.');
    lemma_last_index(b, '.');
    assert forall|i: int| 0 <= i < marks.len() implies (#[trigger] marks[i]) != '.' by {
        lemma_marks_above_ascii(marks[i]);
    }
    assert forall|i: int| 0 <= i < rest.len() implies (#[trigger] rest[i]) != '.' by {
        lemma_marks_above_ascii(rest[i]);
    }
    let m = a.len() + 1 + marks.len();
    let n = a.len() + 1 + rest.len();
    assert forall|i: int| m <= i < s.len() implies #[trigger] s[i] == b[i - m] by {}
    assert forall|i: int| n <= i < t.len() implies #[trigger] t[i] == b[i - n] by {}
    if d >= 0 {
        lemma_is_last_index(s, '.', m + d);
        lemma_is_last_index(t, '.', n + d);
        assert(name_stem(s) =~= a + (seq![letter] + marks + b.take(d)));
        assert(name_stem(t) =~= a + (seq![whole] + rest + b.take(d)));
        assert(name_extension(s) =~= b.skip(d + 1));
        assert(name_extension(t) =~= b.skip(d + 1));
        lemma_kept_composed(a, letter, marks, at, whole, rest, b.take(d));
    } else {
        assert(!a.contains('.')) by {
            if b.contains('.') {
                let i = choose|i: int| 0 <= i < b.len() && b[i] == '.';
                assert(b[i] != '.');
            }
        }
        assert forall|i: int| 0 <= i < s.len() implies (#[trigger] s[i]) != '.' by {
            if i < a.len() {
                assert(a.contains(a[i]));
            } else if i > a.len() && i < m {
                assert(s[i] == marks[i - a.len() - 1]);
            }
        }
        assert forall|i: int| 0 <= i < t.len() implies (#[trigger] t[i]) != '.' by {
            if i < a.len() {
                assert(a.contains(a[i]));
            } else if i > a.len() && i < n {
                assert(t[i] == rest[i - a.len() - 1]);
            }
        }
        lemma_is_last_index(s, '.', -1);
        lemma_is_last_index(t, '.', -1);
        lemma_kept_composed(a, letter, marks, at, whole, rest, b);
    }
}

/// The final part of a plain path is a plain path and its own final part, unless it
/// begins with a drive letter.
pub(crate) proof fn lemma_final_part_again(path: Seq<char>)
    requires
        !path.contains('\\'),
        final_part(path) is Some,
        !has_drive(final_part(path)->Some_0),
    ensures
        plain_path(final_part(path)->Some_0),
        final_part(final_part(path)->Some_0) == final_part(path),
    decreases path.len(),
{
    let slash = last_index(path, '/');
    let part = last_segment(path);
    lemma_last_index(path, '/');
    if part.len() == 0 || part == seq!['.'] {
        let before = path.take(slash);
        if before.contains('\\') {
            let i = choose|i: int| 0 <= i < before.len() && before[i] == '\\';
            assert(path.contains(path[i]));
        }
        lemma_final_part_again(before);
    } else {
        assert forall|i: int| 0 <= i < part.len() implies (#[trigger] part[i]) != '/' && part[i]
            != '\\' by {
            assert(part[i] == path[slash + 1 + i]);
            assert(path.contains(path[slash + 1 + i]));
        }
        lemma_is_last_index(part, '/', -1);
        assert(part.skip(0) =~= part);
    }
}

/// Whether two file names have one sanitized name.
pub open spec fn same_file(s: Seq<char>, t: Seq<char>) -> bool {
    sanitized(s, Some(s)) == sanitized(t, Some(t))
}

/// A cue sheet and the extracted files agree: a `FILE` line that named an entry of
/// the archive, with or without directories in front and with its accents written
/// in either way, refers once rewritten to the very file that the entry is written
/// to.
pub proof fn lemma_reference_names_file(
    line: Seq<char>,
    name: Seq<char>,
    entry: Seq<char>,
    f: Option<Seq<char>>,
    plan: PlannedEntry,
)
    requires
        plain_path(name),
        plain_path(entry),
        final_part(name) is Some,
        final_part(entry) is Some,
        !has_drive(final_part(entry)->Some_0),
        same_file(final_part(name)->Some_0, final_part(entry)->Some_0),
        disc_file(entry),
        referenced(line) == Some(name),
        possible_file_name(name, f),
        possible_zip_plan(entry, true, plan),
    ensures
        plan matches PlannedEntry::Extract(to, cue) && referenced(cue_line(line, f)) == Some(to)
            && cue == cue_file(entry),
{
    lemma_rewritten_reference(line, f);
    lemma_final_part_again(entry);
    let (a, b) = choose|a: Option<Seq<char>>, b: Option<Seq<char>>| #[trigger]
        possible_file_name(entry, a) && #[trigger] possible_again(a, b) && plan == zip_plan(
            entry,
            true,
            a,
            b,
        );
    assert(a == final_part(entry));
    assert(b == final_part(entry));
}

/// A cue sheet and the files extracted from a 7z archive agree in the same way.
pub proof fn lemma_reference_names_7z_file(
    line: Seq<char>,
    name: Seq<char>,
    entry: Seq<char>,
    f: Option<Seq<char>>,
    plan: PlannedEntry,
)
    requires
        plain_path(name),
        plain_path(entry),
        final_part(name) is Some,
        final_part(entry) is Some,
        !has_drive(final_part(entry)->Some_0),
        same_file(final_part(name)->Some_0, final_part(entry)->Some_0),
        disc_file(entry),
        referenced(line) == Some(name),
        possible_file_name(name, f),
        possible_7z_plan(entry, false, plan),
    ensures
        plan matches PlannedEntry::Extract(to, cue) && referenced(cue_line(line, f)) == Some(to)
            && cue == cue_file(entry),
{
    lemma_rewritten_reference(line, f);
    lemma_final_part_again(entry);
    let (a, b) = choose|a: Option<Seq<char>>, b: Option<Seq<char>>| #[trigger]
        possible_file_name(entry, a) && #[trigger] possible_file_name(
            seen_name(a, entry),
            b,
        ) && plan == sevenz_plan(entry, false, seen_name(a, entry), b);
    assert(a == final_part(entry));
    assert(b == final_part(entry));
}

} // verus!
