//! What the text functions mean: lines and joining, searching, trimming, case and
//! numbers.

use crate::text::{
    ascii_lower, ascii_upper, decimal, decimal2, digit, ends_with, first_index, joined,
    lemma_decimal_digits, lemma_first_index, lemma_is_first_index, lemma_trim_left,
    lemma_trim_right, lines, lower, occurs, stands_at, starts_with, texts, trim, upper, white,
    white_space,
};
use vstd::prelude::*;

verus! {

// ── Lines ───────────────────────────────────────────────────────────────────

/// A text up to its first line feed is its first line, without a carriage return at
/// its end. What follows has the other lines.
pub proof fn lemma_first_line(line: Seq<char>, rest: Seq<char>)
    requires
        !line.contains('\n'),
    ensures
        lines(line + seq!['\n'] + rest) == seq![
            if line.len() > 0 && line.last() == '\r' {
                line.drop_last()
            } else {
                line
            },
        ] + lines(rest),
{
    let s = line + seq!['\n'] + rest;
    let n = line.len() as int;
    assert forall|i: int| 0 <= i < n implies s[i] != '\n' by {
        assert(line.contains(line[i]));
    }
    assert(s[n] == '\n');
    lemma_is_first_index(s, '\n', n);
    assert(s.take(n) =~= line);
    assert(s.skip(n + 1) =~= rest);
}

/// A text without a line feed is one line as it is, or none if it is empty.
pub proof fn lemma_last_line(line: Seq<char>)
    requires
        !line.contains('\n'),
    ensures
        line.len() > 0 ==> lines(line) == seq![line],
        line.len() == 0 ==> lines(line).len() == 0,
{
    lemma_first_index(line, '\n');
    if first_index(line, '\n') < line.len() {
        assert(line.contains(line[first_index(line, '\n') as int]));
    }
}

/// Joined texts stand one after the other, with the separator between each two.
pub proof fn lemma_joined(list: Seq<Seq<char>>, x: Seq<char>, sep: Seq<char>)
    ensures
        joined(seq![], sep) == Seq::<char>::empty(),
        joined(seq![x], sep) == x,
        list.len() > 0 ==> joined(list.push(x), sep) == joined(list, sep) + sep + x,
{
    assert(list.push(x).drop_last() =~= list);
}

/// Texts are joined from the front just as from the back.
proof fn lemma_joined_front(x: Seq<char>, list: Seq<Seq<char>>, sep: Seq<char>)
    requires
        list.len() > 0,
    ensures
        joined(seq![x] + list, sep) == x + sep + joined(list, sep),
    decreases list.len(),
{
    let all = seq![x] + list;
    assert(all.drop_last() =~= seq![x] + list.drop_last());
    assert(all.last() == list.last());
    if list.len() == 1 {
        assert(all.drop_last() =~= seq![x]);
        assert(joined(seq![x], sep) == x);
        assert(joined(list, sep) == list[0]);
        assert(joined(all, sep) =~= x + sep + joined(list, sep));
    } else {
        lemma_joined_front(x, list.drop_last(), sep);
        assert(joined(all, sep) =~= x + sep + joined(list, sep));
    }
}

/// Lines that are joined with line feeds are read back as they were. None of them has
/// a line feed in it or a carriage return at its end, and the last is not empty.
pub proof fn lemma_joined_lines_read_back(list: Seq<Seq<char>>)
    requires
        list.len() > 0,
        list.last().len() > 0,
        forall|i: int|
            0 <= i < list.len() ==> !(#[trigger] list[i]).contains('\n') && !(list[i].len() > 0
                && list[i].last() == '\r'),
    ensures
        lines(joined(list, seq!['\n'])) == list,
    decreases list.len(),
{
    let first = list[0];
    if list.len() == 1 {
        assert(list =~= seq![first]);
        lemma_last_line(first);
    } else {
        let rest = list.drop_first();
        assert(list =~= seq![first] + rest);
        assert forall|i: int| 0 <= i < rest.len() implies !(#[trigger] rest[i]).contains('\n')
            && !(rest[i].len() > 0 && rest[i].last() == '\r') by {
            assert(rest[i] == list[i + 1]);
        }
        assert(rest.last() == list.last());
        lemma_joined_lines_read_back(rest);
        lemma_joined_front(first, rest, seq!['\n']);
        lemma_first_line(first, joined(rest, seq!['\n']));
    }
}

// ── Searching ───────────────────────────────────────────────────────────────

/// A text begins with, ends with or holds another exactly if it is made of it and
/// what stands around it.
pub proof fn lemma_parts(before: Seq<char>, part: Seq<char>, after: Seq<char>)
    ensures
        starts_with(part + after, part),
        ends_with(before + part, part),
        occurs(before + part + after, part),
{
    assert((part + after).subrange(0, part.len() as int) =~= part);
    let s = before + part;
    assert(s.subrange(before.len() as int, s.len() as int) =~= part);
    let t = before + part + after;
    assert(t.subrange(before.len() as int, (before.len() + part.len()) as int) =~= part);
    assert(stands_at(t, part, before.len() as int));
}

/// Nothing else counts as a beginning, an end or a part.
pub proof fn lemma_parts_only(s: Seq<char>, part: Seq<char>)
    ensures
        starts_with(s, part) ==> part.len() <= s.len() && s == part + s.skip(part.len() as int),
        ends_with(s, part) ==> part.len() <= s.len() && s == s.take(s.len() - part.len()) + part,
        occurs(s, part) ==> exists|at: int|
            0 <= at && at + part.len() <= s.len() && s == #[trigger] s.take(at) + part + s.skip(
                at + part.len(),
            ),
{
    if starts_with(s, part) {
        assert(s =~= s.subrange(0, part.len() as int) + s.skip(part.len() as int));
    }
    if ends_with(s, part) {
        let n = s.len() - part.len();
        assert(s =~= s.take(n) + s.subrange(n, s.len() as int));
    }
    if occurs(s, part) {
        let at = choose|at: int| stands_at(s, part, at);
        assert(s =~= s.take(at) + s.subrange(at, at + part.len()) + s.skip(at + part.len()));
    }
}

// ── Trimming ────────────────────────────────────────────────────────────────

/// Trimming takes away the white space around a text, and nothing of a text that
/// neither begins nor ends with white space.
pub proof fn lemma_trimmed(before: Seq<char>, core: Seq<char>, after: Seq<char>)
    requires
        forall|i: int| 0 <= i < before.len() ==> white_space(#[trigger] before[i]),
        forall|i: int| 0 <= i < after.len() ==> white_space(#[trigger] after[i]),
        core.len() > 0 ==> !white_space(core[0]) && !white_space(core.last()),
    ensures
        trim(before + core + after) == core,
{
    let s = before + core + after;
    let k = lemma_trim_left(s, white());
    let left = s.skip(k);
    let m = lemma_trim_right(left, white());
    let a = before.len() as int;
    let b = a + core.len();
    if core.len() > 0 {
        assert(s[a] == core[0]);
        assert(s[b - 1] == core.last());
        assert(k == a) by {
            if k < a {
                assert(white()(before[k]));
                assert(s[k] == before[k]);
            }
            if a < k {
                assert(white()(s[a]));
            }
        }
        assert(m == core.len()) by {
            if m < core.len() {
                assert(white()(left[core.len() - 1]));
                assert(left[core.len() - 1] == s[b - 1]);
            }
            if core.len() < m {
                assert(left[m - 1] == s[a + m - 1]);
                assert(s[a + m - 1] == after[a + m - 1 - b]);
                assert(white_space(after[a + m - 1 - b]));
            }
        }
        assert(left.take(m) =~= core);
    } else {
        assert(k == s.len()) by {
            if k < s.len() {
                if k < a {
                    assert(s[k] == before[k]);
                } else {
                    assert(s[k] == after[k - a]);
                }
            }
        }
        assert(left.take(m) =~= core);
    }
}

// ── Case ────────────────────────────────────────────────────────────────────

/// Upper and lower case differ by 32 in the ASCII letters, and nowhere else; a text
/// changes case letter by letter.
pub proof fn lemma_case(s: Seq<char>, i: int)
    requires
        0 <= i < s.len(),
    ensures
        lower(s).len() == s.len() && upper(s).len() == s.len(),
        lower(s)[i] == ascii_lower(s[i]) && upper(s)[i] == ascii_upper(s[i]),
        65 <= s[i] as u32 <= 90 ==> lower(s)[i] as u32 == s[i] as u32 + 32,
        !(65 <= s[i] as u32 <= 90) ==> lower(s)[i] == s[i],
        97 <= s[i] as u32 <= 122 ==> upper(s)[i] as u32 == s[i] as u32 - 32,
        !(97 <= s[i] as u32 <= 122) ==> upper(s)[i] == s[i],
{
}

// ── Numbers ─────────────────────────────────────────────────────────────────

/// The number that a row of digits stands for.
pub open spec fn digits_value(s: Seq<char>) -> int
    decreases s.len(),
{
    if s.len() == 0 {
        0
    } else {
        10 * digits_value(s.drop_last()) + (s.last() as u32 - 48)
    }
}

/// A number in decimal notation stands for that number, without a leading zero but
/// for zero itself. With two digits at least it stands for it too, and a leading zero
/// is there only to make up the second digit.
pub proof fn lemma_decimal_value(n: nat)
    ensures
        digits_value(decimal(n)) == n,
        n > 0 ==> decimal(n)[0] != '0',
        decimal(n).len() > 0,
        n < 10 ==> decimal(n).len() == 1,
        digits_value(decimal2(n)) == n,
        decimal2(n).len() >= 2,
        decimal2(n).len() > 2 ==> decimal2(n)[0] != '0',
    decreases n,
{
    assert(digit(n % 10) as u32 == 48 + n % 10);
    if n < 10 {
        assert(decimal(n).drop_last() =~= seq![]);
        assert(decimal2(n).drop_last() =~= seq!['0']);
        assert(seq!['0'].drop_last() =~= seq![]);
        assert(digits_value(seq![]) == 0);
        assert(digits_value(seq!['0']) == 0);
    } else {
        lemma_decimal_value(n / 10);
        lemma_decimal_digits(n / 10);
        assert(decimal(n).drop_last() =~= decimal(n / 10));
        assert(decimal(n)[0] == decimal(n / 10)[0]);
    }
}

// ── Lists ───────────────────────────────────────────────────────────────────

/// The texts of a list of strings stand in the order of the strings.
pub proof fn lemma_texts(list: Seq<String>, i: int)
    requires
        0 <= i < list.len(),
    ensures
        texts(list).len() == list.len(),
        texts(list)[i] == list[i]@,
{
}

/// What occurs in a text occurs in a longer one around it.
pub proof fn lemma_occurs_within(before: Seq<char>, s: Seq<char>, after: Seq<char>, part: Seq<char>)
    requires
        occurs(s, part),
    ensures
        occurs(before + s + after, part),
{
    let at = choose|at: int| stands_at(s, part, at);
    let whole = before + s + after;
    let n = before.len() + at;
    assert(whole.subrange(n, n + part.len()) =~= s.subrange(at, at + part.len()));
    assert(stands_at(whole, part, n));
}

/// Each of the texts occurs in what joining them gives.
pub proof fn lemma_joined_holds(list: Seq<Seq<char>>, sep: Seq<char>, i: int)
    requires
        0 <= i < list.len(),
    ensures
        occurs(joined(list, sep), list[i]),
    decreases list.len(),
{
    let all = joined(list, sep);
    if i == list.len() - 1 {
        let n = all.len() - list[i].len();
        assert(all.subrange(n, n + list[i].len()) =~= list[i]);
        assert(stands_at(all, list[i], n));
    } else {
        let rest = joined(list.drop_last(), sep);
        lemma_joined_holds(list.drop_last(), sep, i);
        lemma_occurs_within(seq![], rest, sep + list.last(), list[i]);
        assert(all =~= seq![] + rest + (sep + list.last()));
    }
}

} // verus!
