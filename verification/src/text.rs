//! Text as sequences of characters: trimming, lines, numbers, and the few
//! operations of the standard library that are taken on trust.

use vstd::prelude::*;

verus! {

// ── Strings and characters ──────────────────────────────────────────────────

/// `String::push` appends the given character to the end of the string.
pub assume_specification[ String::push ](s: &mut String, c: char)
    ensures
        final(s)@ == old(s)@.push(c),
;

/// The text that bytes decode to when each invalid UTF-8 sequence is replaced
/// by U+FFFD, as `String::from_utf8_lossy` does it.
pub uninterp spec fn lossy_text(bytes: Seq<u8>) -> Seq<char>;

/// Decodes bytes with `String::from_utf8_lossy`. The result depends on the
/// bytes alone, and valid UTF-8 is decoded as it stands. Which sequences of
/// invalid bytes are replaced together is left unsaid.
#[verifier::external_body]
pub(crate) fn decode_lossy(bytes: &[u8]) -> (text: String)
    ensures
        text@ == lossy_text(bytes@),
        vstd::utf8::valid_utf8(bytes@) ==> text@ == vstd::utf8::decode_utf8(bytes@),
{
    String::from_utf8_lossy(bytes).into_owned()
}

/// The characters of a string.
pub fn chars_of(s: &str) -> (chars: Vec<char>)
    ensures
        chars@ == s@,
{
    let mut chars: Vec<char> = Vec::new();
    for c in iter: s.chars()
        invariant
            iter.seq() == s@,
            chars@ == s@.take(iter.index() as int),
    {
        chars.push(c);
        assert(s@.take(iter.index() as int).push(c) =~= s@.take(iter.index() as int + 1));
    }
    assert(s@.take(s@.len() as int) =~= s@);
    chars
}

/// The string that holds the characters from `from` up to `to`.
pub fn string_of(chars: &Vec<char>, from: usize, to: usize) -> (s: String)
    requires
        from <= to <= chars@.len(),
    ensures
        s@ == chars@.subrange(from as int, to as int),
{
    let mut s = String::new();
    let mut i: usize = from;
    while i < to
        invariant
            from <= i <= to <= chars@.len(),
            s@ == chars@.subrange(from as int, i as int),
        decreases to - i,
    {
        s.push(chars[i]);
        i += 1;
        assert(chars@.subrange(from as int, i as int) =~= chars@.subrange(
            from as int,
            i - 1,
        ).push(chars@[i - 1]));
    }
    s
}

/// The characters with the Unicode property White_Space.
pub open spec fn white_space(c: char) -> bool {
    let u = c as u32;
    ||| 0x09 <= u <= 0x0D
    ||| u == 0x20
    ||| u == 0x85
    ||| u == 0xA0
    ||| u == 0x1680
    ||| 0x2000 <= u <= 0x200A
    ||| u == 0x2028
    ||| u == 0x2029
    ||| u == 0x202F
    ||| u == 0x205F
    ||| u == 0x3000
}

/// `char::is_whitespace` tells whether a character has the Unicode property
/// White_Space, which is written out in [`white_space`].
pub assume_specification[ char::is_whitespace ](c: char) -> (r: bool)
    ensures
        r == white_space(c),
;

/// The characters of the Unicode general category Cc.
pub open spec fn control_char(c: char) -> bool {
    c as u32 <= 0x1F || 0x7F <= c as u32 <= 0x9F
}

/// `char::is_control` tells whether a character has the Unicode general
/// category Cc, which is written out in [`control_char`].
pub assume_specification[ char::is_control ](c: char) -> (r: bool)
    ensures
        r == control_char(c),
;

// ── Trimming ────────────────────────────────────────────────────────────────

/// `s` without the leading characters that `drop` holds of.
pub open spec fn trim_left(s: Seq<char>, drop: spec_fn(char) -> bool) -> Seq<char>
    decreases s.len(),
{
    if s.len() > 0 && drop(s[0]) {
        trim_left(s.drop_first(), drop)
    } else {
        s
    }
}

/// `s` without the trailing characters that `drop` holds of.
pub open spec fn trim_right(s: Seq<char>, drop: spec_fn(char) -> bool) -> Seq<char>
    decreases s.len(),
{
    if s.len() > 0 && drop(s.last()) {
        trim_right(s.drop_last(), drop)
    } else {
        s
    }
}

/// What trimming on the left leaves is a rest of `s`, from the first character
/// that stays.
pub proof fn lemma_trim_left(s: Seq<char>, drop: spec_fn(char) -> bool) -> (k: int)
    ensures
        0 <= k <= s.len(),
        trim_left(s, drop) == s.skip(k),
        forall|i: int| 0 <= i < k ==> drop(#[trigger] s[i]),
        k < s.len() ==> !drop(s[k]),
    decreases s.len(),
{
    if s.len() > 0 && drop(s[0]) {
        let k = lemma_trim_left(s.drop_first(), drop);
        assert(s.drop_first().skip(k) =~= s.skip(k + 1));
        assert forall|i: int| 0 <= i < k + 1 implies drop(#[trigger] s[i]) by {
            if i > 0 {
                assert(s[i] == s.drop_first()[i - 1]);
            }
        }
        k + 1
    } else {
        assert(s.skip(0) =~= s);
        0
    }
}

/// What trimming on the right leaves is the beginning of `s`, up to the last
/// character that stays.
pub proof fn lemma_trim_right(s: Seq<char>, drop: spec_fn(char) -> bool) -> (k: int)
    ensures
        0 <= k <= s.len(),
        trim_right(s, drop) == s.take(k),
        forall|i: int| k <= i < s.len() ==> drop(#[trigger] s[i]),
        k > 0 ==> !drop(s[k - 1]),
    decreases s.len(),
{
    if s.len() > 0 && drop(s.last()) {
        let k = lemma_trim_right(s.drop_last(), drop);
        assert(s.drop_last().take(k) =~= s.take(k));
        assert forall|i: int| k <= i < s.len() implies drop(#[trigger] s[i]) by {
            if i < s.len() - 1 {
                assert(s[i] == s.drop_last()[i]);
            }
        }
        k
    } else {
        assert(s.take(s.len() as int) =~= s);
        s.len() as int
    }
}

/// Being white space, as a function.
pub open spec fn white() -> spec_fn(char) -> bool {
    |c: char| white_space(c)
}

/// `s` without leading and trailing white space.
pub open spec fn trim(s: Seq<char>) -> Seq<char> {
    trim_right(trim_left(s, white()), white())
}

/// Where the trimmed part of `chars[from..to]` lies.
pub fn trim_range(chars: &Vec<char>, from: usize, to: usize) -> (r: (usize, usize))
    requires
        from <= to <= chars@.len(),
    ensures
        from <= r.0 <= r.1 <= to,
        chars@.subrange(r.0 as int, r.1 as int) == trim(chars@.subrange(from as int, to as int)),
{
    let ghost all = chars@.subrange(from as int, to as int);
    let mut a: usize = from;
    while a < to && chars[a].is_whitespace()
        invariant
            from <= a <= to <= chars@.len(),
            all == chars@.subrange(from as int, to as int),
            trim_left(all, white()) == trim_left(
                chars@.subrange(a as int, to as int),
                white(),
            ),
        decreases to - a,
    {
        assert(chars@.subrange(a as int, to as int).drop_first() =~= chars@.subrange(
            a + 1,
            to as int,
        ));
        a += 1;
    }
    let ghost left = chars@.subrange(a as int, to as int);
    assert(trim_left(all, white()) == left);
    let mut b: usize = to;
    while b > a && chars[b - 1].is_whitespace()
        invariant
            from <= a <= b <= to <= chars@.len(),
            trim_right(left, white()) == trim_right(
                chars@.subrange(a as int, b as int),
                white(),
            ),
        decreases b,
    {
        assert(chars@.subrange(a as int, b as int).drop_last() =~= chars@.subrange(
            a as int,
            b - 1,
        ));
        b -= 1;
    }
    (a, b)
}

// ── Lines ───────────────────────────────────────────────────────────────────

/// Where `c` first occurs in `s`; the length of `s` if it does not.
pub open spec fn first_index(s: Seq<char>, c: char) -> nat
    decreases s.len(),
{
    if s.len() == 0 || s[0] == c {
        0
    } else {
        1 + first_index(s.drop_first(), c)
    }
}

/// `s` without a carriage return at its end.
pub open spec fn without_return(s: Seq<char>) -> Seq<char> {
    if s.len() > 0 && s.last() == '\r' {
        s.drop_last()
    } else {
        s
    }
}

/// The lines of a text. A line ends with a line feed, or with a carriage return
/// and a line feed; the last line need not have an ending.
pub open spec fn lines(s: Seq<char>) -> Seq<Seq<char>>
    decreases s.len(),
{
    let n = first_index(s, '\n');
    if s.len() == 0 {
        seq![]
    } else if n >= s.len() {
        seq![s]
    } else {
        seq![without_return(s.take(n as int))] + lines(s.skip(n as int + 1))
    }
}

/// The first occurrence is what its name says.
pub proof fn lemma_first_index(s: Seq<char>, c: char)
    ensures
        first_index(s, c) <= s.len(),
        first_index(s, c) < s.len() ==> s[first_index(s, c) as int] == c,
        forall|i: int| 0 <= i < first_index(s, c) ==> s[i] != c,
    decreases s.len(),
{
    if s.len() > 0 && s[0] != c {
        lemma_first_index(s.drop_first(), c);
        assert forall|i: int| 0 <= i < first_index(s, c) implies s[i] != c by {
            if i > 0 {
                assert(s[i] == s.drop_first()[i - 1]);
            }
        }
    }
}

/// A place that holds `c` with no `c` before it is the first.
pub proof fn lemma_is_first_index(s: Seq<char>, c: char, k: int)
    requires
        0 <= k <= s.len(),
        k < s.len() ==> s[k] == c,
        forall|i: int| 0 <= i < k ==> s[i] != c,
    ensures
        first_index(s, c) == k,
{
    lemma_first_index(s, c);
    let f = first_index(s, c) as int;
    if f < k {
        assert(s[f] != c);
    }
    if k < f {
        assert(s[k] != c);
    }
}

/// Where `c` first occurs in `chars[from..to]`; `to` if it does not.
pub fn find_char(chars: &Vec<char>, from: usize, to: usize, c: char) -> (r: usize)
    requires
        from <= to <= chars@.len(),
    ensures
        r == from + first_index(chars@.subrange(from as int, to as int), c),
        from <= r <= to,
{
    let ghost all = chars@.subrange(from as int, to as int);
    let mut i: usize = from;
    while i < to && chars[i] != c
        invariant
            from <= i <= to <= chars@.len(),
            all == chars@.subrange(from as int, to as int),
            forall|j: int| 0 <= j < i - from ==> all[j] != c,
        decreases to - i,
    {
        i += 1;
    }
    proof {
        lemma_is_first_index(all, c, i - from);
    }
    i
}

/// The line that starts at `from`: where it ends, its ending not counted, and
/// where the next line starts.
pub fn line_at(chars: &Vec<char>, from: usize) -> (r: (usize, usize))
    requires
        from < chars@.len(),
    ensures
        from <= r.0 <= r.1 <= chars@.len(),
        from < r.1,
        lines(chars@.skip(from as int)) == seq![chars@.subrange(from as int, r.0 as int)] + lines(
            chars@.skip(r.1 as int),
        ),
{
    let ghost s = chars@.skip(from as int);
    let n: usize = chars.len();
    let feed: usize = find_char(chars, from, n, '\n');
    assert(chars@.subrange(from as int, n as int) =~= s);
    if feed == n {
        assert(chars@.skip(n as int) =~= Seq::<char>::empty());
        assert(lines(chars@.skip(n as int)) =~= Seq::<Seq<char>>::empty());
        assert(lines(s) =~= seq![chars@.subrange(from as int, n as int)] + lines(
            chars@.skip(n as int),
        ));
        (n, n)
    } else {
        assert(s.take(feed - from) =~= chars@.subrange(from as int, feed as int));
        assert(s.skip(feed - from + 1) =~= chars@.skip(feed + 1));
        if feed > from && chars[feed - 1] == '\r' {
            assert(without_return(s.take(feed - from)) =~= chars@.subrange(
                from as int,
                feed - 1,
            ));
            (feed - 1, feed + 1)
        } else {
            (feed, feed + 1)
        }
    }
}

/// Splits a text into its lines.
pub fn lines_of(s: &str) -> (r: Vec<String>)
    ensures
        texts(r@) == lines(s@),
{
    let chars: Vec<char> = chars_of(s);
    let mut r: Vec<String> = Vec::new();
    let mut from: usize = 0;
    assert(chars@.skip(0) =~= s@);
    while from < chars.len()
        invariant
            from <= chars@.len(),
            chars@ == s@,
            lines(s@) == texts(r@) + lines(chars@.skip(from as int)),
        decreases chars@.len() - from,
    {
        let (end, next) = line_at(&chars, from);
        let ghost before = texts(r@);
        r.push(string_of(&chars, from, end));
        assert(texts(r@) =~= before.push(chars@.subrange(from as int, end as int)));
        assert(before + (seq![chars@.subrange(from as int, end as int)] + lines(
            chars@.skip(next as int),
        )) =~= texts(r@) + lines(chars@.skip(next as int)));
        from = next;
    }
    assert(lines(chars@.skip(from as int)) =~= Seq::<Seq<char>>::empty());
    assert(texts(r@) =~= lines(s@));
    r
}

/// Where `c` last occurs in `s`; -1 if it does not.
pub open spec fn last_index(s: Seq<char>, c: char) -> int
    decreases s.len(),
{
    if s.len() == 0 {
        -1
    } else if s.last() == c {
        s.len() - 1
    } else {
        last_index(s.drop_last(), c)
    }
}

/// The last occurrence is what its name says.
pub proof fn lemma_last_index(s: Seq<char>, c: char)
    ensures
        -1 <= last_index(s, c) < s.len(),
        last_index(s, c) >= 0 ==> s[last_index(s, c)] == c,
        forall|i: int| last_index(s, c) < i < s.len() ==> s[i] != c,
    decreases s.len(),
{
    if s.len() > 0 && s.last() != c {
        lemma_last_index(s.drop_last(), c);
        assert forall|i: int| last_index(s, c) < i < s.len() implies s[i] != c by {
            if i < s.len() - 1 {
                assert(s[i] == s.drop_last()[i]);
            }
        }
    }
}

/// A place that holds `c` with no `c` behind it is the last.
pub proof fn lemma_is_last_index(s: Seq<char>, c: char, k: int)
    requires
        -1 <= k < s.len(),
        k >= 0 ==> s[k] == c,
        forall|i: int| k < i < s.len() ==> s[i] != c,
    ensures
        last_index(s, c) == k,
{
    lemma_last_index(s, c);
    let l = last_index(s, c);
    if l < k {
        assert(s[k] != c);
    }
    if k < l {
        assert(s[l] != c);
    }
}

/// Where `c` last occurs in `chars`, if it does.
pub fn find_last_char(chars: &Vec<char>, c: char) -> (r: Option<usize>)
    ensures
        match r {
            Some(i) => i == last_index(chars@, c) && i < chars@.len(),
            None => last_index(chars@, c) == -1,
        },
{
    let mut i: usize = chars.len();
    while i > 0
        invariant
            i <= chars@.len(),
            forall|j: int| i <= j < chars@.len() ==> chars@[j] != c,
        decreases i,
    {
        i -= 1;
        if chars[i] == c {
            proof {
                lemma_is_last_index(chars@, c, i as int);
            }
            return Some(i);
        }
    }
    proof {
        lemma_is_last_index(chars@, c, -1);
    }
    None
}

// ── Searching ───────────────────────────────────────────────────────────────

/// Whether `part` stands in `s` at place `at`.
pub open spec fn stands_at(s: Seq<char>, part: Seq<char>, at: int) -> bool {
    0 <= at && at + part.len() <= s.len() && s.subrange(at, at + part.len()) == part
}

/// Whether `part` occurs in `s`.
pub open spec fn occurs(s: Seq<char>, part: Seq<char>) -> bool {
    exists|at: int| stands_at(s, part, at)
}

/// Whether `part` stands in `s` at place `at`.
pub fn holds_at(s: &Vec<char>, part: &Vec<char>, at: usize) -> (r: bool)
    ensures
        r == stands_at(s@, part@, at as int),
{
    if at > s.len() || part.len() > s.len() - at {
        return false;
    }
    let mut i: usize = 0;
    while i < part.len()
        invariant
            i <= part@.len(),
            at + part.len() <= s.len(),
            forall|j: int| 0 <= j < i ==> s@[at + j] == part@[j],
        decreases part@.len() - i,
    {
        if s[at + i] != part[i] {
            assert(s@.subrange(at as int, at + part@.len())[i as int] != part@[i as int]);
            return false;
        }
        i += 1;
    }
    assert(s@.subrange(at as int, at + part@.len()) =~= part@);
    true
}

/// Whether `part` occurs in `s`.
pub fn contains(s: &Vec<char>, part: &Vec<char>) -> (r: bool)
    ensures
        r == occurs(s@, part@),
{
    let n: usize = s.len();
    let mut at: usize = 0;
    loop
        invariant
            at <= n == s@.len(),
            forall|k: int| 0 <= k < at ==> !stands_at(s@, part@, k),
        decreases n - at,
    {
        if holds_at(s, part, at) {
            return true;
        }
        if at == n {
            return false;
        }
        at += 1;
    }
}

/// Whether `s` begins with `part`.
pub open spec fn starts_with(s: Seq<char>, part: Seq<char>) -> bool {
    stands_at(s, part, 0)
}

/// Whether `s` ends with `part`.
pub open spec fn ends_with(s: Seq<char>, part: Seq<char>) -> bool {
    stands_at(s, part, s.len() - part.len())
}

/// Whether `s` ends with `part`.
pub fn has_end(s: &Vec<char>, part: &str) -> (r: bool)
    ensures
        r == ends_with(s@, part@),
{
    let part: Vec<char> = chars_of(part);
    part.len() <= s.len() && holds_at(s, &part, s.len() - part.len())
}

// ── ASCII case ──────────────────────────────────────────────────────────────

/// A letter `a` to `z` in upper case; any other character as it is.
pub open spec fn ascii_upper(c: char) -> char {
    if 'a' <= c <= 'z' {
        (c as u8 - 32) as char
    } else {
        c
    }
}

/// A letter `A` to `Z` in lower case; any other character as it is.
pub open spec fn ascii_lower(c: char) -> char {
    if 'A' <= c <= 'Z' {
        (c as u8 + 32) as char
    } else {
        c
    }
}

/// A text in ASCII upper case.
pub open spec fn upper(s: Seq<char>) -> Seq<char> {
    s.map_values(|c: char| ascii_upper(c))
}

/// A text in ASCII lower case.
pub open spec fn lower(s: Seq<char>) -> Seq<char> {
    s.map_values(|c: char| ascii_lower(c))
}

/// The characters of `chars[from..to]` in ASCII upper case.
pub fn to_upper(chars: &Vec<char>, from: usize, to: usize) -> (r: Vec<char>)
    requires
        from <= to <= chars@.len(),
    ensures
        r@ == upper(chars@.subrange(from as int, to as int)),
{
    let mut r: Vec<char> = Vec::new();
    let mut i: usize = from;
    while i < to
        invariant
            from <= i <= to <= chars@.len(),
            r@ == upper(chars@.subrange(from as int, i as int)),
        decreases to - i,
    {
        let c: char = chars[i];
        let u: char = if 'a' <= c && c <= 'z' {
            (c as u8 - 32) as char
        } else {
            c
        };
        r.push(u);
        i += 1;
        assert(r@ =~= upper(chars@.subrange(from as int, i as int)));
    }
    r
}

/// The characters of `s` in ASCII lower case.
pub fn to_lower(s: &str) -> (r: Vec<char>)
    ensures
        r@ == lower(s@),
{
    let chars: Vec<char> = chars_of(s);
    let mut r: Vec<char> = Vec::new();
    let mut i: usize = 0;
    while i < chars.len()
        invariant
            i <= chars@.len(),
            chars@ == s@,
            r@ == lower(chars@.take(i as int)),
        decreases chars@.len() - i,
    {
        let c: char = chars[i];
        let l: char = if 'A' <= c && c <= 'Z' {
            (c as u8 + 32) as char
        } else {
            c
        };
        r.push(l);
        i += 1;
        assert(r@ =~= lower(chars@.take(i as int)));
    }
    assert(chars@.take(i as int) =~= s@);
    r
}

// ── Joining ─────────────────────────────────────────────────────────────────

/// The texts of a list, one after the other, with `sep` between them.
pub open spec fn joined(list: Seq<Seq<char>>, sep: Seq<char>) -> Seq<char>
    decreases list.len(),
{
    if list.len() == 0 {
        seq![]
    } else if list.len() == 1 {
        list[0]
    } else {
        joined(list.drop_last(), sep) + sep + list.last()
    }
}

/// The texts that a list of strings holds.
pub open spec fn texts(list: Seq<String>) -> Seq<Seq<char>> {
    list.map_values(|s: String| s@)
}

/// Joins strings with `sep` between them.
pub fn join(list: &Vec<String>, sep: &str) -> (r: String)
    ensures
        r@ == joined(texts(list@), sep@),
{
    let mut r = String::new();
    let mut i: usize = 0;
    while i < list.len()
        invariant
            i <= list@.len(),
            r@ == joined(texts(list@).take(i as int), sep@),
        decreases list@.len() - i,
    {
        if i > 0 {
            r.append(sep);
        }
        r.append(list[i].as_str());
        i += 1;
        assert(texts(list@).take(i as int).drop_last() =~= texts(list@).take(i - 1));
    }
    assert(texts(list@).take(i as int) =~= texts(list@));
    r
}

// ── Numbers ─────────────────────────────────────────────────────────────────

/// A decimal digit.
pub open spec fn digit(d: nat) -> char {
    (48 + d) as u8 as char
}

/// A number in decimal notation.
pub open spec fn decimal(n: nat) -> Seq<char>
    decreases n,
{
    if n < 10 {
        seq![digit(n)]
    } else {
        decimal(n / 10).push(digit(n % 10))
    }
}

/// A number in decimal notation, with a leading zero if it has one digit.
pub open spec fn decimal2(n: nat) -> Seq<char> {
    if n < 10 {
        seq!['0', digit(n)]
    } else {
        decimal(n)
    }
}

/// Decimal notation is made of digits.
pub proof fn lemma_decimal_digits(n: nat)
    ensures
        decimal(n).len() > 0,
        forall|i: int| 0 <= i < decimal(n).len() ==> '0' <= #[trigger] decimal(n)[i] <= '9',
    decreases n,
{
    if n >= 10 {
        lemma_decimal_digits(n / 10);
        assert forall|i: int| 0 <= i < decimal(n).len() implies '0' <= #[trigger] decimal(n)[i]
            <= '9' by {
            if i < decimal(n / 10).len() {
                assert(decimal(n)[i] == decimal(n / 10)[i]);
            }
        }
    }
}

/// Decimal notation with a leading zero is made of digits too, at least two.
pub proof fn lemma_decimal2_digits(n: nat)
    ensures
        decimal2(n).len() >= 2,
        forall|i: int| 0 <= i < decimal2(n).len() ==> '0' <= #[trigger] decimal2(n)[i] <= '9',
{
    lemma_decimal_digits(n);
    if n >= 10 {
        lemma_decimal_digits(n / 10);
    }
}

/// Different numbers are written differently.
pub proof fn lemma_decimal_tells_apart(a: nat, b: nat)
    requires
        decimal(a) == decimal(b),
    ensures
        a == b,
    decreases a,
{
    lemma_decimal_digits(a / 10);
    lemma_decimal_digits(b / 10);
    assert(decimal(a).last() == digit(a % 10));
    assert(decimal(b).last() == digit(b % 10));
    assert(digit(a % 10) as u32 == 48 + a % 10);
    assert(digit(b % 10) as u32 == 48 + b % 10);
    if a >= 10 && b >= 10 {
        assert(decimal(a).drop_last() =~= decimal(a / 10));
        assert(decimal(b).drop_last() =~= decimal(b / 10));
        lemma_decimal_tells_apart(a / 10, b / 10);
    } else if a >= 10 {
        assert(decimal(a).len() > 1);
    } else if b >= 10 {
        assert(decimal(b).len() > 1);
    }
}

/// Different numbers are written differently with a leading zero, too.
pub proof fn lemma_decimal2_tells_apart(a: nat, b: nat)
    requires
        decimal2(a) == decimal2(b),
    ensures
        a == b,
{
    assert(decimal2(a)[0] == decimal2(b)[0] && decimal2(a)[1] == decimal2(b)[1]);
    if a >= 10 && b >= 10 {
        lemma_decimal_tells_apart(a, b);
    } else if a >= 10 {
        lemma_leading_digit(a);
    } else if b >= 10 {
        lemma_leading_digit(b);
    }
}

proof fn lemma_leading_digit(n: nat)
    requires
        n >= 1,
    ensures
        decimal(n).len() > 0,
        decimal(n)[0] != '0',
    decreases n,
{
    if n >= 10 {
        lemma_leading_digit(n / 10);
    }
}

/// Writes a number in decimal notation.
pub fn number_text(n: u64) -> (r: String)
    ensures
        r@ == decimal(n as nat),
    decreases n,
{
    let last: char = (48u8 + (n % 10) as u8) as char;
    if n < 10 {
        let mut r = String::new();
        r.push(last);
        assert(r@ =~= decimal(n as nat));
        r
    } else {
        let mut r = number_text(n / 10);
        r.push(last);
        r
    }
}

/// Writes a number in decimal notation, with a leading zero if it has one
/// digit.
pub fn number_text2(n: u64) -> (r: String)
    ensures
        r@ == decimal2(n as nat),
{
    if n < 10 {
        let mut r = String::new();
        r.push('0');
        r.push((48u8 + n as u8) as char);
        assert(r@ =~= decimal2(n as nat));
        r
    } else {
        number_text(n)
    }
}

} // verus!
