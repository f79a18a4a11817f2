//! Character-level primitives shared by the log processing stages.

use vstd::prelude::*;

verus! {

/// `String::push` of std: the string afterwards holds what it held, then `c`.
pub assume_specification[ std::string::String::push ](s: &mut std::string::String, c: char)
    ensures
        final(s)@ == old(s)@.push(c),
;

/// Copies the characters of `s` into a vector.
pub fn chars_of(s: &str) -> (out: Vec<char>)
    ensures
        out@ == s@,
{
    let mut out: Vec<char> = Vec::new();
    for c in it: s.chars()
        invariant
            out@ == it.seq().take(it.index() as int),
            it.seq() == s@,
    {
        out.push(c);
    }
    out
}

/// Builds a string holding exactly the characters of `v`.
pub fn string_of(v: &Vec<char>) -> (out: String)
    ensures
        out@ == v@,
{
    let mut out = String::new();
    let mut i: usize = 0;
    while i < v.len()
        invariant
            i <= v.len(),
            out@ == v@.take(i as int),
        decreases v.len() - i,
    {
        out.push(v[i]);
        i = i + 1;
    }
    out
}

/// The character of a decimal digit `d`.
pub open spec fn digit_char(d: nat) -> char {
    if d == 0 { '0' } else if d == 1 { '1' } else if d == 2 { '2' } else if d == 3 { '3' }
    else if d == 4 { '4' } else if d == 5 { '5' } else if d == 6 { '6' } else if d == 7 { '7' }
    else if d == 8 { '8' } else { '9' }
}

/// The decimal numeral of `n`, without leading zeros.
pub open spec fn decimal(n: nat) -> Seq<char>
    decreases n,
{
    if n < 10 {
        seq![digit_char(n)]
    } else {
        decimal(n / 10).push(digit_char(n % 10))
    }
}

fn digit_of(d: usize) -> (c: char)
    requires
        d < 10,
    ensures
        c == digit_char(d as nat),
{
    if d == 0 { '0' } else if d == 1 { '1' } else if d == 2 { '2' } else if d == 3 { '3' }
    else if d == 4 { '4' } else if d == 5 { '5' } else if d == 6 { '6' } else if d == 7 { '7' }
    else if d == 8 { '8' } else { '9' }
}

/// Writes `n` in decimal.
pub fn decimal_chars(n: usize) -> (out: Vec<char>)
    ensures
        out@ == decimal(n as nat),
    decreases n,
{
    if n < 10 {
        let mut out: Vec<char> = Vec::new();
        out.push(digit_of(n));
        out
    } else {
        let mut out = decimal_chars(n / 10);
        out.push(digit_of(n % 10));
        out
    }
}

/// Whether `pat` occurs in `text` starting at position `at`.
pub open spec fn matches_at(text: Seq<char>, pat: Seq<char>, at: int) -> bool {
    0 <= at && at + pat.len() <= text.len() && text.subrange(at, at + pat.len()) == pat
}

/// Whether `pat` occurs somewhere in `text`.
pub open spec fn contains(text: Seq<char>, pat: Seq<char>) -> bool {
    exists|at: int| matches_at(text, pat, at)
}

/// The first position at or after `from` where `pat` occurs in `text`.
pub open spec fn find_from(text: Seq<char>, pat: Seq<char>, from: int) -> Option<int>
    decreases text.len() - from,
{
    if from < 0 || from + pat.len() > text.len() {
        None
    } else if matches_at(text, pat, from) {
        Some(from)
    } else if from >= text.len() {
        None
    } else {
        find_from(text, pat, from + 1)
    }
}

/// `find_from` returns the least match at or after `from`, and `None` only
/// where there is none.
pub proof fn lemma_find_from(text: Seq<char>, pat: Seq<char>, from: int)
    requires
        0 <= from,
    ensures
        match find_from(text, pat, from) {
            Some(k) => from <= k && matches_at(text, pat, k) && forall|j: int|
                from <= j < k ==> !matches_at(text, pat, j),
            None => forall|j: int| from <= j ==> !matches_at(text, pat, j),
        },
    decreases text.len() - from,
{
    if from + pat.len() > text.len() {
    } else if matches_at(text, pat, from) {
    } else if from >= text.len() {
        assert(text.subrange(from, from + pat.len()) =~= pat);
    } else {
        lemma_find_from(text, pat, from + 1);
    }
}

/// Whether `pat` occurs in `text` at `at`.
pub fn starts_at(text: &Vec<char>, pat: &Vec<char>, at: usize) -> (r: bool)
    ensures
        r == matches_at(text@, pat@, at as int),
{
    if pat.len() > text.len() || at > text.len() - pat.len() {
        return false;
    }
    let mut i: usize = 0;
    while i < pat.len()
        invariant
            i <= pat.len(),
            at + pat.len() <= text.len(),
            forall|j: int| 0 <= j < i ==> text@[at + j] == pat@[j],
        decreases pat.len() - i,
    {
        if text[at + i] != pat[i] {
            assert(text@.subrange(at as int, at + pat.len())[i as int] != pat@[i as int]);
            return false;
        }
        i = i + 1;
    }
    assert(text@.subrange(at as int, at + pat.len()) =~= pat@);
    true
}

/// The first position at or after `from` where `pat` occurs in `text`.
pub fn find_in(text: &Vec<char>, pat: &Vec<char>, from: usize) -> (r: Option<usize>)
    ensures
        match r {
            Some(k) => find_from(text@, pat@, from as int) == Some(k as int),
            None => find_from(text@, pat@, from as int) is None,
        },
{
    if pat.len() > text.len() {
        return None;
    }
    let last: usize = text.len() - pat.len();
    if from > last {
        return None;
    }
    let mut i: usize = from;
    loop
        invariant
            last == text.len() - pat.len(),
            from <= i <= last,
            find_from(text@, pat@, from as int) == find_from(text@, pat@, i as int),
        decreases last - i,
    {
        if starts_at(text, pat, i) {
            return Some(i);
        }
        if i >= last {
            proof {
                assert(find_from(text@, pat@, i + 1) is None);
            }
            return None;
        }
        i = i + 1;
    }
}

/// Whether `pat` occurs somewhere in `text`.
pub fn contains_pattern(text: &Vec<char>, pat: &Vec<char>) -> (r: bool)
    ensures
        r == contains(text@, pat@),
{
    let found = find_in(text, pat, 0);
    proof {
        lemma_find_from(text@, pat@, 0);
    }
    found.is_some()
}

/// The character sequences of a vector of rows.
pub open spec fn views(rows: Seq<Vec<char>>) -> Seq<Seq<char>> {
    Seq::new(rows.len(), |i: int| rows[i]@)
}

/// The character sequences of a vector of strings.
pub open spec fn texts(strings: Seq<String>) -> Seq<Seq<char>> {
    Seq::new(strings.len(), |i: int| strings[i]@)
}

/// Copies each string into a row of characters.
pub fn rows_of(strings: &Vec<String>) -> (out: Vec<Vec<char>>)
    ensures
        views(out@) == texts(strings@),
{
    let mut out: Vec<Vec<char>> = Vec::new();
    let mut i: usize = 0;
    while i < strings.len()
        invariant
            i <= strings.len(),
            out@.len() == i,
            forall|j: int| 0 <= j < i ==> (#[trigger] out@[j])@ == strings@[j]@,
        decreases strings.len() - i,
    {
        out.push(chars_of(strings[i].as_str()));
        i = i + 1;
    }
    assert(views(out@) =~= texts(strings@));
    out
}

/// Copies each row of characters into a string.
pub fn strings_of(rows: &Vec<Vec<char>>) -> (out: Vec<String>)
    ensures
        texts(out@) == views(rows@),
{
    let mut out: Vec<String> = Vec::new();
    let mut i: usize = 0;
    while i < rows.len()
        invariant
            i <= rows.len(),
            out@.len() == i,
            forall|j: int| 0 <= j < i ==> (#[trigger] out@[j])@ == rows@[j]@,
        decreases rows.len() - i,
    {
        out.push(string_of(&rows[i]));
        i = i + 1;
    }
    assert(texts(out@) =~= views(rows@));
    out
}

/// Appends the characters of `src` to `dst`.
pub fn push_all(dst: &mut Vec<char>, src: &Vec<char>)
    ensures
        final(dst)@ == old(dst)@ + src@,
{
    let mut i: usize = 0;
    while i < src.len()
        invariant
            i <= src.len(),
            dst@ == old(dst)@ + src@.take(i as int),
        decreases src.len() - i,
    {
        dst.push(src[i]);
        i = i + 1;
        assert(src@.take(i as int) == src@.take(i - 1).push(src@[i - 1]));
    }
    assert(src@.take(src@.len() as int) == src@);
}

/// Copies the characters of `text` from position `from` up to `to`.
pub fn copy_range(text: &Vec<char>, from: usize, to: usize) -> (out: Vec<char>)
    requires
        from <= to <= text.len(),
    ensures
        out@ == text@.subrange(from as int, to as int),
{
    let mut out: Vec<char> = Vec::new();
    let mut i: usize = from;
    while i < to
        invariant
            from <= i <= to <= text.len(),
            out@ == text@.subrange(from as int, i as int),
        decreases to - i,
    {
        out.push(text[i]);
        i = i + 1;
        assert(text@.subrange(from as int, i as int) == text@.subrange(from as int, i - 1).push(
            text@[i - 1],
        ));
    }
    out
}

/// Copies a row of characters.
pub fn copy_row(row: &Vec<char>) -> (out: Vec<char>)
    ensures
        out@ == row@,
{
    let out = copy_range(row, 0, row.len());
    assert(row@.subrange(0, row@.len() as int) =~= row@);
    out
}

/// A line with one trailing carriage return removed, where it has one.
pub open spec fn without_cr(line: Seq<char>) -> Seq<char> {
    if line.len() > 0 && line.last() == '\r' {
        line.drop_last()
    } else {
        line
    }
}

/// The lines of `text` from `start` on, given that no line feed stands
/// between `start` and `at`.
pub open spec fn lines_scan(text: Seq<char>, start: int, at: int) -> Seq<Seq<char>>
    decreases text.len() - at,
{
    if at < 0 || at >= text.len() {
        if 0 <= start < text.len() {
            seq![text.subrange(start, text.len() as int)]
        } else {
            Seq::empty()
        }
    } else if text[at] == '\n' {
        seq![without_cr(text.subrange(start, at))] + lines_scan(text, at + 1, at + 1)
    } else {
        lines_scan(text, start, at + 1)
    }
}

/// The lines of a text. A line ends at a line feed, or at a carriage return
/// directly followed by one; neither belongs to the line. The last line
/// needs no line ending, and an empty text has no lines.
pub open spec fn lines(text: Seq<char>) -> Seq<Seq<char>> {
    lines_scan(text, 0, 0)
}

/// Whether `line` holds no line feed.
pub open spec fn is_single_line(line: Seq<char>) -> bool {
    forall|j: int| 0 <= j < line.len() ==> line[j] != '\n'
}

/// No line of a text holds a line feed.
pub proof fn lemma_lines_hold_no_line_feed(text: Seq<char>)
    ensures
        forall|k: int| 0 <= k < lines(text).len() ==> is_single_line(#[trigger] lines(text)[k]),
{
    lemma_lines_scan(text, 0, 0);
}

proof fn lemma_lines_scan(text: Seq<char>, start: int, at: int)
    requires
        0 <= start <= at <= text.len(),
        forall|j: int| start <= j < at ==> text[j] != '\n',
    ensures
        forall|k: int|
            0 <= k < lines_scan(text, start, at).len() ==> is_single_line(
                #[trigger] lines_scan(text, start, at)[k],
            ),
    decreases text.len() - at,
{
    let found = lines_scan(text, start, at);
    if at >= text.len() {
        if start < text.len() {
            assert(found[0] == text.subrange(start, text.len() as int));
        }
    } else if text[at] == '\n' {
        lemma_lines_scan(text, at + 1, at + 1);
        let rest = lines_scan(text, at + 1, at + 1);
        assert forall|k: int| 0 <= k < found.len() implies is_single_line(#[trigger] found[k]) by {
            if k > 0 {
                assert(found[k] == rest[k - 1]);
            } else {
                assert(found[0] == without_cr(text.subrange(start, at)));
            }
        }
    } else {
        lemma_lines_scan(text, start, at + 1);
        assert(found == lines_scan(text, start, at + 1));
    }
}

/// The lines joined by single line feeds.
pub open spec fn join_lines(lines: Seq<Seq<char>>) -> Seq<char>
    decreases lines.len(),
{
    if lines.len() == 0 {
        Seq::empty()
    } else if lines.len() == 1 {
        lines[0]
    } else {
        join_lines(lines.drop_last()) + seq!['\n'] + lines.last()
    }
}

/// Splits a text into its lines.
pub fn split_lines(text: &Vec<char>) -> (out: Vec<Vec<char>>)
    ensures
        views(out@) == lines(text@),
{
    let mut out: Vec<Vec<char>> = Vec::new();
    let mut start: usize = 0;
    let mut at: usize = 0;
    assert(views(out@) + lines_scan(text@, 0, 0) =~= lines(text@));
    while at < text.len()
        invariant
            start <= at <= text.len(),
            views(out@) + lines_scan(text@, start as int, at as int) == lines(text@),
        decreases text.len() - at,
    {
        if text[at] == '\n' {
            let end: usize = if at > start && text[at - 1] == '\r' { at - 1 } else { at };
            let line = copy_range(text, start, end);
            proof {
                let whole = text@.subrange(start as int, at as int);
                assert(line@ =~= without_cr(whole));
                let rest = lines_scan(text@, at + 1, at + 1);
                assert(views(out@.push(line)) + rest =~= views(out@) + (seq![line@] + rest));
            }
            out.push(line);
            start = at + 1;
        }
        at = at + 1;
    }
    if start < text.len() {
        let line = copy_range(text, start, text.len());
        proof {
            assert(views(out@.push(line)) =~= views(out@) + seq![line@]);
        }
        out.push(line);
    } else {
        assert(views(out@) + Seq::<Seq<char>>::empty() =~= views(out@));
    }
    out
}

/// Joins rows with single line feeds.
pub fn join_rows(rows: &Vec<Vec<char>>) -> (out: Vec<char>)
    ensures
        out@ == join_lines(views(rows@)),
{
    let mut out: Vec<char> = Vec::new();
    let mut i: usize = 0;
    assert(views(rows@).take(0) =~= Seq::<Seq<char>>::empty());
    while i < rows.len()
        invariant
            i <= rows.len(),
            out@ == join_lines(views(rows@).take(i as int)),
        decreases rows.len() - i,
    {
        let ghost before = views(rows@).take(i as int);
        let ghost after = views(rows@).take(i + 1);
        proof {
            assert(after.drop_last() =~= before);
            assert(after.last() == rows@[i as int]@);
        }
        if i > 0 {
            out.push('\n');
            assert(out@ =~= join_lines(before) + seq!['\n']);
        }
        push_all(&mut out, &rows[i]);
        i = i + 1;
    }
    assert(views(rows@).take(rows@.len() as int) =~= views(rows@));
    out
}

/// Whether `c` is white space as Unicode defines it (the property
/// `White_Space`).
pub open spec fn is_space_char(c: char) -> bool {
    let u = c as u32;
    ||| 0x09 <= u <= 0x0D
    ||| u == 0x20
    ||| u == 0x85
    ||| u == 0xA0
    ||| u == 0x1680
    ||| 0x2000 <= u <= 0x200A
    ||| u == 0x2028
    ||| u == 0x2029
    ||| u == 0x202F
    ||| u == 0x205F
    ||| u == 0x3000
}

/// Whether `c` is one of the decimal digits `0` to `9`.
pub open spec fn is_digit_char(c: char) -> bool {
    0x30 <= c as u32 <= 0x39
}

/// Whether `c` is white space.
pub fn is_space(c: char) -> (r: bool)
    ensures
        r == is_space_char(c),
{
    let u: u32 = c as u32;
    (0x09 <= u && u <= 0x0D) || u == 0x20 || u == 0x85 || u == 0xA0 || u == 0x1680 || (0x2000 <= u
        && u <= 0x200A) || u == 0x2028 || u == 0x2029 || u == 0x202F || u == 0x205F || u == 0x3000
}

/// Whether `c` is a decimal digit.
pub fn is_digit(c: char) -> (r: bool)
    ensures
        r == is_digit_char(c),
{
    let u: u32 = c as u32;
    0x30 <= u && u <= 0x39
}

/// The first character of `line` at or after `from` that is not white space.
pub open spec fn first_visible_from(line: Seq<char>, from: int) -> Option<char>
    decreases line.len() - from,
{
    if from < 0 || from >= line.len() {
        None
    } else if !is_space_char(line[from]) {
        Some(line[from])
    } else {
        first_visible_from(line, from + 1)
    }
}

/// The first character of `line` that is not white space.
pub open spec fn first_visible(line: Seq<char>) -> Option<char> {
    first_visible_from(line, 0)
}

/// Whether `line` holds nothing but white space.
pub open spec fn is_blank(line: Seq<char>) -> bool {
    forall|i: int| 0 <= i < line.len() ==> is_space_char(#[trigger] line[i])
}

/// A line is blank exactly when it has no first visible character.
pub proof fn lemma_blank_has_nothing_visible(line: Seq<char>)
    ensures
        is_blank(line) <==> first_visible(line) is None,
{
    lemma_first_visible_from(line, 0);
}

proof fn lemma_first_visible_from(line: Seq<char>, from: int)
    requires
        0 <= from,
    ensures
        first_visible_from(line, from) is None <==> forall|i: int|
            from <= i < line.len() ==> is_space_char(#[trigger] line[i]),
    decreases line.len() - from,
{
    if from < line.len() && is_space_char(line[from]) {
        lemma_first_visible_from(line, from + 1);
    }
}

/// The first character of `line` that is not white space.
pub fn first_visible_char(line: &Vec<char>) -> (r: Option<char>)
    ensures
        r == first_visible(line@),
        r is None <==> is_blank(line@),
{
    proof {
        lemma_blank_has_nothing_visible(line@);
    }
    let mut i: usize = 0;
    while i < line.len()
        invariant
            i <= line.len(),
            first_visible(line@) == first_visible_from(line@, i as int),
        decreases line.len() - i,
    {
        if !is_space(line[i]) {
            return Some(line[i]);
        }
        i = i + 1;
    }
    None
}

/// The words of `text` from `start` on, given that no white space stands
/// between `start` and `at`.
pub open spec fn words_scan(text: Seq<char>, start: int, at: int) -> Seq<Seq<char>>
    decreases text.len() - at,
{
    if at < 0 || at >= text.len() {
        if 0 <= start < text.len() {
            seq![text.subrange(start, text.len() as int)]
        } else {
            Seq::empty()
        }
    } else if is_space_char(text[at]) {
        if start < at {
            seq![text.subrange(start, at)] + words_scan(text, at + 1, at + 1)
        } else {
            words_scan(text, at + 1, at + 1)
        }
    } else {
        words_scan(text, start, at + 1)
    }
}

/// The words of a text: its maximal runs of characters that are not white
/// space, in order.
pub open spec fn words(text: Seq<char>) -> Seq<Seq<char>> {
    words_scan(text, 0, 0)
}

/// Whether `word` is not empty and holds no white space.
pub open spec fn is_word(word: Seq<char>) -> bool {
    word.len() > 0 && forall|j: int| 0 <= j < word.len() ==> !is_space_char(word[j])
}

/// No word of a text is empty, and none holds white space.
pub proof fn lemma_words_hold_no_space(text: Seq<char>)
    ensures
        forall|k: int| 0 <= k < words(text).len() ==> is_word(#[trigger] words(text)[k]),
{
    lemma_words_scan(text, 0, 0);
}

proof fn lemma_words_scan(text: Seq<char>, start: int, at: int)
    requires
        0 <= start <= at <= text.len(),
        forall|j: int| start <= j < at ==> !is_space_char(text[j]),
    ensures
        forall|k: int|
            0 <= k < words_scan(text, start, at).len() ==> is_word(
                #[trigger] words_scan(text, start, at)[k],
            ),
    decreases text.len() - at,
{
    let found = words_scan(text, start, at);
    if at >= text.len() {
        if start < text.len() {
            assert(found[0] == text.subrange(start, text.len() as int));
        }
    } else if is_space_char(text[at]) {
        lemma_words_scan(text, at + 1, at + 1);
        let rest = words_scan(text, at + 1, at + 1);
        if start < at {
            assert forall|k: int| 0 <= k < found.len() implies is_word(#[trigger] found[k]) by {
                if k > 0 {
                    assert(found[k] == rest[k - 1]);
                } else {
                    assert(found[0] == text.subrange(start, at));
                }
            }
        }
    } else {
        lemma_words_scan(text, start, at + 1);
        assert(found == words_scan(text, start, at + 1));
    }
}

/// Splits a text at white space into its words.
pub fn split_words(text: &Vec<char>) -> (out: Vec<Vec<char>>)
    ensures
        views(out@) == words(text@),
{
    let mut out: Vec<Vec<char>> = Vec::new();
    let mut start: usize = 0;
    let mut at: usize = 0;
    assert(views(out@) + words_scan(text@, 0, 0) =~= words(text@));
    while at < text.len()
        invariant
            start <= at <= text.len(),
            views(out@) + words_scan(text@, start as int, at as int) == words(text@),
        decreases text.len() - at,
    {
        if is_space(text[at]) {
            if start < at {
                let word = copy_range(text, start, at);
                proof {
                    let rest = words_scan(text@, at + 1, at + 1);
                    assert(views(out@.push(word)) + rest =~= views(out@) + (seq![word@] + rest));
                }
                out.push(word);
            }
            start = at + 1;
        }
        at = at + 1;
    }
    if start < text.len() {
        let word = copy_range(text, start, text.len());
        proof {
            assert(views(out@.push(word)) =~= views(out@) + seq![word@]);
        }
        out.push(word);
    } else {
        assert(views(out@) + Seq::<Seq<char>>::empty() =~= views(out@));
    }
    out
}

} // verus!
