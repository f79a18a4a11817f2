//! The digest of a run's output: long JSON arrays pruned, runs of spaces
//! collapsed, dense numeric rows sampled, and the whole cut to a budget.

use vstd::prelude::*;

use crate::json::{
    parse_json, parsed_json, prune_json_recursively, pruned, render_json, rendered_json,
};
use crate::text::{
    chars_of, copy_range, copy_row, find_from, find_in, first_visible, first_visible_char, is_blank,
    is_digit, is_digit_char, is_space_char, join_lines, join_rows,
    lemma_blank_has_nothing_visible, lemma_find_from, lines,
    push_all, split_lines, string_of, views,
};

verus! {

/// The limits that steer the compression.
#[derive(Clone, Copy, Debug, PartialEq, Eq)]
pub struct CompressionConfig {
    /// The longest array that is left whole.
    pub max_items_per_array: usize,
    /// Numeric rows are all kept while their count is below this.
    pub sample_window: usize,
    /// Later numeric rows are kept where their count is a multiple of this.
    pub sample_stride: usize,
    /// The most characters that a digest holds.
    pub max_output_chars: usize,
}

/// The configuration that is used where none is given.
pub open spec fn default_config() -> CompressionConfig {
    CompressionConfig {
        max_items_per_array: 3,
        sample_window: 15,
        sample_stride: 15,
        max_output_chars: 15000,
    }
}

impl Default for CompressionConfig {
    fn default() -> (config: CompressionConfig)
        ensures
            config == default_config(),
    {
        CompressionConfig {
            max_items_per_array: 3,
            sample_window: 15,
            sample_stride: 15,
            max_output_chars: 15000,
        }
    }
}

/// The text that opens the JSON block of a run's output.
pub open spec fn start_marker() -> Seq<char> {
    "---JSON_START---"@
}

/// The text that closes the JSON block.
pub open spec fn end_marker() -> Seq<char> {
    "---JSON_END---"@
}

/// The part of `text` before the first occurrence of `marker`; all of it
/// where the marker does not occur.
pub open spec fn before_marker(text: Seq<char>, marker: Seq<char>) -> Seq<char> {
    match find_from(text, marker, 0) {
        Some(k) => text.subrange(0, k),
        None => text,
    }
}

/// The part of `text` after the first occurrence of `marker`, where there
/// is one.
pub open spec fn after_marker(text: Seq<char>, marker: Seq<char>) -> Option<Seq<char>> {
    match find_from(text, marker, 0) {
        Some(k) => Some(text.subrange(k + marker.len(), text.len() as int)),
        None => None,
    }
}

/// The log body of a run's output: what stands before the start marker.
pub open spec fn log_body(raw: Seq<char>) -> Seq<char> {
    before_marker(raw, start_marker())
}

/// The JSON fragment of a run's output: what follows the first start marker
/// and stands before the next start marker and before the end marker. What
/// comes after that belongs neither to the body nor to the fragment.
pub open spec fn json_fragment(raw: Seq<char>) -> Option<Seq<char>> {
    match after_marker(raw, start_marker()) {
        Some(rest) => Some(before_marker(before_marker(rest, start_marker()), end_marker())),
        None => None,
    }
}

/// Splits `text` at the first occurrence of `marker`.
pub fn split_at_marker(text: &Vec<char>, marker: &Vec<char>) -> (parts: (
    Vec<char>,
    Option<Vec<char>>,
))
    ensures
        parts.0@ == before_marker(text@, marker@),
        match parts.1 {
            Some(rest) => after_marker(text@, marker@) == Some(rest@),
            None => after_marker(text@, marker@) is None,
        },
{
    match find_in(text, marker, 0) {
        Some(k) => {
            proof {
                lemma_find_from(text@, marker@, 0);
            }
            let head = copy_range(text, 0, k);
            let rest = copy_range(text, k + marker.len(), text.len());
            (head, Some(rest))
        },
        None => {
            let head = copy_range(text, 0, text.len());
            assert(text@.subrange(0, text@.len() as int) =~= text@);
            (head, None)
        },
    }
}

/// Splits a run's output into its log body and its JSON fragment.
pub fn split_output(raw: &Vec<char>) -> (parts: (Vec<char>, Option<Vec<char>>))
    ensures
        parts.0@ == log_body(raw@),
        match parts.1 {
            Some(fragment) => json_fragment(raw@) == Some(fragment@),
            None => json_fragment(raw@) is None,
        },
{
    let start = chars_of("---JSON_START---");
    let end = chars_of("---JSON_END---");
    let (body, rest) = split_at_marker(raw, &start);
    match rest {
        Some(rest) => {
            let (section, _) = split_at_marker(&rest, &start);
            let (fragment, _) = split_at_marker(&section, &end);
            (body, Some(fragment))
        },
        None => (body, None),
    }
}

/// The text that stands for a JSON fragment in the digest: where the
/// fragment parses, its tree pruned and written out again; else the fragment
/// as it is.
pub open spec fn json_section(fragment: Seq<char>, max_items: nat) -> Seq<char> {
    match parsed_json(fragment) {
        Some(tree) => rendered_json(pruned(tree, max_items)),
        None => fragment,
    }
}

/// The JSON text of the digest of `raw`; empty where `raw` has no fragment.
pub open spec fn json_text(raw: Seq<char>, max_items: nat) -> Seq<char> {
    match json_fragment(raw) {
        Some(fragment) => json_section(fragment, max_items),
        None => Seq::empty(),
    }
}

/// Prunes a JSON fragment. A fragment that does not parse is handed back
/// unchanged.
pub fn prune_fragment(fragment: &str, max_items: usize) -> (out: String)
    ensures
        out@ == json_section(fragment@, max_items as nat),
{
    match parse_json(fragment) {
        Some(mut value) => {
            prune_json_recursively(&mut value, max_items);
            render_json(&value)
        },
        None => String::from_str(fragment),
    }
}

/// The text in which each space that follows a space is left out, so that
/// every run of spaces has become a single space.
pub open spec fn collapse_spaces(text: Seq<char>) -> Seq<char>
    decreases text.len(),
{
    if text.len() == 0 {
        text
    } else if text.last() == ' ' && text.len() >= 2 && text[text.len() - 2] == ' ' {
        collapse_spaces(text.drop_last())
    } else {
        collapse_spaces(text.drop_last()).push(text.last())
    }
}

/// Calls `regex::Regex::new` on `pattern` and `Regex::replace_all` on `text`.
/// Taken on trust: with the pattern of one or more spaces and a single space
/// to put in their place, the matches are the maximal runs of spaces, each
/// is replaced by one space, and what stands between them is copied.
#[verifier::external_body]
fn replace_space_runs(pattern: &str, text: &str, replacement: &str) -> (out: String)
    requires
        pattern@ == seq![' ', '+'],
        replacement@ == seq![' '],
    ensures
        out@ == collapse_spaces(text@),
{
    regex::Regex::new(pattern).unwrap().replace_all(text, replacement).into_owned()
}

/// Collapses every run of spaces in `text` into one space. Other white
/// space, line feeds among it, stays.
pub fn normalize_spaces(text: &str) -> (out: String)
    ensures
        out@ == collapse_spaces(text@),
{
    proof {
        reveal_strlit(" +");
        reveal_strlit(" ");
        assert(" +"@ =~= seq![' ', '+']);
        assert(" "@ =~= seq![' ']);
    }
    replace_space_runs(" +", text, " ")
}

/// Whether the first character of `line` that is not white space is a
/// decimal digit.
pub open spec fn is_numeric_line(line: Seq<char>) -> bool {
    match first_visible(line) {
        Some(c) => is_digit_char(c),
        None => false,
    }
}

/// The number of numeric lines among `lines`.
pub open spec fn numeric_count(lines: Seq<Seq<char>>) -> nat
    decreases lines.len(),
{
    if lines.len() == 0 {
        0
    } else if is_numeric_line(lines.last()) {
        numeric_count(lines.drop_last()) + 1
    } else {
        numeric_count(lines.drop_last())
    }
}

/// Whether `n` is an exact multiple of `stride`.
pub open spec fn is_multiple(n: nat, stride: nat) -> bool {
    if stride == 0 {
        n == 0
    } else {
        n % stride == 0
    }
}

/// Whether line `i` of `lines` is kept by the sampling. A blank line is
/// not. A numeric line is kept where the count of numeric lines up to and
/// with it is below `window` or a multiple of `stride`. Any other line is
/// kept.
pub open spec fn is_sampled(lines: Seq<Seq<char>>, i: int, window: nat, stride: nat) -> bool {
    let line = lines[i];
    if is_blank(line) {
        false
    } else if is_numeric_line(line) {
        let n = numeric_count(lines.take(i + 1));
        n < window || is_multiple(n, stride)
    } else {
        true
    }
}

/// The lines that the sampling keeps, in their order.
pub open spec fn sampled(lines: Seq<Seq<char>>, window: nat, stride: nat) -> Seq<Seq<char>>
    decreases lines.len(),
{
    if lines.len() == 0 {
        Seq::empty()
    } else if is_sampled(lines, lines.len() - 1, window, stride) {
        sampled(lines.drop_last(), window, stride).push(lines.last())
    } else {
        sampled(lines.drop_last(), window, stride)
    }
}

/// Samples the rows of a log body: blank rows go, numeric rows are kept
/// while fewer than `window` were seen and then at every `stride`-th, all
/// other rows stay.
pub fn sample_lines(rows: &Vec<Vec<char>>, window: usize, stride: usize) -> (kept: Vec<Vec<char>>)
    ensures
        views(kept@) == sampled(views(rows@), window as nat, stride as nat),
{
    let mut kept: Vec<Vec<char>> = Vec::new();
    let mut seen: usize = 0;
    let mut i: usize = 0;
    let ghost all = views(rows@);
    assert(all.take(0) =~= Seq::<Seq<char>>::empty());
    assert(views(kept@) =~= Seq::<Seq<char>>::empty());
    while i < rows.len()
        invariant
            i <= rows.len(),
            all == views(rows@),
            seen == numeric_count(all.take(i as int)),
            seen <= i,
            views(kept@) == sampled(all.take(i as int), window as nat, stride as nat),
        decreases rows.len() - i,
    {
        let ghost next = all.take(i + 1);
        proof {
            assert(next.drop_last() =~= all.take(i as int));
            assert(next.last() == rows@[i as int]@);
            assert(next.take(i + 1) =~= next);
        }
        let keep = match first_visible_char(&rows[i]) {
            None => false,
            Some(c) => {
                if is_digit(c) {
                    seen = seen + 1;
                    seen < window || (stride > 0 && seen % stride == 0)
                } else {
                    true
                }
            },
        };
        assert(keep == is_sampled(next, i as int, window as nat, stride as nat));
        if keep {
            let row = copy_row(&rows[i]);
            assert(views(kept@.push(row)) =~= views(kept@).push(row@));
            kept.push(row);
        }
        i = i + 1;
    }
    assert(all.take(rows@.len() as int) =~= all);
    kept
}

/// The tag that stands before the JSON text in a digest.
pub open spec fn json_tag() -> Seq<char> {
    "\n[JSON_DATA]:"@
}

/// The text that stands before a digest that was cut.
pub open spec fn elision_marker() -> Seq<char> {
    "... (snip) ...\n"@
}

/// The kept lines joined by line feeds and, where there is JSON text, the
/// tag and that text after them.
pub open spec fn assembled(body_lines: Seq<Seq<char>>, json: Seq<char>) -> Seq<char> {
    if json.len() == 0 {
        join_lines(body_lines)
    } else {
        join_lines(body_lines) + json_tag() + json
    }
}

/// The last `max` characters of `text`; all of it where it is no longer.
pub open spec fn tail(text: Seq<char>, max: nat) -> Seq<char> {
    if text.len() > max {
        text.subrange(text.len() - max, text.len() as int)
    } else {
        text
    }
}

/// The digest of a run's output before it is cut to the budget.
pub open spec fn full_digest(raw: Seq<char>, config: CompressionConfig) -> Seq<char> {
    assembled(
        sampled(
            lines(collapse_spaces(log_body(raw))),
            config.sample_window as nat,
            config.sample_stride as nat,
        ),
        json_text(raw, config.max_items_per_array as nat),
    )
}

/// The bounded summary of one run's output.
#[derive(Debug, PartialEq, Eq)]
pub struct LogDigest {
    /// The digest's text, cut to its last characters where it was over the
    /// budget.
    pub text: String,
    /// Whether characters were cut from the front.
    pub truncated: bool,
}

/// The mathematical value of a [`LogDigest`].
pub struct DigestModel {
    pub text: Seq<char>,
    pub truncated: bool,
}

impl View for LogDigest {
    type V = DigestModel;

    open spec fn view(&self) -> DigestModel {
        DigestModel { text: self.text@, truncated: self.truncated }
    }
}

/// The digest of `full` under a budget of `max` characters.
pub open spec fn bounded(full: Seq<char>, max: nat) -> DigestModel {
    DigestModel { text: tail(full, max), truncated: full.len() > max }
}

/// The digest of a run's output under `config`.
pub open spec fn compressed(raw: Seq<char>, config: CompressionConfig) -> DigestModel {
    bounded(full_digest(raw, config), config.max_output_chars as nat)
}

/// The text of a digest as it is handed on: after the elision marker where
/// the digest was cut.
pub open spec fn rendered(digest: DigestModel) -> Seq<char> {
    if digest.truncated {
        elision_marker() + digest.text
    } else {
        digest.text
    }
}

impl LogDigest {
    /// The text of the digest, with the elision marker before it where
    /// characters were cut.
    pub fn render(&self) -> (text: String)
        ensures
            text@ == rendered(self@),
    {
        if self.truncated {
            let mut text = String::from_str("... (snip) ...\n");
            text.append(self.text.as_str());
            text
        } else {
            self.text.clone()
        }
    }
}

/// Joins the kept rows and appends the tagged JSON text where there is one.
pub fn assemble_digest(kept: &Vec<Vec<char>>, json: &Vec<char>) -> (full: Vec<char>)
    ensures
        full@ == assembled(views(kept@), json@),
{
    let mut full = join_rows(kept);
    if json.len() > 0 {
        let tag = chars_of("\n[JSON_DATA]:");
        push_all(&mut full, &tag);
        push_all(&mut full, json);
    }
    full
}

/// Cuts `full` to its last `max` characters where it is longer.
pub fn enforce_budget(full: &Vec<char>, max: usize) -> (digest: LogDigest)
    ensures
        digest@ == bounded(full@, max as nat),
        digest@.text.len() <= max,
{
    if full.len() > max {
        let kept = copy_range(full, full.len() - max, full.len());
        LogDigest { text: string_of(&kept), truncated: true }
    } else {
        LogDigest { text: string_of(full), truncated: false }
    }
}

/// Compresses the captured output of a run into a digest of at most
/// `config.max_output_chars` characters: the log body before the JSON block
/// with its runs of spaces collapsed and its lines sampled, then the pruned
/// JSON block under its tag, and of all that the tail that fits.
pub fn compress_log_for_ai(full_log: &str, config: &CompressionConfig) -> (digest: LogDigest)
    ensures
        digest@ == compressed(full_log@, *config),
        digest@.text.len() <= config.max_output_chars,
{
    let raw = chars_of(full_log);
    let (body, fragment) = split_output(&raw);
    let json: Vec<char> = match fragment {
        Some(fragment) => {
            let section = prune_fragment(string_of(&fragment).as_str(), config.max_items_per_array);
            chars_of(section.as_str())
        },
        None => Vec::new(),
    };
    let normalized = normalize_spaces(string_of(&body).as_str());
    let rows = split_lines(&chars_of(normalized.as_str()));
    let kept = sample_lines(&rows, config.sample_window, config.sample_stride);
    let full = assemble_digest(&kept, &json);
    enforce_budget(&full, config.max_output_chars)
}

/// Two digests of one output under one configuration are the same.
pub proof fn lemma_compress_deterministic(
    first: LogDigest,
    second: LogDigest,
    raw: Seq<char>,
    config: CompressionConfig,
)
    requires
        first@ == compressed(raw, config),
        second@ == compressed(raw, config),
    ensures
        first@ == second@,
        rendered(first@) == rendered(second@),
{
}

/// A digest never holds more characters than the budget, and its text as
/// handed on is longer only by the elision marker, and only where the digest
/// was cut.
pub proof fn lemma_digest_within_budget(raw: Seq<char>, config: CompressionConfig)
    ensures
        compressed(raw, config).text.len() <= config.max_output_chars,
        !compressed(raw, config).truncated ==> rendered(compressed(raw, config)).len()
            <= config.max_output_chars,
        rendered(compressed(raw, config)).len() <= config.max_output_chars + elision_marker().len(),
{
}

/// A line that begins with `H` or `*` is kept, whatever the window, the
/// stride and the numeric lines before it.
pub proof fn lemma_event_lines_kept(lines: Seq<Seq<char>>, i: int, window: nat, stride: nat)
    requires
        0 <= i < lines.len(),
        lines[i].len() > 0,
        lines[i][0] == 'H' || lines[i][0] == '*',
    ensures
        is_sampled(lines, i, window, stride),
        sampled(lines, window, stride).contains(lines[i]),
{
    assert(!is_space_char(lines[i][0]));
    assert(first_visible(lines[i]) == Some(lines[i][0]));
    lemma_sampled_contains(lines, i, window, stride);
}

/// Where every line is numeric, line `i` is kept exactly when its number
/// `i + 1` is below the window or a multiple of the stride.
pub proof fn lemma_numeric_run_sampled(lines: Seq<Seq<char>>, i: int, window: nat, stride: nat)
    requires
        0 <= i < lines.len(),
        forall|j: int| 0 <= j < lines.len() ==> is_numeric_line(#[trigger] lines[j]),
    ensures
        is_sampled(lines, i, window, stride) <==> (i + 1 < window || is_multiple(
            (i + 1) as nat,
            stride,
        )),
{
    lemma_blank_has_nothing_visible(lines[i]);
    lemma_numeric_count_of_run(lines.take(i + 1));
}

proof fn lemma_numeric_count_of_run(lines: Seq<Seq<char>>)
    requires
        forall|j: int| 0 <= j < lines.len() ==> is_numeric_line(#[trigger] lines[j]),
    ensures
        numeric_count(lines) == lines.len(),
    decreases lines.len(),
{
    if lines.len() > 0 {
        lemma_numeric_count_of_run(lines.drop_last());
    }
}

/// A line that the sampling keeps stands among the sampled lines.
pub proof fn lemma_sampled_contains(lines: Seq<Seq<char>>, i: int, window: nat, stride: nat)
    requires
        0 <= i < lines.len(),
        is_sampled(lines, i, window, stride),
    ensures
        sampled(lines, window, stride).contains(lines[i]),
    decreases lines.len(),
{
    let shorter = lines.drop_last();
    let rest = sampled(shorter, window, stride);
    if i == lines.len() - 1 {
        assert(rest.push(lines.last()).last() == lines[i]);
    } else {
        assert(shorter.take(i + 1) =~= lines.take(i + 1));
        lemma_sampled_contains(shorter, i, window, stride);
        let k = choose|k: int| 0 <= k < rest.len() && rest[k] == shorter[i];
        if is_sampled(lines, lines.len() - 1, window, stride) {
            assert(rest.push(lines.last())[k] == lines[i]);
        }
    }
}

} // verus!
