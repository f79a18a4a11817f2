//! Removal of vendor banner lines from output that is shown to a person.

use vstd::prelude::*;

use crate::text::{
    chars_of, contains, contains_pattern, copy_row, join_lines, join_rows, lines, rows_of,
    split_lines, string_of, texts, views,
};

verus! {

/// The banner substrings of the solver whose lines are not shown.
pub open spec fn default_banners() -> Seq<Seq<char>> {
    seq![
        "Set parameter"@,
        "Academic license"@,
        "Gurobi Optimizer version"@,
        "CPU model"@,
        "Thread count"@,
        "Model fingerprint"@,
    ]
}

/// Whether `line` contains one of `banners`.
pub open spec fn is_banner_line(line: Seq<char>, banners: Seq<Seq<char>>) -> bool {
    exists|k: int| 0 <= k < banners.len() && contains(line, #[trigger] banners[k])
}

/// The lines that contain none of `banners`, in their order.
pub open spec fn display_lines(all: Seq<Seq<char>>, banners: Seq<Seq<char>>) -> Seq<Seq<char>>
    decreases all.len(),
{
    if all.len() == 0 {
        Seq::empty()
    } else if is_banner_line(all.last(), banners) {
        display_lines(all.drop_last(), banners)
    } else {
        display_lines(all.drop_last(), banners).push(all.last())
    }
}

/// The text shown for `raw`: its lines without those that contain a banner,
/// joined by line feeds.
pub open spec fn sanitized(raw: Seq<char>, banners: Seq<Seq<char>>) -> Seq<char> {
    join_lines(display_lines(lines(raw), banners))
}

/// The banner substrings as a vector.
pub fn banner_list() -> (out: Vec<String>)
    ensures
        texts(out@) == default_banners(),
{
    let mut out: Vec<String> = Vec::new();
    out.push(String::from_str("Set parameter"));
    out.push(String::from_str("Academic license"));
    out.push(String::from_str("Gurobi Optimizer version"));
    out.push(String::from_str("CPU model"));
    out.push(String::from_str("Thread count"));
    out.push(String::from_str("Model fingerprint"));
    assert(texts(out@) =~= default_banners());
    out
}

/// Whether `line` contains one of `banners`.
pub fn has_banner(line: &Vec<char>, banners: &Vec<Vec<char>>) -> (r: bool)
    ensures
        r == is_banner_line(line@, views(banners@)),
{
    let mut k: usize = 0;
    while k < banners.len()
        invariant
            k <= banners.len(),
            forall|j: int| 0 <= j < k ==> !contains(line@, #[trigger] views(banners@)[j]),
        decreases banners.len() - k,
    {
        if contains_pattern(line, &banners[k]) {
            assert(contains(line@, views(banners@)[k as int]));
            return true;
        }
        k = k + 1;
    }
    false
}

/// Removes from `raw` every line that contains one of `banners`. The other
/// lines stay as they are and in their order, joined by line feeds.
pub fn sanitize(raw: &str, banners: &Vec<String>) -> (shown: String)
    ensures
        shown@ == sanitized(raw@, texts(banners@)),
{
    let text = chars_of(raw);
    let patterns = rows_of(banners);
    let all = split_lines(&text);
    let mut kept: Vec<Vec<char>> = Vec::new();
    let mut i: usize = 0;
    assert(views(all@).take(0) =~= Seq::<Seq<char>>::empty());
    assert(views(kept@) =~= Seq::<Seq<char>>::empty());
    while i < all.len()
        invariant
            i <= all.len(),
            views(patterns@) == texts(banners@),
            views(kept@) == display_lines(views(all@).take(i as int), texts(banners@)),
        decreases all.len() - i,
    {
        proof {
            let next = views(all@).take(i + 1);
            assert(next.drop_last() =~= views(all@).take(i as int));
            assert(next.last() == all@[i as int]@);
        }
        if !has_banner(&all[i], &patterns) {
            let row = copy_row(&all[i]);
            assert(views(kept@.push(row)) =~= views(kept@).push(row@));
            kept.push(row);
        }
        i = i + 1;
    }
    assert(views(all@).take(all@.len() as int) =~= views(all@));
    string_of(&join_rows(&kept))
}

/// The text of a solver's standard output as it is shown to a person: every
/// line that contains a banner substring is removed.
pub fn clean_gurobi_log(raw_log: &str) -> (shown: String)
    ensures
        shown@ == sanitized(raw_log@, default_banners()),
{
    let banners = banner_list();
    sanitize(raw_log, &banners)
}

/// No line that is shown contains a banner.
pub proof fn lemma_no_banner_shown(all: Seq<Seq<char>>, banners: Seq<Seq<char>>, k: int)
    requires
        0 <= k < display_lines(all, banners).len(),
    ensures
        !is_banner_line(display_lines(all, banners)[k], banners),
    decreases all.len(),
{
    let rest = display_lines(all.drop_last(), banners);
    if k < rest.len() {
        lemma_no_banner_shown(all.drop_last(), banners, k);
    }
}

/// Of the output of the solver, no line that is shown contains
/// "Academic license".
pub proof fn lemma_academic_license_removed(raw: Seq<char>, k: int)
    requires
        0 <= k < display_lines(lines(raw), default_banners()).len(),
    ensures
        !contains(display_lines(lines(raw), default_banners())[k], "Academic license"@),
{
    lemma_no_banner_shown(lines(raw), default_banners(), k);
    assert(default_banners()[1] == "Academic license"@);
}

/// Every line without a banner is shown, as it is.
pub proof fn lemma_other_lines_shown(all: Seq<Seq<char>>, banners: Seq<Seq<char>>, i: int)
    requires
        0 <= i < all.len(),
        !is_banner_line(all[i], banners),
    ensures
        display_lines(all, banners).contains(all[i]),
    decreases all.len(),
{
    let rest = display_lines(all.drop_last(), banners);
    if i == all.len() - 1 {
        assert(rest.push(all.last()).last() == all[i]);
    } else {
        lemma_other_lines_shown(all.drop_last(), banners, i);
        let k = choose|k: int| 0 <= k < rest.len() && rest[k] == all[i];
        if !is_banner_line(all.last(), banners) {
            assert(rest.push(all.last())[k] == all[i]);
        }
    }
}

/// The lines that are shown keep their order: of two runs of lines one
/// after the other, those shown of the first come first, then those shown
/// of the second.
pub proof fn lemma_display_keeps_order(
    first: Seq<Seq<char>>,
    second: Seq<Seq<char>>,
    banners: Seq<Seq<char>>,
)
    ensures
        display_lines(first + second, banners) == display_lines(first, banners) + display_lines(
            second,
            banners,
        ),
    decreases second.len(),
{
    if second.len() == 0 {
        assert(first + second =~= first);
        assert(display_lines(first, banners) + display_lines(second, banners) =~= display_lines(
            first,
            banners,
        ));
    } else {
        lemma_display_keeps_order(first, second.drop_last(), banners);
        assert((first + second).drop_last() =~= first + second.drop_last());
        assert((first + second).last() == second.last());
        let shown = display_lines(first, banners) + display_lines(second.drop_last(), banners);
        if !is_banner_line(second.last(), banners) {
            assert(shown.push(second.last()) =~= display_lines(first, banners) + display_lines(
                second.drop_last(),
                banners,
            ).push(second.last()));
        }
    }
}

} // verus!
