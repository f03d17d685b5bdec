use vstd::prelude::*;

use crate::binary::{nul_in_head, sample_is_binary};
use crate::config::Config;
use crate::matcher::{matcher_holds, regex_finds};
use crate::paths::{add_piece, components, join, relative_to, rooted, shown_path, split_from};
use crate::report::{error_view, match_view, warned, Problem, ReportView};
use crate::walk::{
    match_views, resolution, scan_reports, start_reports, start_scans, visit_next, visit_reports,
    FileOpen, NextView, NodeKind, PathFacts,
};

verus! {

/// The matches of a scan are exactly the lines of which the matcher holds,
/// each with its own 1-based number and text.
proof fn lemma_match_views_members(
    config: Config,
    needle: Seq<char>,
    shown: Seq<char>,
    lines: Seq<String>,
    x: ReportView,
)
    ensures
        match_views(config, needle, shown, lines).contains(x) <==> (exists|j: int|
            0 <= j < lines.len() && x == match_view(shown, (j + 1) as nat, lines[j]@)
                && matcher_holds(config.regex_source(), config.insensitive, needle, #[trigger] lines[j]@)),
    decreases lines.len(),
{
    if lines.len() > 0 {
        let prev = lines.drop_last();
        lemma_match_views_members(config, needle, shown, prev, x);
        let n = lines.len() - 1;
        if match_views(config, needle, shown, lines).contains(x) {
            if !match_views(config, needle, shown, prev).contains(x) {
                let all = match_views(config, needle, shown, lines);
                let k = choose|k: int| 0 <= k < all.len() && all[k] == x;
                assert(all[k] == x);
                assert(lines[n]@ == lines.last()@);
            } else {
                let j = choose|j: int|
                    0 <= j < prev.len() && x == ReportView::Match {
                        path: shown,
                        line_number: (j + 1) as nat,
                        line: prev[j]@,
                    } && matcher_holds(config.regex_source(), config.insensitive, needle, #[trigger] prev[j]@);
                assert(prev[j] == lines[j]);
            }
        } else {
            assert forall|j: int|
                0 <= j < lines.len() && x == ReportView::Match {
                    path: shown,
                    line_number: (j + 1) as nat,
                    line: lines[j]@,
                } implies !matcher_holds(config.regex_source(), config.insensitive, needle, #[trigger] lines[j]@) by {
                let all = match_views(config, needle, shown, lines);
                let pm = match_views(config, needle, shown, prev);
                if matcher_holds(config.regex_source(), config.insensitive, needle, lines[j]@) {
                    if j < n {
                        assert(prev[j] == lines[j]);
                        assert(pm.contains(x));
                        let k = choose|k: int| 0 <= k < pm.len() && pm[k] == x;
                        assert(all[k] == x);
                    } else {
                        assert(lines.last() == lines[j]);
                        assert(all[all.len() - 1] == x);
                    }
                    assert(all.contains(x));
                }
            }
        }
    }
}

/// Scanning a text file reports line `i` (numbered from 1 as `i + 1`)
/// exactly when the matcher holds of it, for a literal needle, with or
/// without case, and for a regular expression alike.
pub proof fn lemma_reported_iff_matching(
    config: Config,
    string: Seq<char>,
    path: Seq<char>,
    lines: Seq<String>,
    read_error: Option<String>,
    i: int,
)
    requires
        0 <= i < lines.len(),
    ensures
        scan_reports(config, string, path, None, lines, read_error).contains(
            match_view(shown_path(config, path), (i + 1) as nat, lines[i]@),
        ) <==> matcher_holds(config.regex_source(), config.insensitive, string, lines[i]@),
{
    let shown = shown_path(config, path);
    let needle = string;
    let x = ReportView::Match { path: shown, line_number: (i + 1) as nat, line: lines[i]@ };
    let m = match_views(config, needle, shown, lines);
    let tail = match read_error {
        Some(e) => warned(config.warnings, shown, Problem::ReadFailed(e)),
        None => seq![],
    };
    let all = scan_reports(config, needle, path, None, lines, read_error);
    assert(all == m + tail);
    lemma_match_views_members(config, needle, shown, lines, x);
    if all.contains(x) {
        let k = choose|k: int| 0 <= k < all.len() && all[k] == x;
        if k >= m.len() {
            assert(tail[k - m.len()] == x);
        } else {
            assert(m[k] == x);
        }
    }
    if m.contains(x) {
        let k = choose|k: int| 0 <= k < m.len() && m[k] == x;
        assert(all[k] == x);
    }
}

/// With a regular expression, the case flag changes nothing: a line matches
/// exactly when the expression finds it, whatever `insensitive` says.
pub proof fn lemma_regex_ignores_case(config: Config, string: Seq<char>, line: Seq<char>)
    requires
        config.regex is Some,
    ensures
        matcher_holds(config.regex_source(), config.insensitive, string, line) == regex_finds(
            config.regex_source()->Some_0,
            line,
        ),
        matcher_holds(config.regex_source(), true, string, line) == matcher_holds(
            config.regex_source(),
            false,
            string,
            line,
        ),
{
}

/// The root is listed whatever `recursive` says; a directory below it is
/// listed exactly when the search is recursive, and otherwise brings no
/// report at all.
pub proof fn lemma_root_always_descended(config: Config, path: Seq<char>, facts: PathFacts)
    requires
        facts.exists,
        resolution(config, path, facts) is Resolved,
        facts.kind == NodeKind::Dir,
    ensures
        visit_next(config, path, facts, true) == NextView::ListDir(
            resolution(config, path, facts)->Resolved_0,
        ),
        visit_next(config, path, facts, false) == (if config.recursive {
            NextView::ListDir(resolution(config, path, facts)->Resolved_0)
        } else {
            NextView::Nothing
        }),
        visit_reports(config, path, facts) == Seq::<ReportView>::empty(),
{
}

/// A file whose first 1024 bytes hold a NUL byte is not scanned: it brings
/// at most one report, the warning that it is binary, and that one only
/// when warnings are on.
pub proof fn lemma_binary_not_scanned(config: Config, path: Seq<char>, sample: Vec<u8>)
    requires
        nul_in_head(sample@),
    ensures
        !start_scans(FileOpen::Sample(sample)),
        start_reports(config, path, FileOpen::Sample(sample)) == warned(
            config.warnings,
            shown_path(config, path),
            Problem::BinaryFile,
        ),
{
    assert(sample_is_binary(sample@));
}

/// A symbolic link is skipped unless links are followed: nothing is scanned
/// and only a warning may be shown. When links are followed, a link to a
/// file has its target scanned, under the target's path. A path that is not
/// a link is visited as given when links are not followed.
pub proof fn lemma_link_policy(config: Config, path: Seq<char>, facts: PathFacts)
    requires
        facts.exists,
    ensures
        !config.followlinks && facts.is_link ==> visit_next(config, path, facts, false)
            == NextView::Nothing && visit_reports(config, path, facts) == warned(
            config.warnings,
            shown_path(config, path),
            Problem::IgnoringPath,
        ),
        config.followlinks && facts.resolved is Ok && facts.kind == NodeKind::File ==> visit_next(
            config,
            path,
            facts,
            false,
        ) == NextView::ScanFile(facts.resolved->Ok_0@),
        !config.followlinks && !facts.is_link && facts.kind == NodeKind::File ==> visit_next(
            config,
            path,
            facts,
            false,
        ) == NextView::ScanFile(path),
{
}

/// A named component: not empty, not `.`, and free of separators.
pub open spec fn named_piece(p: Seq<char>) -> bool {
    p.len() > 0 && p != seq!['.'] && forall|j: int| 0 <= j < p.len() ==> p[j] != '/'
}

proof fn lemma_split_named(s: Seq<char>, i: int, cur: Seq<char>, acc: Seq<Seq<char>>)
    requires
        0 <= i,
        forall|j: int| 0 <= j < cur.len() ==> cur[j] != '/',
        forall|k: int| 0 <= k < acc.len() ==> named_piece(#[trigger] acc[k]),
    ensures
        forall|k: int|
            0 <= k < split_from(s, i, cur, acc).len() ==> named_piece(
                #[trigger] split_from(s, i, cur, acc)[k],
            ),
    decreases s.len() - i,
{
    let added = add_piece(acc, cur);
    assert forall|k: int| 0 <= k < added.len() implies named_piece(#[trigger] added[k]) by {
        if k == acc.len() {
            assert(added[k] == cur);
        } else {
            assert(added[k] == acc[k]);
        }
    }
    if i >= s.len() {
        assert(split_from(s, i, cur, acc) == added);
    } else {
        if s[i] == '/' {
            assert(split_from(s, i, cur, acc) == split_from(s, i + 1, seq![], added));
            lemma_split_named(s, i + 1, seq![], added);
        } else {
            let next = cur.push(s[i]);
            assert forall|j: int| 0 <= j < next.len() implies next[j] != '/' by {
                if j < cur.len() {
                    assert(next[j] == cur[j]);
                }
            }
            assert(split_from(s, i, cur, acc) == split_from(s, i + 1, next, acc));
            lemma_split_named(s, i + 1, next, acc);
        }
    }
}

proof fn lemma_join_first(cs: Seq<Seq<char>>)
    requires
        cs.len() > 0,
        cs[0].len() > 0,
    ensures
        join(cs).len() > 0,
        join(cs)[0] == cs[0][0],
    decreases cs.len(),
{
    if cs.len() > 1 {
        let front = cs.drop_last();
        assert(front[0] == cs[0]);
        lemma_join_first(front);
        assert((join(front) + seq!['/'] + cs.last())[0] == join(front)[0]);
    }
}

proof fn lemma_split_run(s: Seq<char>, i: int, n: int, cur: Seq<char>, acc: Seq<Seq<char>>)
    requires
        0 <= i,
        0 <= n,
        i + n <= s.len(),
        forall|j: int| i <= j < i + n ==> s[j] != '/',
    ensures
        split_from(s, i, cur, acc) == split_from(s, i + n, cur + s.subrange(i, i + n), acc),
    decreases n,
{
    if n == 0 {
        assert(cur + s.subrange(i, i) =~= cur);
    } else {
        assert(split_from(s, i, cur, acc) == split_from(s, i + 1, cur.push(s[i]), acc));
        lemma_split_run(s, i + 1, n - 1, cur.push(s[i]), acc);
        assert(cur.push(s[i]) + s.subrange(i + 1, i + n) =~= cur + s.subrange(i, i + n));
    }
}

proof fn lemma_join_len(cs: Seq<Seq<char>>)
    requires
        cs.len() > 1,
    ensures
        join(cs) == join(cs.drop_last()) + seq!['/'] + cs.last(),
        join(cs).len() == join(cs.drop_last()).len() + 1 + cs.last().len(),
{
}

proof fn lemma_split_join(s: Seq<char>, i: int, cs: Seq<Seq<char>>, acc: Seq<Seq<char>>)
    requires
        0 <= i,
        cs.len() > 0,
        forall|k: int| 0 <= k < cs.len() ==> named_piece(#[trigger] cs[k]),
        i + join(cs).len() <= s.len(),
        s.subrange(i, i + join(cs).len()) == join(cs),
    ensures
        split_from(s, i, seq![], acc) == split_from(
            s,
            i + join(cs).len(),
            cs.last(),
            acc + cs.drop_last(),
        ),
    decreases cs.len(),
{
    if cs.len() == 1 {
        let p = cs[0];
        assert(join(cs) == p);
        assert forall|j: int| i <= j < i + p.len() implies s[j] != '/' by {
            assert(s[j] == s.subrange(i, i + p.len())[j - i]);
        }
        lemma_split_run(s, i, p.len() as int, seq![], acc);
        assert(seq![] + s.subrange(i, i + p.len()) =~= p);
        assert(acc + cs.drop_last() =~= acc);
    } else {
        let front = cs.drop_last();
        let last = cs.last();
        lemma_join_len(cs);
        let l = join(front).len() as int;
        let whole = s.subrange(i, i + join(cs).len());
        assert(s.subrange(i, i + l) =~= whole.subrange(0, l));
        assert(whole.subrange(0, l) =~= join(front));
        assert forall|k: int| 0 <= k < front.len() implies named_piece(#[trigger] front[k]) by {
            assert(front[k] == cs[k]);
        }
        lemma_split_join(s, i, front, acc);
        assert(s[i + l] == whole[l]);
        assert(whole[l] == '/');
        assert(front.last() == cs[front.len() - 1]);
        assert(named_piece(front.last()));
        assert(split_from(s, i + l, front.last(), acc + front.drop_last()) == split_from(
            s,
            i + l + 1,
            seq![],
            add_piece(acc + front.drop_last(), front.last()),
        ));
        assert(add_piece(acc + front.drop_last(), front.last()) =~= acc + front);
        assert(named_piece(cs[cs.len() - 1]));
        assert forall|j: int| i + l + 1 <= j < i + l + 1 + last.len() implies s[j] != '/' by {
            assert(s[j] == whole[j - i]);
            assert(whole[j - i] == last[j - i - l - 1]);
        }
        lemma_split_run(s, i + l + 1, last.len() as int, seq![], acc + front);
        assert(s.subrange(i + l + 1, i + l + 1 + last.len()) =~= last) by {
            assert forall|j: int| 0 <= j < last.len() implies s.subrange(i + l + 1, i + l + 1 + last.len())[j] == last[j] by {
                assert(s[i + l + 1 + j] == whole[l + 1 + j]);
            }
        }
        assert(seq![] + s.subrange(i + l + 1, i + l + 1 + last.len()) =~= last);
    }
}

/// Joining named components and splitting the result again gives them back.
proof fn lemma_components_of_join(cs: Seq<Seq<char>>)
    requires
        forall|k: int| 0 <= k < cs.len() ==> named_piece(#[trigger] cs[k]),
    ensures
        components(join(cs)) == cs,
{
    let s = join(cs);
    if cs.len() == 0 {
        assert(add_piece(seq![], seq![]) =~= cs);
    } else {
        assert(s.subrange(0, s.len() as int) =~= s);
        lemma_split_join(s, 0, cs, seq![]);
        assert(seq![] + cs.drop_last() =~= cs.drop_last());
        assert(named_piece(cs[cs.len() - 1]));
        assert(split_from(s, s.len() as int, cs.last(), cs.drop_last()) == add_piece(
            cs.drop_last(),
            cs.last(),
        ));
        assert(cs.drop_last().push(cs.last()) =~= cs);
    }
}

/// With relative paths on, a path inside the working directory, by
/// component, is shown as its remaining components joined by `/`, however
/// many separators or `.` components it was written with. The text shown
/// never starts at the root, and the working directory's components
/// followed by its own give back the path's.
pub proof fn lemma_relative_rendering(config: Config, path: Seq<char>)
    requires
        config.relative,
        relative_to(path, config.cwd@) is Some,
    ensures
        shown_path(config, path) == join(
            components(path).skip(components(config.cwd@).len() as int),
        ),
        !rooted(shown_path(config, path)),
        components(config.cwd@) + components(shown_path(config, path)) == components(path),
{
    let rest = components(path).skip(components(config.cwd@).len() as int);
    let bc = components(config.cwd@);
    lemma_split_named(path, 0, seq![], seq![]);
    assert forall|k: int| 0 <= k < rest.len() implies named_piece(#[trigger] rest[k]) by {
        assert(rest[k] == components(path)[bc.len() + k]);
    }
    lemma_components_of_join(rest);
    assert(bc + rest =~= components(path));
    if rest.len() > 0 {
        assert(rest[0] == components(path)[components(config.cwd@).len() as int]);
        assert(named_piece(rest[0]));
        lemma_join_first(rest);
    }
}

/// With relative paths on, every match found in a file inside the working
/// directory is reported under the file's path relative to that directory.
pub proof fn lemma_matches_shown_relative(
    config: Config,
    string: Seq<char>,
    path: Seq<char>,
    lines: Seq<String>,
    read_error: Option<String>,
    x: ReportView,
)
    requires
        config.relative,
        relative_to(path, config.cwd@) is Some,
        x is Match,
        scan_reports(config, string, path, None, lines, read_error).contains(x),
    ensures
        x->Match_path == relative_to(path, config.cwd@)->Some_0,
        !rooted(x->Match_path),
{
    lemma_relative_rendering(config, path);
    let shown = shown_path(config, path);
    let m = match_views(config, string, shown, lines);
    let tail = match read_error {
        Some(e) => warned(config.warnings, shown, Problem::ReadFailed(e)),
        None => seq![],
    };
    let all = scan_reports(config, string, path, None, lines, read_error);
    assert(all == m + tail);
    let k = choose|k: int| 0 <= k < all.len() && all[k] == x;
    if k >= m.len() {
        assert(tail[k - m.len()] == x);
    } else {
        assert(m[k] == x);
        assert(m.contains(x));
        lemma_match_views_members(config, string, shown, lines, x);
    }
}

/// The matches of one file come out in line order, so a scan repeated on
/// the same lines reports the same matches in the same order.
pub proof fn lemma_matches_in_line_order(
    config: Config,
    needle: Seq<char>,
    shown: Seq<char>,
    lines: Seq<String>,
    j: int,
    k: int,
)
    requires
        0 <= j < k < match_views(config, needle, shown, lines).len(),
    ensures
        match_views(config, needle, shown, lines)[j] is Match,
        match_views(config, needle, shown, lines)[k] is Match,
        match_views(config, needle, shown, lines)[j]->Match_line_number < match_views(
            config,
            needle,
            shown,
            lines,
        )[k]->Match_line_number,
    decreases lines.len(),
{
    let m = match_views(config, needle, shown, lines);
    let prev = lines.drop_last();
    let pm = match_views(config, needle, shown, prev);
    if k < pm.len() {
        lemma_matches_in_line_order(config, needle, shown, prev, j, k);
    } else {
        lemma_match_views_members(config, needle, shown, prev, pm[j]);
        assert(pm.contains(pm[j]));
        let i = choose|i: int|
            0 <= i < prev.len() && pm[j] == ReportView::Match {
                path: shown,
                line_number: (i + 1) as nat,
                line: prev[i]@,
            } && matcher_holds(config.regex_source(), config.insensitive, needle, #[trigger] prev[i]@);
    }
}

/// A root that does not exist brings exactly one report, an error, and no
/// further work: nothing is scanned.
pub proof fn lemma_missing_root(config: Config, path: Seq<char>, facts: PathFacts)
    requires
        !facts.exists,
    ensures
        visit_reports(config, path, facts) == seq![
            error_view(shown_path(config, path), Problem::PathMissing),
        ],
        visit_next(config, path, facts, true) == NextView::Nothing,
{
}

} // verus!
