use vstd::prelude::*;

use crate::binary::{is_binary, sample_is_binary};
use crate::config::Config;
use crate::matcher::matcher_holds;
use crate::paths::{path_to_string, shown_path};
use crate::report::{views, warned, Problem, Report, ReportView};

verus! {

/// What a path turned out to be once resolved.
#[derive(Clone, Copy, Debug, PartialEq, Eq)]
pub enum NodeKind {
    File,
    Dir,
    Other,
}

/// What the filesystem says of a path about to be visited.
pub struct PathFacts {
    /// The path exists (a dangling link does not).
    pub exists: bool,
    /// The path is itself a symbolic link.
    pub is_link: bool,
    /// Its canonical form with every link followed, or why there is none;
    /// consulted only when links are followed.
    pub resolved: Result<String, String>,
    /// What the path names, with links followed.
    pub kind: NodeKind,
}

/// What becomes of a path under the link policy.
#[derive(Debug, PartialEq, Eq)]
pub enum Resolution {
    Resolved(String),
    Skipped,
    Failed(String),
}

/// A resolution with its path seen as a sequence of characters.
pub enum ResolutionView {
    Resolved(Seq<char>),
    Skipped,
    Failed(String),
}

impl View for Resolution {
    type V = ResolutionView;

    open spec fn view(&self) -> ResolutionView {
        match self {
            Resolution::Resolved(p) => ResolutionView::Resolved(p@),
            Resolution::Skipped => ResolutionView::Skipped,
            Resolution::Failed(e) => ResolutionView::Failed(*e),
        }
    }
}

/// The work a visit leaves to the caller.
#[derive(Debug, PartialEq, Eq)]
pub enum Next {
    Nothing,
    /// Scan this file: `begin_file`, then `finish_file`.
    ScanFile(String),
    /// List this directory and hand the listing to `search_dir`.
    ListDir(String),
}

/// The work a visit leaves, with its path seen as a sequence of characters.
pub enum NextView {
    Nothing,
    ScanFile(Seq<char>),
    ListDir(Seq<char>),
}

impl View for Next {
    type V = NextView;

    open spec fn view(&self) -> NextView {
        match self {
            Next::Nothing => NextView::Nothing,
            Next::ScanFile(p) => NextView::ScanFile(p@),
            Next::ListDir(p) => NextView::ListDir(p@),
        }
    }
}

/// The outcome of visiting one path.
pub struct Visit {
    pub reports: Vec<Report>,
    pub next: Next,
}

/// The link policy. When links are followed, a path is replaced by its
/// canonical form, and a failure to find one is an error. Otherwise a link
/// is skipped and any other path is kept as it is.
pub open spec fn resolution(config: Config, path: Seq<char>, facts: PathFacts) -> ResolutionView {
    if config.followlinks {
        match facts.resolved {
            Ok(p) => ResolutionView::Resolved(p@),
            Err(e) => ResolutionView::Failed(e),
        }
    } else if facts.is_link {
        ResolutionView::Skipped
    } else {
        ResolutionView::Resolved(path)
    }
}

/// Applies the link policy to `path`, of which `facts` are known.
pub fn resolve_path(config: &Config, path: &str, facts: &PathFacts) -> (r: Resolution)
    ensures
        r@ == resolution(*config, path@, *facts),
{
    if config.followlinks {
        match &facts.resolved {
            Ok(p) => Resolution::Resolved(p.clone()),
            Err(e) => Resolution::Failed(e.clone()),
        }
    } else if facts.is_link {
        Resolution::Skipped
    } else {
        Resolution::Resolved(path.to_owned())
    }
}

/// The reports of a visit to `path`.
pub open spec fn visit_reports(config: Config, path: Seq<char>, facts: PathFacts) -> Seq<
    ReportView,
> {
    let shown = shown_path(config, path);
    if !facts.exists {
        seq![ReportView::Error { path: shown, problem: Problem::PathMissing }]
    } else {
        match resolution(config, path, facts) {
            ResolutionView::Skipped => warned(config.warnings, shown, Problem::IgnoringPath),
            ResolutionView::Failed(e) => seq![
                ReportView::Error { path: shown, problem: Problem::CannotResolve(e) },
            ] + warned(config.warnings, shown, Problem::IgnoringPath),
            ResolutionView::Resolved(p) => match facts.kind {
                NodeKind::Other => seq![
                    ReportView::Error {
                        path: shown_path(config, p),
                        problem: Problem::CannotOpenPath,
                    },
                ],
                _ => seq![],
            },
        }
    }
}

/// The work a visit leaves: a file is scanned; a directory is listed when it
/// is the root or the search is recursive.
pub open spec fn visit_next(config: Config, path: Seq<char>, facts: PathFacts, initial: bool) -> NextView {
    if !facts.exists {
        NextView::Nothing
    } else {
        match resolution(config, path, facts) {
            ResolutionView::Resolved(p) => match facts.kind {
                NodeKind::File => NextView::ScanFile(p),
                NodeKind::Dir => if initial || config.recursive {
                    NextView::ListDir(p)
                } else {
                    NextView::Nothing
                },
                NodeKind::Other => NextView::Nothing,
            },
            _ => NextView::Nothing,
        }
    }
}

fn warn_into(config: &Config, out: &mut Vec<Report>, path: &String, problem: Problem)
    ensures
        views(final(out)@) == views(old(out)@) + warned(config.warnings, path@, problem),
{
    proof {
        assert(views(old(out)@) + seq![] =~= views(old(out)@));
    }
    if config.warnings {
        out.push(Report::Warning { path: path.clone(), problem });
        proof {
            assert(views(final(out)@) =~= views(old(out)@) + warned(
                config.warnings,
                path@,
                problem,
            ));
        }
    }
}

/// Visits `path`: reports what is wrong with it and says what to do next.
/// `initial` marks the root of the walk.
pub fn search(config: &Config, path: &str, facts: &PathFacts, initial: bool) -> (r: Visit)
    ensures
        views(r.reports@) == visit_reports(*config, path@, *facts),
        r.next@ == visit_next(*config, path@, *facts, initial),
{
    let shown = path_to_string(config, path);
    let mut reports: Vec<Report> = Vec::new();
    proof {
        assert(views(reports@) =~= seq![]);
    }
    if !facts.exists {
        reports.push(Report::Error { path: shown, problem: Problem::PathMissing });
        proof {
            assert(views(reports@) =~= visit_reports(*config, path@, *facts));
        }
        return Visit { reports, next: Next::Nothing };
    }
    match resolve_path(config, path, facts) {
        Resolution::Skipped => {
            warn_into(config, &mut reports, &shown, Problem::IgnoringPath);
            proof {
                assert(views(reports@) =~= visit_reports(*config, path@, *facts));
            }
            Visit { reports, next: Next::Nothing }
        },
        Resolution::Failed(e) => {
            reports.push(Report::Error { path: shown.clone(), problem: Problem::CannotResolve(e) });
            warn_into(config, &mut reports, &shown, Problem::IgnoringPath);
            proof {
                assert(views(reports@) =~= visit_reports(*config, path@, *facts));
            }
            Visit { reports, next: Next::Nothing }
        },
        Resolution::Resolved(p) => {
            match facts.kind {
                NodeKind::File => Visit { reports, next: Next::ScanFile(p) },
                NodeKind::Dir => {
                    if initial || config.recursive {
                        Visit { reports, next: Next::ListDir(p) }
                    } else {
                        Visit { reports, next: Next::Nothing }
                    }
                },
                NodeKind::Other => {
                    let shown_p = path_to_string(config, p.as_str());
                    reports.push(Report::Error { path: shown_p, problem: Problem::CannotOpenPath });
                    proof {
                        assert(views(reports@) =~= visit_reports(*config, path@, *facts));
                    }
                    Visit { reports, next: Next::Nothing }
                },
            }
        },
    }
}

/// What opening a file and reading its first bytes gave.
pub enum FileOpen {
    /// The file was gone by the time it was opened.
    Missing,
    /// The file could not be opened, for this cause.
    Failed(String),
    /// Up to the first 1024 bytes of the file.
    Sample(Vec<u8>),
}

/// The outcome of opening a file: what to report, and whether to read its lines.
pub struct FileStart {
    pub reports: Vec<Report>,
    pub scan: bool,
}

/// The reports of opening the file at `path`.
pub open spec fn start_reports(config: Config, path: Seq<char>, open: FileOpen) -> Seq<ReportView> {
    let shown = shown_path(config, path);
    match open {
        FileOpen::Missing => seq![ReportView::Error { path: shown, problem: Problem::PathMissing }],
        FileOpen::Failed(e) => seq![
            ReportView::Error { path: shown, problem: Problem::CannotOpenFile(e) },
        ],
        FileOpen::Sample(s) => if sample_is_binary(s@) {
            warned(config.warnings, shown, Problem::BinaryFile)
        } else {
            seq![]
        },
    }
}

/// Whether the lines of the file are to be read: it opened and is text.
pub open spec fn start_scans(open: FileOpen) -> bool {
    match open {
        FileOpen::Sample(s) => !sample_is_binary(s@),
        _ => false,
    }
}

/// Decides on a file after it was opened: a binary file is passed over
/// with a warning, a text file goes on to `finish_file`.
pub fn begin_file(config: &Config, path: &str, open: &FileOpen) -> (r: FileStart)
    ensures
        views(r.reports@) == start_reports(*config, path@, *open),
        r.scan == start_scans(*open),
{
    let shown = path_to_string(config, path);
    let mut reports: Vec<Report> = Vec::new();
    proof {
        assert(views(reports@) =~= seq![]);
    }
    match open {
        FileOpen::Missing => {
            reports.push(Report::Error { path: shown, problem: Problem::PathMissing });
            proof {
                assert(views(reports@) =~= start_reports(*config, path@, *open));
            }
            FileStart { reports, scan: false }
        },
        FileOpen::Failed(e) => {
            reports.push(Report::Error { path: shown, problem: Problem::CannotOpenFile(e.clone()) });
            proof {
                assert(views(reports@) =~= start_reports(*config, path@, *open));
            }
            FileStart { reports, scan: false }
        },
        FileOpen::Sample(s) => {
            if is_binary(s) {
                warn_into(config, &mut reports, &shown, Problem::BinaryFile);
                FileStart { reports, scan: false }
            } else {
                FileStart { reports, scan: true }
            }
        },
    }
}

/// The matches among `lines`, in order, each with its 1-based line number.
pub open spec fn match_views(config: Config, needle: Seq<char>, shown: Seq<char>, lines: Seq<String>) -> Seq<
    ReportView,
>
    decreases lines.len(),
{
    if lines.len() == 0 {
        seq![]
    } else {
        let prev = match_views(config, needle, shown, lines.drop_last());
        if matcher_holds(config.regex_source(), config.insensitive, needle, lines.last()@) {
            prev.push(
                ReportView::Match { path: shown, line_number: lines.len(), line: lines.last()@ },
            )
        } else {
            prev
        }
    }
}

/// The reports of scanning a text file: a failed rewind is an error and
/// nothing is scanned; else the matching lines, then the warning for a line
/// that could not be read, after which nothing more was read.
pub open spec fn scan_reports(
    config: Config,
    needle: Seq<char>,
    path: Seq<char>,
    seek_error: Option<String>,
    lines: Seq<String>,
    read_error: Option<String>,
) -> Seq<ReportView> {
    let shown = shown_path(config, path);
    match seek_error {
        Some(e) => seq![ReportView::Error { path: shown, problem: Problem::CannotSeek(e) }],
        None => match_views(config, needle, shown, lines) + match read_error {
            Some(e) => warned(config.warnings, shown, Problem::ReadFailed(e)),
            None => seq![],
        },
    }
}

/// Scans the lines of a text file for `string`. `lines` are those read before `read_error`, if reading stopped on one.
pub fn finish_file(
    config: &Config,
    string: &str,
    path: &str,
    seek_error: &Option<String>,
    lines: &Vec<String>,
    read_error: &Option<String>,
) -> (r: Vec<Report>)
    ensures
        views(r@) == scan_reports(*config, string@, path@, *seek_error, lines@, *read_error),
{
    let shown = path_to_string(config, path);
    let mut reports: Vec<Report> = Vec::new();
    proof {
        assert(views(reports@) =~= seq![]);
    }
    match seek_error {
        Some(e) => {
            reports.push(Report::Error { path: shown, problem: Problem::CannotSeek(e.clone()) });
            proof {
                assert(views(reports@) =~= scan_reports(
                    *config,
                    string@,
                    path@,
                    *seek_error,
                    lines@,
                    *read_error,
                ));
            }
            return reports;
        },
        None => {},
    }
    let mut i: usize = 0;
    while i < lines.len()
        invariant
            i <= lines@.len(),
            shown@ == shown_path(*config, path@),
            views(reports@) == match_views(*config, string@, shown@, lines@.subrange(0, i as int)),
        decreases lines.len() - i,
    {
        let line = &lines[i];
        proof {
            assert(lines@.subrange(0, i + 1).drop_last() =~= lines@.subrange(0, i as int));
        }
        if crate::matcher::matches(config, string, line.as_str()) {
            reports.push(Report::Match { path: shown.clone(), line_number: i + 1, line: line.clone() });
            proof {
                assert(views(reports@) =~= match_views(
                    *config,
                    string@,
                    shown@,
                    lines@.subrange(0, i + 1),
                ));
            }
        }
        i = i + 1;
    }
    proof {
        assert(lines@.subrange(0, lines@.len() as int) =~= lines@);
    }
    match read_error {
        Some(e) => {
            warn_into(config, &mut reports, &shown, Problem::ReadFailed(e.clone()));
        },
        None => {
            proof {
                assert(views(reports@) + seq![] =~= views(reports@));
            }
        },
    }
    reports
}

/// What listing a directory gave.
pub enum Listing {
    /// The directory was gone by the time it was listed.
    Missing,
    /// The directory could not be listed, for this cause.
    Failed(String),
    /// Its entries, in the order the listing produced them: each a path, or
    /// the cause for which that entry could not be read.
    Entries(Vec<Result<String, String>>),
}

/// A unit of work still ahead of the walk.
#[derive(Debug, PartialEq, Eq)]
pub enum Pending {
    /// A path to visit with `search`; `initial` marks the root.
    Visit { path: String, initial: bool },
    /// A report to pass on when its turn comes.
    Report(Report),
}

/// A unit of pending work with its texts seen as sequences of characters.
pub enum PendingView {
    Visit { path: Seq<char>, initial: bool },
    Report(ReportView),
}

impl View for Pending {
    type V = PendingView;

    open spec fn view(&self) -> PendingView {
        match self {
            Pending::Visit { path, initial } => PendingView::Visit { path: path@, initial: *initial },
            Pending::Report(r) => PendingView::Report(r@),
        }
    }
}

/// The views of a sequence of pending work, in order.
pub open spec fn pending_views(ps: Seq<Pending>) -> Seq<PendingView> {
    ps.map_values(|p: Pending| p@)
}

/// The work that one directory entry brings.
pub open spec fn entry_work(shown_dir: Seq<char>, entry: Result<String, String>) -> PendingView {
    match entry {
        Ok(p) => PendingView::Visit { path: p@, initial: false },
        Err(e) => PendingView::Report(
            ReportView::Error { path: shown_dir, problem: Problem::IterationFailed(e) },
        ),
    }
}

/// The work that listing the directory `dir` brings, in listing order.
pub open spec fn dir_work(config: Config, dir: Seq<char>, listing: Listing) -> Seq<PendingView> {
    let shown = shown_path(config, dir);
    match listing {
        Listing::Missing => seq![
            PendingView::Report(ReportView::Error { path: shown, problem: Problem::PathMissing }),
        ],
        Listing::Failed(e) => seq![
            PendingView::Report(
                ReportView::Error { path: shown, problem: Problem::CannotIterate(e) },
            ),
        ],
        Listing::Entries(es) => Seq::new(es@.len(), |i: int| entry_work(shown, es@[i])),
    }
}

/// Turns the listing of `dir` into work: each entry is visited as a
/// non-root path, and an entry that could not be read is an error in its
/// place, so that it is shown between the output of its siblings.
pub fn search_dir(config: &Config, dir: &str, listing: &Listing) -> (r: Vec<Pending>)
    ensures
        pending_views(r@) == dir_work(*config, dir@, *listing),
{
    let shown = path_to_string(config, dir);
    let mut out: Vec<Pending> = Vec::new();
    match listing {
        Listing::Missing => {
            out.push(Pending::Report(Report::Error { path: shown, problem: Problem::PathMissing }));
            proof {
                assert(pending_views(out@) =~= dir_work(*config, dir@, *listing));
            }
        },
        Listing::Failed(e) => {
            out.push(
                Pending::Report(Report::Error { path: shown, problem: Problem::CannotIterate(e.clone()) }),
            );
            proof {
                assert(pending_views(out@) =~= dir_work(*config, dir@, *listing));
            }
        },
        Listing::Entries(es) => {
            let mut i: usize = 0;
            while i < es.len()
                invariant
                    i <= es@.len(),
                    shown@ == shown_path(*config, dir@),
                    pending_views(out@) =~= Seq::new(i as nat, |k: int| entry_work(shown@, es@[k])),
                decreases es.len() - i,
            {
                let ghost before = out@;
                match &es[i] {
                    Ok(p) => out.push(Pending::Visit { path: p.clone(), initial: false }),
                    Err(e) => out.push(
                        Pending::Report(
                            Report::Error { path: shown.clone(), problem: Problem::IterationFailed(e.clone()) },
                        ),
                    ),
                }
                proof {
                    assert(out@ == before.push(out@.last()));
                    assert(out@.last()@ == entry_work(shown@, es@[i as int]));
                    assert(pending_views(out@) =~= pending_views(before).push(entry_work(shown@, es@[i as int])));
                    assert(pending_views(out@) =~= Seq::new((i + 1) as nat, |k: int| entry_work(shown@, es@[k])));
                }
                i = i + 1;
            }
        },
    }
    out
}

} // verus!
