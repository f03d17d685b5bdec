use vstd::prelude::*;

verus! {

/// What went wrong, or what was passed over, at one path. A `String` payload
/// is the cause as the operating system gave it.
#[derive(Debug, PartialEq, Eq)]
pub enum Problem {
    /// The path does not exist.
    PathMissing,
    /// The path could not be resolved to its canonical form.
    CannotResolve(String),
    /// The path was skipped (a symbolic link, or one that could not be resolved).
    IgnoringPath,
    /// The path is neither a regular file nor a directory.
    CannotOpenPath,
    /// The file could not be opened.
    CannotOpenFile(String),
    /// The file is binary and was not scanned.
    BinaryFile,
    /// The file could not be rewound after its first bytes were inspected.
    CannotSeek(String),
    /// A line could not be read; the rest of the file was not scanned.
    ReadFailed(String),
    /// The directory could not be listed.
    CannotIterate(String),
    /// One entry of the directory could not be read.
    IterationFailed(String),
}

/// One observation of the walk, in the order in which it is to be shown.
#[derive(Debug, PartialEq, Eq)]
pub enum Report {
    /// A matching line; `line_number` counts from 1.
    Match { path: String, line_number: usize, line: String },
    /// A warning, shown only when warnings are enabled.
    Warning { path: String, problem: Problem },
    /// An error, always shown.
    Error { path: String, problem: Problem },
}

/// A report with its texts seen as sequences of characters.
pub enum ReportView {
    Match { path: Seq<char>, line_number: nat, line: Seq<char> },
    Warning { path: Seq<char>, problem: Problem },
    Error { path: Seq<char>, problem: Problem },
}

impl View for Report {
    type V = ReportView;

    open spec fn view(&self) -> ReportView {
        match self {
            Report::Match { path, line_number, line } => ReportView::Match {
                path: path@,
                line_number: *line_number as nat,
                line: line@,
            },
            Report::Warning { path, problem } => ReportView::Warning { path: path@, problem: *problem },
            Report::Error { path, problem } => ReportView::Error { path: path@, problem: *problem },
        }
    }
}

/// The view of a match at `line_number` of the file shown as `path`.
pub open spec fn match_view(path: Seq<char>, line_number: nat, line: Seq<char>) -> ReportView {
    ReportView::Match { path, line_number, line }
}

/// The view of an error at the path shown as `path`.
pub open spec fn error_view(path: Seq<char>, problem: Problem) -> ReportView {
    ReportView::Error { path, problem }
}

/// The views of a sequence of reports, in order.
pub open spec fn views(rs: Seq<Report>) -> Seq<ReportView> {
    rs.map_values(|r: Report| r@)
}

/// A warning at `path` when warnings are enabled, nothing otherwise.
pub open spec fn warned(warnings: bool, path: Seq<char>, problem: Problem) -> Seq<ReportView> {
    if warnings {
        seq![ReportView::Warning { path, problem }]
    } else {
        seq![]
    }
}

} // verus!
