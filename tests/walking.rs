use std::collections::HashMap;

use rsgrep::config::Config;
use rsgrep::matcher::RegexPattern;
use rsgrep::report::{Problem, Report};
use rsgrep::walk::{
    begin_file, finish_file, resolve_path, search, search_dir, FileOpen, Listing, Next, NodeKind,
    PathFacts, Pending, Resolution,
};
use rsgrep::walker::Walker;

enum Node {
    File(Vec<u8>),
    Dir(Vec<&'static str>),
    Link(&'static str),
}

type Fs = HashMap<String, Node>;

fn canonical(fs: &Fs, path: &str) -> Option<String> {
    let mut p = path.to_string();
    for _ in 0..8 {
        match fs.get(&p) {
            Some(Node::Link(t)) => p = t.to_string(),
            Some(_) => return Some(p),
            None => return None,
        }
    }
    None
}

fn facts(fs: &Fs, path: &str) -> PathFacts {
    let resolved = canonical(fs, path);
    let kind = match resolved.as_ref().and_then(|p| fs.get(p)) {
        Some(Node::File(_)) => NodeKind::File,
        Some(Node::Dir(_)) => NodeKind::Dir,
        _ => NodeKind::Other,
    };
    PathFacts {
        exists: resolved.is_some(),
        is_link: matches!(fs.get(path), Some(Node::Link(_))),
        resolved: resolved.ok_or_else(|| String::from("No such file or directory")),
        kind,
    }
}

fn run(config: &Config, string: &str, root: &str, fs: &Fs) -> Vec<Report> {
    let mut walker = Walker::new(root);
    let mut out = Vec::new();
    while let Some(work) = walker.next() {
        match work {
            Pending::Report(r) => out.push(r),
            Pending::Visit { path, initial } => {
                let visit = search(config, &path, &facts(fs, &path), initial);
                out.extend(visit.reports);
                match visit.next {
                    Next::Nothing => {}
                    Next::ScanFile(p) => {
                        let bytes = match fs.get(&p) {
                            Some(Node::File(b)) => b.clone(),
                            _ => panic!("not a file"),
                        };
                        let sample = bytes.iter().take(1024).cloned().collect();
                        let start = begin_file(config, &p, &FileOpen::Sample(sample));
                        out.extend(start.reports);
                        if start.scan {
                            let text = String::from_utf8(bytes).unwrap();
                            let lines: Vec<String> = text.lines().map(String::from).collect();
                            out.extend(finish_file(config, string, &p, &None, &lines, &None));
                        }
                    }
                    Next::ListDir(d) => {
                        let children = match fs.get(&d) {
                            Some(Node::Dir(c)) => c.clone(),
                            _ => panic!("not a directory"),
                        };
                        let entries = children.iter().map(|c| Ok(format!("{}/{}", d, c))).collect();
                        walker.push_front(search_dir(config, &d, &Listing::Entries(entries)));
                    }
                }
            }
        }
    }
    out
}

fn cfg(recursive: bool, followlinks: bool, warnings: bool) -> Config {
    Config::new(String::from("/w"), recursive, false, followlinks, false, warnings, false, None)
}

fn text(s: &str) -> Node {
    Node::File(s.as_bytes().to_vec())
}

fn tree() -> Fs {
    let mut fs = Fs::new();
    fs.insert("/w/d".into(), Node::Dir(vec!["a.txt", "sub", "z.txt"]));
    fs.insert("/w/d/a.txt".into(), text("one\nneedle here\n"));
    fs.insert("/w/d/sub".into(), Node::Dir(vec!["b.txt"]));
    fs.insert("/w/d/sub/b.txt".into(), text("needle\n"));
    fs.insert("/w/d/z.txt".into(), text("no\nno\nneedle"));
    fs
}

fn matched(reports: &[Report]) -> Vec<(String, usize)> {
    reports
        .iter()
        .filter_map(|r| match r {
            Report::Match { path, line_number, .. } => Some((path.clone(), *line_number)),
            _ => None,
        })
        .collect()
}

#[test]
fn root_listed_without_recursion() {
    let r = run(&cfg(false, false, false), "needle", "/w/d", &tree());
    assert_eq!(
        matched(&r),
        vec![("/w/d/a.txt".to_string(), 2), ("/w/d/z.txt".to_string(), 3)]
    );
}

#[test]
fn subdirectories_need_recursion() {
    let r = run(&cfg(true, false, false), "needle", "/w/d", &tree());
    assert_eq!(
        matched(&r),
        vec![
            ("/w/d/a.txt".to_string(), 2),
            ("/w/d/sub/b.txt".to_string(), 1),
            ("/w/d/z.txt".to_string(), 3)
        ]
    );
}

#[test]
fn repeated_walk_gives_same_reports() {
    let fs = tree();
    let first = run(&cfg(true, false, true), "needle", "/w/d", &fs);
    let second = run(&cfg(true, false, true), "needle", "/w/d", &fs);
    assert_eq!(first, second);
    assert_eq!(first.len(), 3);
}

#[test]
fn missing_root_is_one_error() {
    let r = run(&cfg(true, true, true), "needle", "/w/nothing", &tree());
    assert_eq!(
        r,
        vec![Report::Error { path: "/w/nothing".to_string(), problem: Problem::PathMissing }]
    );
}

#[test]
fn binary_file_not_scanned() {
    let mut fs = tree();
    fs.insert("/w/d/a.txt".into(), Node::File(b"needle\0needle\n".to_vec()));
    let r = run(&cfg(false, false, true), "needle", "/w/d/a.txt", &fs);
    assert_eq!(
        r,
        vec![Report::Warning { path: "/w/d/a.txt".to_string(), problem: Problem::BinaryFile }]
    );
    let r = run(&cfg(false, false, false), "needle", "/w/d/a.txt", &fs);
    assert!(r.is_empty());
}

fn linked() -> Fs {
    let mut fs = Fs::new();
    fs.insert("/w/link".into(), Node::Link("/w/target.txt"));
    fs.insert("/w/target.txt".into(), text("needle\n"));
    fs
}

#[test]
fn link_skipped_without_follow() {
    let r = run(&cfg(false, false, true), "needle", "/w/link", &linked());
    assert_eq!(
        r,
        vec![Report::Warning { path: "/w/link".to_string(), problem: Problem::IgnoringPath }]
    );
    let r = run(&cfg(false, false, false), "needle", "/w/link", &linked());
    assert!(r.is_empty());
}

#[test]
fn link_followed_scans_target() {
    let r = run(&cfg(false, true, true), "needle", "/w/link", &linked());
    assert_eq!(matched(&r), vec![("/w/target.txt".to_string(), 1)]);
}

#[test]
fn relative_paths_in_matches() {
    let mut c = cfg(true, false, false);
    c.relative = true;
    let r = run(&c, "needle", "/w/d", &tree());
    assert_eq!(matched(&r)[1], ("d/sub/b.txt".to_string(), 1));
}

#[test]
fn dangling_link_followed_is_error() {
    let c = cfg(false, true, true);
    let f = PathFacts {
        exists: true,
        is_link: true,
        resolved: Err("Too many levels of symbolic links".to_string()),
        kind: NodeKind::Other,
    };
    assert_eq!(resolve_path(&c, "/w/loop", &f), Resolution::Failed("Too many levels of symbolic links".to_string()));
    let v = search(&c, "/w/loop", &f, true);
    assert_eq!(
        v.reports,
        vec![
            Report::Error {
                path: "/w/loop".to_string(),
                problem: Problem::CannotResolve("Too many levels of symbolic links".to_string())
            },
            Report::Warning { path: "/w/loop".to_string(), problem: Problem::IgnoringPath },
        ]
    );
    assert_eq!(v.next, Next::Nothing);
}

#[test]
fn special_file_cannot_be_opened() {
    let c = cfg(false, false, false);
    let f = PathFacts {
        exists: true,
        is_link: false,
        resolved: Ok("/dev/null".to_string()),
        kind: NodeKind::Other,
    };
    let v = search(&c, "/dev/null", &f, true);
    assert_eq!(
        v.reports,
        vec![Report::Error { path: "/dev/null".to_string(), problem: Problem::CannotOpenPath }]
    );
}

#[test]
fn open_failures() {
    let c = cfg(false, false, false);
    let s = begin_file(&c, "/w/f", &FileOpen::Missing);
    assert!(!s.scan);
    assert_eq!(s.reports, vec![Report::Error { path: "/w/f".into(), problem: Problem::PathMissing }]);
    let s = begin_file(&c, "/w/f", &FileOpen::Failed("Permission denied".into()));
    assert!(!s.scan);
    assert_eq!(
        s.reports,
        vec![Report::Error {
            path: "/w/f".into(),
            problem: Problem::CannotOpenFile("Permission denied".into())
        }]
    );
    let s = begin_file(&c, "/w/f", &FileOpen::Sample(vec![]));
    assert!(s.scan);
    assert!(s.reports.is_empty());
}

#[test]
fn scan_numbers_lines_from_one() {
    let c = cfg(false, false, true);
    let lines: Vec<String> = vec!["x".into(), "a needle".into(), "y".into(), "needle".into()];
    let r = finish_file(&c, "needle", "/w/f", &None, &lines, &None);
    assert_eq!(
        r,
        vec![
            Report::Match { path: "/w/f".into(), line_number: 2, line: "a needle".into() },
            Report::Match { path: "/w/f".into(), line_number: 4, line: "needle".into() },
        ]
    );
}

#[test]
fn scan_stops_at_read_error() {
    let c = cfg(false, false, true);
    let lines: Vec<String> = vec!["needle".into()];
    let err = Some("stream did not contain valid UTF-8".to_string());
    let r = finish_file(&c, "needle", "/w/f", &None, &lines, &err);
    assert_eq!(
        r,
        vec![
            Report::Match { path: "/w/f".into(), line_number: 1, line: "needle".into() },
            Report::Warning {
                path: "/w/f".into(),
                problem: Problem::ReadFailed("stream did not contain valid UTF-8".into())
            },
        ]
    );
    let quiet = cfg(false, false, false);
    assert_eq!(finish_file(&quiet, "needle", "/w/f", &None, &lines, &err).len(), 1);
}

#[test]
fn scan_seek_failure_is_error() {
    let c = cfg(false, false, true);
    let lines: Vec<String> = vec!["needle".into()];
    let r = finish_file(&c, "needle", "/w/f", &Some("Illegal seek".into()), &lines, &None);
    assert_eq!(
        r,
        vec![Report::Error { path: "/w/f".into(), problem: Problem::CannotSeek("Illegal seek".into()) }]
    );
}

#[test]
fn listing_keeps_order_and_errors() {
    let c = cfg(false, false, false);
    let listing = Listing::Entries(vec![
        Ok("/w/d/a".to_string()),
        Err("Input/output error".to_string()),
        Ok("/w/d/b".to_string()),
    ]);
    let work = search_dir(&c, "/w/d", &listing);
    assert_eq!(
        work,
        vec![
            Pending::Visit { path: "/w/d/a".into(), initial: false },
            Pending::Report(Report::Error {
                path: "/w/d".into(),
                problem: Problem::IterationFailed("Input/output error".into())
            }),
            Pending::Visit { path: "/w/d/b".into(), initial: false },
        ]
    );
    let work = search_dir(&c, "/w/d", &Listing::Failed("Permission denied".into()));
    assert_eq!(
        work,
        vec![Pending::Report(Report::Error {
            path: "/w/d".into(),
            problem: Problem::CannotIterate("Permission denied".into())
        })]
    );
    let work = search_dir(&c, "/w/d", &Listing::Missing);
    assert_eq!(
        work,
        vec![Pending::Report(Report::Error { path: "/w/d".into(), problem: Problem::PathMissing })]
    );
}

#[test]
fn regex_walk_with_case_flag() {
    let re = RegexPattern::new("Foo").unwrap();
    let c = Config::new(String::from("/w"), false, false, false, true, false, false, Some(re));
    let mut fs = Fs::new();
    fs.insert("/w/f.txt".into(), text("foo\nFoo\n"));
    let r = run(&c, "Foo", "/w/f.txt", &fs);
    assert_eq!(matched(&r), vec![("/w/f.txt".to_string(), 2)]);
}

#[test]
fn walker_takes_work_in_pre_order() {
    let mut w = Walker::new("/r");
    assert!(!w.is_done());
    assert_eq!(w.next(), Some(Pending::Visit { path: "/r".into(), initial: true }));
    assert!(w.is_done());
    w.push_front(vec![
        Pending::Visit { path: "/r/a".into(), initial: false },
        Pending::Visit { path: "/r/b".into(), initial: false },
    ]);
    assert_eq!(w.next(), Some(Pending::Visit { path: "/r/a".into(), initial: false }));
    w.push_front(vec![Pending::Visit { path: "/r/a/x".into(), initial: false }]);
    assert_eq!(w.next(), Some(Pending::Visit { path: "/r/a/x".into(), initial: false }));
    assert_eq!(w.next(), Some(Pending::Visit { path: "/r/b".into(), initial: false }));
    assert_eq!(w.next(), None);
}

#[test]
fn unfollowed_path_kept_as_given() {
    let c = cfg(false, false, false);
    let f = PathFacts {
        exists: true,
        is_link: false,
        resolved: Ok("/w/x.txt".to_string()),
        kind: NodeKind::File,
    };
    assert_eq!(resolve_path(&c, "x.txt", &f), Resolution::Resolved("x.txt".to_string()));
    assert_eq!(search(&c, "x.txt", &f, true).next, Next::ScanFile("x.txt".to_string()));
    let broken = PathFacts { resolved: Err("Permission denied".to_string()), ..f };
    let v = search(&c, "x.txt", &broken, true);
    assert!(v.reports.is_empty());
    assert_eq!(v.next, Next::ScanFile("x.txt".to_string()));
    let followed = cfg(false, true, false);
    let f = PathFacts {
        exists: true,
        is_link: false,
        resolved: Ok("/w/x.txt".to_string()),
        kind: NodeKind::File,
    };
    assert_eq!(search(&followed, "x.txt", &f, true).next, Next::ScanFile("/w/x.txt".to_string()));
}

#[test]
fn insensitive_walk_folds_needle() {
    let c = Config::new(String::from("/w"), false, false, false, true, false, false, None);
    let mut fs = Fs::new();
    fs.insert("/w/f.txt".into(), text("x\nA NEEDLE\nnone\n"));
    let r = run(&c, "Needle", "/w/f.txt", &fs);
    assert_eq!(matched(&r), vec![("/w/f.txt".to_string(), 2)]);
}
