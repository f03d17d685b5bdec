use vstd::prelude::*;
use vstd::string::{StrSliceExecFns, StringExecFns};

use crate::config::Config;

verus! {

/// `acc` with the piece `piece` added, unless the piece is empty (from a
/// doubled or trailing `/`) or `.`, neither of which names a component.
pub open spec fn add_piece(acc: Seq<Seq<char>>, piece: Seq<char>) -> Seq<Seq<char>> {
    if piece.len() == 0 || piece == seq!['.'] {
        acc
    } else {
        acc.push(piece)
    }
}

/// The components of `s` from position `i` on, reading left to right with
/// `cur` the piece begun so far and `acc` the components already found.
pub open spec fn split_from(s: Seq<char>, i: int, cur: Seq<char>, acc: Seq<Seq<char>>) -> Seq<
    Seq<char>,
>
    decreases s.len() - i,
{
    if i >= s.len() {
        add_piece(acc, cur)
    } else if s[i] == '/' {
        split_from(s, i + 1, seq![], add_piece(acc, cur))
    } else {
        split_from(s, i + 1, cur.push(s[i]), acc)
    }
}

/// The named components of a path: the pieces between `/` separators,
/// without empty pieces and without `.`.
pub open spec fn components(s: Seq<char>) -> Seq<Seq<char>> {
    split_from(s, 0, seq![], seq![])
}

/// The path starts at the root.
pub open spec fn rooted(s: Seq<char>) -> bool {
    s.len() > 0 && s[0] == '/'
}

/// Components written out with one `/` between each two.
pub open spec fn join(cs: Seq<Seq<char>>) -> Seq<char>
    decreases cs.len(),
{
    if cs.len() == 0 {
        seq![]
    } else if cs.len() == 1 {
        cs[0]
    } else {
        join(cs.drop_last()) + seq!['/'] + cs.last()
    }
}

/// `path` written relative to the directory `base`, compared by component:
/// both start at the root or neither does, the components of `base` begin
/// those of `path`, and the rest are joined. The directory itself becomes
/// the empty path; a path outside `base` has no relative form.
pub open spec fn relative_to(path: Seq<char>, base: Seq<char>) -> Option<Seq<char>> {
    let pc = components(path);
    let bc = components(base);
    if rooted(path) == rooted(base) && bc.len() <= pc.len() && pc.subrange(0, bc.len() as int)
        == bc {
        Some(join(pc.skip(bc.len() as int)))
    } else {
        None
    }
}

/// How `path` is shown: relative to the working directory when that is
/// asked for and possible, as given otherwise.
pub open spec fn shown_path(config: Config, path: Seq<char>) -> Seq<char> {
    if config.relative {
        match relative_to(path, config.cwd@) {
            Some(r) => r,
            None => path,
        }
    } else {
        path
    }
}

/// The pieces `s[start..end]` named by `spans`, in order.
pub open spec fn pieces(s: Seq<char>, spans: Seq<(usize, usize)>) -> Seq<Seq<char>> {
    Seq::new(spans.len(), |k: int| s.subrange(spans[k].0 as int, spans[k].1 as int))
}

/// Where each component of `s` stands in it.
fn component_spans(s: &str) -> (r: Vec<(usize, usize)>)
    ensures
        pieces(s@, r@) == components(s@),
        forall|k: int| 0 <= k < r@.len() ==> (#[trigger] r@[k]).0 <= r@[k].1 <= s@.len(),
{
    let n = s.unicode_len();
    let mut spans: Vec<(usize, usize)> = Vec::new();
    let mut start: usize = 0;
    let mut i: usize = 0;
    proof {
        assert(s@.subrange(0, 0) =~= seq![]);
        assert(pieces(s@, spans@) =~= seq![]);
    }
    while i < n
        invariant
            n == s@.len(),
            start <= i <= n,
            forall|k: int| 0 <= k < spans@.len() ==> (#[trigger] spans@[k]).0 <= spans@[k].1 <= s@.len(),
            components(s@) == split_from(s@, i as int, s@.subrange(start as int, i as int), pieces(s@, spans@)),
        decreases n - i,
    {
        if s.get_char(i) == '/' {
            let ghost before = pieces(s@, spans@);
            let ghost cur = s@.subrange(start as int, i as int);
            let skip = start == i || (i - start == 1 && s.get_char(start) == '.');
            proof {
                if i - start == 1 {
                    assert(cur.len() == 1 && cur[0] == s@[start as int]);
                    if s@[start as int] == '.' {
                        assert(cur =~= seq!['.']);
                    }
                }
                if cur == seq!['.'] {
                    assert(cur[0] == '.');
                }
            }
            if !skip {
                spans.push((start, i));
                proof {
                    assert(pieces(s@, spans@) =~= before.push(cur));
                }
            }
            proof {
                assert(s@.subrange(i + 1, i + 1) =~= seq![]);
            }
            start = i + 1;
        } else {
            proof {
                assert(s@.subrange(start as int, i + 1) =~= s@.subrange(start as int, i as int).push(s@[i as int]));
            }
        }
        i = i + 1;
    }
    let ghost before = pieces(s@, spans@);
    let ghost cur = s@.subrange(start as int, n as int);
    let skip = start == n || (n - start == 1 && s.get_char(start) == '.');
    proof {
        if n - start == 1 {
            assert(cur.len() == 1 && cur[0] == s@[start as int]);
            if s@[start as int] == '.' {
                assert(cur =~= seq!['.']);
            }
        }
        if cur == seq!['.'] {
            assert(cur[0] == '.');
        }
    }
    if !skip {
        spans.push((start, n));
        proof {
            assert(pieces(s@, spans@) =~= before.push(cur));
            assert(forall|k: int| 0 <= k < spans@.len() ==> (#[trigger] spans@[k]).0 <= spans@[k].1 <= s@.len());
        }
    }
    spans
}

/// Writes `path` relative to `base`, when it lies inside it.
pub fn relative_path(path: &str, base: &str) -> (r: Option<String>)
    ensures
        r matches Some(s) ==> relative_to(path@, base@) == Some(s@),
        r is None ==> relative_to(path@, base@) is None,
{
    let pc = component_spans(path);
    let bc = component_spans(base);
    let ghost pcs = components(path@);
    let ghost bcs = components(base@);
    let path_rooted = path.unicode_len() > 0 && path.get_char(0) == '/';
    let base_rooted = base.unicode_len() > 0 && base.get_char(0) == '/';
    proof {
        assert(pieces(path@, pc@).len() == pc@.len());
        assert(pieces(base@, bc@).len() == bc@.len());
    }
    proof {
        if path@.len() > 0 {
            assert(rooted(path@) == (path@[0] == '/'));
        }
        if base@.len() > 0 {
            assert(rooted(base@) == (base@[0] == '/'));
        }
        assert(rooted(path@) == path_rooted);
        assert(rooted(base@) == base_rooted);
    }
    if path_rooted != base_rooted || bc.len() > pc.len() {
        proof {
            assert(relative_to(path@, base@) is None);
        }
        return None;
    }
    let mut k: usize = 0;
    while k < bc.len()
        invariant
            k <= bc@.len() <= pc@.len(),
            pieces(path@, pc@) == pcs,
            pieces(base@, bc@) == bcs,
            pcs == components(path@),
            bcs == components(base@),
            bcs.len() == bc@.len(),
            pcs.len() == pc@.len(),
            forall|j: int| 0 <= j < pc@.len() ==> (#[trigger] pc@[j]).0 <= pc@[j].1 <= path@.len(),
            forall|j: int| 0 <= j < bc@.len() ==> (#[trigger] bc@[j]).0 <= bc@[j].1 <= base@.len(),
            forall|j: int| 0 <= j < k ==> #[trigger] pcs[j] == bcs[j],
        decreases bc.len() - k,
    {
        let (ps, pe) = pc[k];
        let (bs, be) = bc[k];
        let p = path.substring_char(ps, pe).to_owned();
        let b = base.substring_char(bs, be).to_owned();
        if !(p == b) {
            proof {
                assert(pcs[k as int] == path@.subrange(pc@[k as int].0 as int, pc@[k as int].1 as int));
                assert(bcs[k as int] == base@.subrange(bc@[k as int].0 as int, bc@[k as int].1 as int));
                assert(bcs[k as int] == b@);
                assert(pcs[k as int] == p@);
                assert(pcs.subrange(0, bcs.len() as int)[k as int] == pcs[k as int]);
                assert(pcs.subrange(0, bcs.len() as int) != bcs);
                assert(relative_to(path@, base@) is None);
            }
            return None;
        }
        k = k + 1;
    }
    proof {
        assert(pcs.subrange(0, bcs.len() as int) =~= bcs);
    }
    let mut out = String::new();
    let first = bc.len();
    let mut j: usize = first;
    proof {
        assert(pcs.subrange(first as int, first as int) =~= Seq::<Seq<char>>::empty());
    }
    while j < pc.len()
        invariant
            first <= j <= pc@.len(),
            pieces(path@, pc@) == pcs,
            pcs == components(path@),
            bcs == components(base@),
            first == bcs.len(),
            pcs.subrange(0, first as int) == bcs,
            rooted(path@) == rooted(base@),
            forall|i: int| 0 <= i < pc@.len() ==> (#[trigger] pc@[i]).0 <= pc@[i].1 <= path@.len(),
            out@ == join(pcs.subrange(first as int, j as int)),
        decreases pc.len() - j,
    {
        let (ps, pe) = pc[j];
        let piece = path.substring_char(ps, pe);
        let ghost done = pcs.subrange(first as int, j as int);
        let ghost next = pcs.subrange(first as int, j + 1);
        proof {
            assert(pcs[j as int] == path@.subrange(pc@[j as int].0 as int, pc@[j as int].1 as int));
            assert(pcs[j as int] == piece@);
            assert(next.drop_last() =~= done);
            assert(next.last() == piece@);
        }
        if j > first {
            out.append("/");
            out.append(piece);
            proof {
                reveal_strlit("/");
                assert(next.len() >= 2);
                assert(out@ =~= join(next));
            }
        } else {
            out.append(piece);
            proof {
                assert(out@ =~= join(next));
            }
        }
        j = j + 1;
    }
    proof {
        assert(pcs.subrange(first as int, pcs.len() as int) =~= pcs.skip(first as int));
    }
    Some(out)
}

/// The text by which a path is reported.
pub fn path_to_string(config: &Config, path: &str) -> (r: String)
    ensures
        r@ == shown_path(*config, path@),
{
    if config.relative {
        match relative_path(path, config.cwd.as_str()) {
            Some(r) => r,
            None => path.to_owned(),
        }
    } else {
        path.to_owned()
    }
}

} // verus!
