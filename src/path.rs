use vstd::prelude::*;

verus! {

/// A character that separates path components.
pub open spec fn is_separator(c: char) -> bool {
    c == '/' || c == '\\'
}

/// A segment that names one entry inside a directory: no separator in it.
pub open spec fn is_plain(seg: Seq<char>) -> bool {
    forall|i: int| 0 <= i < seg.len() ==> !is_separator(#[trigger] seg[i])
}

pub open spec fn is_current_dir(seg: Seq<char>) -> bool {
    seg.len() == 0 || seg == seq!['.']
}

pub open spec fn is_parent_dir(seg: Seq<char>) -> bool {
    seg == seq!['.', '.']
}

/// The effect of one request segment on the components kept so far:
/// empty and `.` segments are dropped, `..` removes the last kept component
/// and never climbs above the root, a segment holding a separator rejects
/// the whole path.
pub open spec fn step(acc: Seq<Seq<char>>, seg: Seq<char>) -> Option<Seq<Seq<char>>> {
    if is_current_dir(seg) {
        Some(acc)
    } else if is_parent_dir(seg) {
        Some(
            if acc.len() == 0 {
                acc
            } else {
                acc.drop_last()
            },
        )
    } else if is_plain(seg) {
        Some(acc.push(seg))
    } else {
        None
    }
}

/// The components under the root that a request path names, or `None`
/// when the path is rejected.
pub open spec fn normalize(segs: Seq<Seq<char>>) -> Option<Seq<Seq<char>>>
    decreases segs.len(),
{
    if segs.len() == 0 {
        Some(Seq::empty())
    } else {
        match normalize(segs.drop_last()) {
            Some(acc) => step(acc, segs.last()),
            None => None,
        }
    }
}

/// Every component of a normalized path is a plain, non-empty name other
/// than `.` and `..`: nothing in it can leave the root.
pub open spec fn is_contained(segs: Seq<Seq<char>>) -> bool {
    forall|i: int|
        0 <= i < segs.len() ==> {
            &&& is_plain(#[trigger] segs[i])
            &&& !is_current_dir(segs[i])
            &&& !is_parent_dir(segs[i])
        }
}

/// Joining `rel` onto `base`: an absolute `rel` replaces `base`, otherwise
/// a separator is put between them unless `base` is empty or already ends
/// with one.
pub open spec fn joined(base: Seq<char>, rel: Seq<char>) -> Seq<char> {
    if rel.len() > 0 && rel[0] == '/' {
        rel
    } else if base.len() == 0 || base.last() == '/' {
        base + rel
    } else {
        base + seq!['/'] + rel
    }
}

/// `base` with each of `segs` joined on in turn.
pub open spec fn joined_all(base: Seq<char>, segs: Seq<Seq<char>>) -> Seq<char>
    decreases segs.len(),
{
    if segs.len() == 0 {
        base
    } else {
        joined(joined_all(base, segs.drop_last()), segs.last())
    }
}

/// The path under `root` that a request path names, or `None` when the
/// request path is rejected.
pub open spec fn candidate_of(root: Seq<char>, request: Seq<Seq<char>>) -> Option<Seq<char>> {
    match normalize(request) {
        Some(segs) => Some(joined_all(root, segs)),
        None => None,
    }
}

/// What normalizing keeps never holds a component that could leave the root.
pub proof fn lemma_normalize_contained(segs: Seq<Seq<char>>)
    ensures
        normalize(segs) matches Some(kept) ==> is_contained(kept),
    decreases segs.len(),
{
    if segs.len() > 0 {
        lemma_normalize_contained(segs.drop_last());
        if let Some(acc) = normalize(segs.drop_last()) {
            assert(is_contained(acc));
            if let Some(kept) = step(acc, segs.last()) {
                assert forall|i: int| 0 <= i < kept.len() implies {
                    &&& is_plain(#[trigger] kept[i])
                    &&& !is_current_dir(kept[i])
                    &&& !is_parent_dir(kept[i])
                } by {
                    if i < acc.len() {
                        assert(kept[i] == acc[i]);
                    }
                }
            }
        }
    }
}

/// Once a prefix of a request path is rejected, the whole path is.
proof fn lemma_rejected_prefix(segs: Seq<Seq<char>>, i: int)
    requires
        0 <= i <= segs.len(),
        normalize(segs.take(i)) is None,
    ensures
        normalize(segs) is None,
    decreases segs.len() - i,
{
    if i < segs.len() {
        assert(segs.take(i + 1).drop_last() =~= segs.take(i));
        lemma_rejected_prefix(segs, i + 1);
    } else {
        assert(segs.take(i) =~= segs);
    }
}

fn is_dot_segment(seg: &str, dots: usize) -> (r: bool)
    requires
        1 <= dots <= 2,
    ensures
        r == (if dots == 1 {
            seg@ == seq!['.']
        } else {
            seg@ == seq!['.', '.']
        }),
{
    let n = seg.unicode_len();
    if n != dots {
        return false;
    }
    let mut i: usize = 0;
    while i < n
        invariant
            n == seg@.len(),
            n == dots,
            1 <= dots <= 2,
            i <= n,
            forall|j: int| 0 <= j < i ==> seg@[j] == '.',
        decreases n - i,
    {
        if seg.get_char(i) != '.' {
            return false;
        }
        i += 1;
    }
    proof {
        if dots == 1 {
            assert(seg@ =~= seq!['.']);
        } else {
            assert(seg@ =~= seq!['.', '.']);
        }
    }
    true
}

fn has_no_separator(seg: &str) -> (r: bool)
    ensures
        r == is_plain(seg@),
{
    let n = seg.unicode_len();
    let mut i: usize = 0;
    while i < n
        invariant
            n == seg@.len(),
            i <= n,
            forall|j: int| 0 <= j < i ==> !is_separator(#[trigger] seg@[j]),
        decreases n - i,
    {
        let c = seg.get_char(i);
        if c == '/' || c == '\\' {
            return false;
        }
        i += 1;
    }
    true
}

/// The components under the root that `request` names: `.` and empty
/// segments are dropped, `..` goes up one component but never above the
/// root, and a segment holding a separator rejects the request (`None`).
pub fn normalize_segments(request: &Vec<String>) -> (r: Option<Vec<String>>)
    ensures
        match r {
            Some(kept) => normalize(request.deep_view()) == Some(kept.deep_view()),
            None => normalize(request.deep_view()) is None,
        },
{
    let ghost req = request.deep_view();
    let mut acc: Vec<String> = Vec::new();
    let mut i: usize = 0;
    proof {
        assert(req.take(0) =~= Seq::<Seq<char>>::empty());
        assert(acc.deep_view() =~= Seq::<Seq<char>>::empty());
    }
    while i < request.len()
        invariant
            req == request.deep_view(),
            i <= request.len(),
            normalize(req.take(i as int)) == Some(acc.deep_view()),
        decreases request.len() - i,
    {
        let seg = request[i].as_str();
        let ghost prev = acc.deep_view();
        proof {
            assert(req.take(i + 1).drop_last() =~= req.take(i as int));
            assert(req.take(i + 1).last() == seg@);
        }
        if seg.unicode_len() == 0 || is_dot_segment(seg, 1) {
        } else if is_dot_segment(seg, 2) {
            if acc.len() > 0 {
                acc.pop();
                proof {
                    assert(acc.deep_view() =~= prev.drop_last());
                }
            }
        } else if has_no_separator(seg) {
            acc.push(request[i].clone());
            proof {
                assert(acc.deep_view() =~= prev.push(seg@));
            }
        } else {
            proof {
                lemma_rejected_prefix(req, i + 1);
            }
            return None;
        }
        i += 1;
    }
    proof {
        assert(req.take(request.len() as int) =~= req);
    }
    Some(acc)
}

/// `rel` joined onto `base`, as a path is joined on this platform.
pub fn join_path(base: &str, rel: &str) -> (r: String)
    ensures
        r@ == joined(base@, rel@),
{
    let rel_len = rel.unicode_len();
    if rel_len > 0 && rel.get_char(0) == '/' {
        return String::from_str(rel);
    }
    let base_len = base.unicode_len();
    let mut r = String::from_str(base);
    if base_len > 0 && base.get_char(base_len - 1) != '/' {
        proof {
            reveal_strlit("/");
        }
        r.append("/");
    }
    r.append(rel);
    r
}

/// The path under `root` that `request` names, or `None` when the request
/// is rejected; the request cannot lead out of `root`.
pub fn candidate_path(root: &str, request: &Vec<String>) -> (r: Option<String>)
    ensures
        match r {
            Some(p) => candidate_of(root@, request.deep_view()) == Some(p@),
            None => candidate_of(root@, request.deep_view()) is None,
        },
{
    let segs = match normalize_segments(request) {
        Some(segs) => segs,
        None => return None,
    };
    let ghost kept = segs.deep_view();
    let mut path = String::from_str(root);
    let mut i: usize = 0;
    while i < segs.len()
        invariant
            kept == segs.deep_view(),
            i <= segs.len(),
            path@ == joined_all(root@, kept.take(i as int)),
        decreases segs.len() - i,
    {
        proof {
            assert(kept.take(i + 1).drop_last() =~= kept.take(i as int));
        }
        path = join_path(path.as_str(), segs[i].as_str());
        i += 1;
    }
    proof {
        assert(kept.take(segs.len() as int) =~= kept);
    }
    Some(path)
}

} // verus!
