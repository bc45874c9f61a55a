//! Slash-separated path text: joining and the components that Unix paths
//! are made of.

use vstd::prelude::*;
use vstd::string::*;

use crate::text::str_eq;

verus! {

/// `Path::join` on Unix paths held as text: a separator is added unless the
/// base already ends with one; an absolute part replaces the base.
pub open spec fn join(base: Seq<char>, part: Seq<char>) -> Seq<char> {
    if part.len() > 0 && part[0] == '/' {
        part
    } else if base.len() == 0 || base.last() == '/' {
        base + part
    } else {
        base + "/"@ + part
    }
}

pub fn join_path(base: &str, part: &str) -> (r: String)
    ensures
        r@ == join(base@, part@),
{
    proof {
        reveal_strlit("/");
    }
    let n = base.unicode_len();
    let m = part.unicode_len();
    if m > 0 && part.get_char(0) == '/' {
        return String::from_str(part);
    }
    let mut r = String::from_str(base);
    if !(n == 0 || base.get_char(n - 1) == '/') {
        r.append("/");
    }
    r.append(part);
    r
}

/// The pieces of a path between slashes, empty pieces included.
pub open spec fn pieces(s: Seq<char>) -> Seq<Seq<char>>
    decreases s.len(),
{
    if s.len() == 0 {
        seq![Seq::<char>::empty()]
    } else {
        let rest = pieces(s.drop_last());
        if s.last() == '/' {
            rest.push(Seq::<char>::empty())
        } else {
            rest.update(rest.len() - 1, rest.last().push(s.last()))
        }
    }
}

pub proof fn lemma_pieces_nonempty(s: Seq<char>)
    ensures
        pieces(s).len() >= 1,
    decreases s.len(),
{
    if s.len() > 0 {
        lemma_pieces_nonempty(s.drop_last());
    }
}

/// A piece that `Path::components` keeps as a component: not empty and not `.`.
pub open spec fn is_component(piece: Seq<char>) -> bool {
    piece.len() > 0 && piece != "."@
}

/// Whether some component of the path is `..`.
pub open spec fn has_parent_component(s: Seq<char>) -> bool {
    exists|k: int| 0 <= k < pieces(s).len() && #[trigger] pieces(s)[k] == ".."@
}

/// Whether the path has no component at all (for an absolute path: it is `/`).
pub open spec fn has_no_component(s: Seq<char>) -> bool {
    forall|k: int| 0 <= k < pieces(s).len() ==> !is_component(#[trigger] pieces(s)[k])
}

/// Whether the first component of the path is `name`.
pub open spec fn first_component_is(s: Seq<char>, name: Seq<char>) -> bool {
    exists|k: int|
        0 <= k < pieces(s).len() && #[trigger] pieces(s)[k] == name && forall|j: int|
            0 <= j < k ==> !is_component(#[trigger] pieces(s)[j])
}

/// What a scan of a path's components found.
pub struct ComponentScan {
    pub any_component: bool,
    pub first_is_mnt: bool,
    pub any_parent: bool,
}

/// Facts about the completed pieces `done` of a path.
pub open spec fn scan_of(done: Seq<Seq<char>>, scan: ComponentScan) -> bool {
    &&& scan.any_component == exists|k: int| 0 <= k < done.len() && is_component(#[trigger] done[k])
    &&& scan.first_is_mnt == exists|k: int|
        0 <= k < done.len() && #[trigger] done[k] == "mnt"@ && forall|j: int|
            0 <= j < k ==> !is_component(#[trigger] done[j])
    &&& scan.any_parent == exists|k: int| 0 <= k < done.len() && #[trigger] done[k] == ".."@
}

fn classify_piece(piece: &String, scan: ComponentScan, ghost_done: Ghost<Seq<Seq<char>>>) -> (r:
    ComponentScan)
    requires
        scan_of(ghost_done@, scan),
    ensures
        scan_of(ghost_done@.push(piece@), r),
{
    let ghost done = ghost_done@;
    let ghost next = done.push(piece@);
    proof {
        reveal_strlit(".");
        reveal_strlit("..");
        reveal_strlit("mnt");
    }
    let is_dot = str_eq(piece.as_str(), ".");
    let nonempty = piece.unicode_len() > 0;
    let component = nonempty && !is_dot;
    let is_mnt = str_eq(piece.as_str(), "mnt");
    let is_parent = str_eq(piece.as_str(), "..");
    let r = ComponentScan {
        any_component: scan.any_component || component,
        first_is_mnt: scan.first_is_mnt || (!scan.any_component && is_mnt),
        any_parent: scan.any_parent || is_parent,
    };
    assert(component == is_component(piece@));
    assert(r.any_component == exists|k: int| 0 <= k < next.len() && is_component(#[trigger] next[k]))
        by {
        if r.any_component {
            if scan.any_component {
                let k = choose|k: int| 0 <= k < done.len() && is_component(#[trigger] done[k]);
                assert(next[k] == done[k]);
            } else {
                assert(next[done.len() as int] == piece@);
            }
        }
        if exists|k: int| 0 <= k < next.len() && is_component(#[trigger] next[k]) {
            let k = choose|k: int| 0 <= k < next.len() && is_component(#[trigger] next[k]);
            if k < done.len() {
                assert(done[k] == next[k]);
            }
        }
    }
    assert(r.any_parent == exists|k: int| 0 <= k < next.len() && #[trigger] next[k] == ".."@) by {
        if r.any_parent {
            if scan.any_parent {
                let k = choose|k: int| 0 <= k < done.len() && #[trigger] done[k] == ".."@;
                assert(next[k] == done[k]);
            } else {
                assert(next[done.len() as int] == piece@);
            }
        }
        if exists|k: int| 0 <= k < next.len() && #[trigger] next[k] == ".."@ {
            let k = choose|k: int| 0 <= k < next.len() && #[trigger] next[k] == ".."@;
            if k < done.len() {
                assert(done[k] == next[k]);
            }
        }
    }
    assert(r.first_is_mnt == exists|k: int|
        0 <= k < next.len() && #[trigger] next[k] == "mnt"@ && forall|j: int|
            0 <= j < k ==> !is_component(#[trigger] next[j])) by {
        if r.first_is_mnt {
            if scan.first_is_mnt {
                let k = choose|k: int|
                    0 <= k < done.len() && #[trigger] done[k] == "mnt"@ && forall|j: int|
                        0 <= j < k ==> !is_component(#[trigger] done[j]);
                assert(next[k] == done[k]);
                assert forall|j: int| 0 <= j < k implies !is_component(#[trigger] next[j]) by {
                    assert(next[j] == done[j]);
                }
            } else {
                let k = done.len() as int;
                assert(next[k] == piece@);
                assert forall|j: int| 0 <= j < k implies !is_component(#[trigger] next[j]) by {
                    assert(next[j] == done[j]);
                }
            }
        }
        if exists|k: int|
            0 <= k < next.len() && #[trigger] next[k] == "mnt"@ && forall|j: int|
                0 <= j < k ==> !is_component(#[trigger] next[j]) {
            let k = choose|k: int|
                0 <= k < next.len() && #[trigger] next[k] == "mnt"@ && forall|j: int|
                    0 <= j < k ==> !is_component(#[trigger] next[j]);
            if k < done.len() {
                assert(done[k] == next[k]);
                assert forall|j: int| 0 <= j < k implies !is_component(#[trigger] done[j]) by {
                    assert(next[j] == done[j]);
                }
            } else {
                assert forall|j: int| 0 <= j < done.len() implies !is_component(
                    #[trigger] done[j],
                ) by {
                    assert(next[j] == done[j]);
                }
                assert(is_component("mnt"@));
            }
        }
    }
    r
}

/// Scans the components of a path.
pub fn scan_components(s: &str) -> (r: ComponentScan)
    ensures
        r.any_component == !has_no_component(s@),
        r.first_is_mnt == first_component_is(s@, "mnt"@),
        r.any_parent == has_parent_component(s@),
{
    let n = s.unicode_len();
    let mut current = String::new();
    let mut scan = ComponentScan { any_component: false, first_is_mnt: false, any_parent: false };
    let mut i: usize = 0;
    proof {
        assert(s@.take(0) =~= Seq::<char>::empty());
    }
    while i < n
        invariant
            n == s@.len(),
            i <= n,
            pieces(s@.take(i as int)) == pieces(s@.take(i as int)).drop_last().push(current@),
            pieces(s@.take(i as int)).len() >= 1,
            scan_of(pieces(s@.take(i as int)).drop_last(), scan),
        decreases n - i,
    {
        let c = s.get_char(i);
        let ghost before = pieces(s@.take(i as int));
        proof {
            assert(s@.take(i + 1).drop_last() =~= s@.take(i as int));
            assert(s@.take(i + 1).last() == c);
            lemma_pieces_nonempty(s@.take(i + 1));
        }
        if c == '/' {
            scan = classify_piece(&current, scan, Ghost(before.drop_last()));
            proof {
                assert(before.drop_last().push(current@) =~= before);
            }
            current = String::new();
            proof {
                let after = pieces(s@.take(i + 1));
                assert(after == before.push(Seq::<char>::empty()));
                assert(after.drop_last() =~= before);
                assert(after =~= after.drop_last().push(current@));
            }
        } else {
            current.push(c);
            proof {
                let after = pieces(s@.take(i + 1));
                assert(after == before.update(before.len() - 1, before.last().push(c)));
                assert(after.drop_last() =~= before.drop_last());
                assert(after =~= after.drop_last().push(current@));
            }
        }
        i = i + 1;
    }
    let ghost all = pieces(s@.take(n as int));
    proof {
        assert(s@.take(n as int) =~= s@);
    }
    let r = classify_piece(&current, scan, Ghost(all.drop_last()));
    proof {
        assert(all.drop_last().push(current@) =~= all);
        assert(all == pieces(s@));
    }
    r
}

/// The pieces of a path between slashes, as `pieces` describes them.
pub fn split_pieces(s: &str) -> (r: Vec<String>)
    ensures
        r@.map_values(|p: String| p@) == pieces(s@),
{
    let n = s.unicode_len();
    let mut done: Vec<String> = Vec::new();
    let mut current = String::new();
    let mut i: usize = 0;
    proof {
        assert(s@.take(0) =~= Seq::<char>::empty());
        assert(done@.map_values(|p: String| p@).push(current@) =~= seq![Seq::<char>::empty()]);
    }
    while i < n
        invariant
            n == s@.len(),
            i <= n,
            pieces(s@.take(i as int)) == done@.map_values(|p: String| p@).push(current@),
        decreases n - i,
    {
        let c = s.get_char(i);
        let ghost before = pieces(s@.take(i as int));
        proof {
            assert(s@.take(i + 1).drop_last() =~= s@.take(i as int));
            assert(s@.take(i + 1).last() == c);
        }
        if c == '/' {
            let piece = current;
            done.push(piece);
            current = String::new();
            proof {
                assert(done@.map_values(|p: String| p@) =~= before);
                assert(pieces(s@.take(i + 1)) =~= done@.map_values(|p: String| p@).push(current@));
            }
        } else {
            current.push(c);
            proof {
                assert(pieces(s@.take(i + 1)) =~= done@.map_values(|p: String| p@).push(current@));
            }
        }
        i = i + 1;
    }
    proof {
        assert(s@.take(n as int) =~= s@);
    }
    done.push(current);
    proof {
        assert(done@.map_values(|p: String| p@) =~= pieces(s@));
    }
    done
}

/// The last component of a path: its last piece that is neither empty nor
/// `.` (a `..` counts), if it has one.
pub open spec fn last_component(s: Seq<char>) -> Option<Seq<char>> {
    if exists|k: int| 0 <= k < pieces(s).len() && is_component(#[trigger] pieces(s)[k]) {
        let k = choose|k: int|
            0 <= k < pieces(s).len() && is_component(#[trigger] pieces(s)[k]) && forall|j: int|
                k < j < pieces(s).len() ==> !is_component(#[trigger] pieces(s)[j]);
        Some(pieces(s)[k])
    } else {
        None
    }
}

/// The last component of a path, as `last_component` describes it.
pub fn last_component_of(s: &str) -> (r: Option<String>)
    ensures
        match r {
            Some(c) => last_component(s@) == Some(c@),
            None => last_component(s@) is None,
        },
{
    proof {
        reveal_strlit(".");
    }
    let parts = split_pieces(s);
    let ghost ps = pieces(s@);
    assert(parts@.len() == ps.len());
    let mut last: Option<usize> = None;
    let mut i: usize = 0;
    while i < parts.len()
        invariant
            ps == pieces(s@),
            parts@.map_values(|p: String| p@) == ps,
            parts@.len() == ps.len(),
            i <= ps.len(),
            match last {
                Some(k) => k < i && is_component(ps[k as int]) && forall|j: int|
                    k < j < i ==> !is_component(#[trigger] ps[j]),
                None => forall|j: int| 0 <= j < i ==> !is_component(#[trigger] ps[j]),
            },
        decreases ps.len() - i,
    {
        let piece = &parts[i];
        assert(ps[i as int] == parts@[i as int]@);
        let component = piece.unicode_len() > 0 && !str_eq(piece.as_str(), ".");
        if component {
            last = Some(i);
        }
        i = i + 1;
    }
    match last {
        Some(k) => {
            let c = parts[k].clone();
            proof {
                assert(ps[k as int] == parts@[k as int]@);
                assert(exists|m: int| 0 <= m < ps.len() && is_component(#[trigger] ps[m]));
                let m = choose|m: int|
                    0 <= m < ps.len() && is_component(#[trigger] ps[m]) && forall|j: int|
                        m < j < ps.len() ==> !is_component(#[trigger] ps[j]);
                assert(0 <= k < ps.len() && is_component(ps[k as int]) && forall|j: int|
                    k < j < ps.len() ==> !is_component(#[trigger] ps[j]));
                if m < k {
                    assert(!is_component(ps[k as int]));
                } else if m > k {
                    assert(!is_component(ps[m]));
                }
            }
            Some(c)
        },
        None => {
            proof {
                assert(!exists|m: int| 0 <= m < ps.len() && is_component(#[trigger] ps[m]));
            }
            None
        },
    }
}

/// A file name whose extension, as `Path::extension` reads it, is `json`:
/// it ends in `.json` with something before that dot.
pub open spec fn has_json_extension(name: Seq<char>) -> bool {
    name.len() > 5 && name.skip(name.len() - 5) == ".json"@
}

pub fn json_extension(name: &str) -> (r: bool)
    ensures
        r == has_json_extension(name@),
{
    let n = name.unicode_len();
    if n <= 5 {
        return false;
    }
    let tail = name.substring_char(n - 5, n);
    proof {
        assert(name@.subrange(n - 5, n as int) =~= name@.skip(n - 5));
    }
    str_eq(tail, ".json")
}


/// A relative part joined onto a base keeps the base as its beginning:
/// every path the layout builds from its root lies under that root.
pub proof fn lemma_join_extends_base(base: Seq<char>, part: Seq<char>)
    requires
        part.len() > 0,
        part[0] != '/',
    ensures
        join(base, part).len() > base.len(),
        join(base, part).take(base.len() as int) == base,
{
    if base.len() == 0 || base.last() == '/' {
        assert((base + part).take(base.len() as int) =~= base);
    } else {
        assert((base + "/"@ + part).take(base.len() as int) =~= base);
    }
}

} // verus!
