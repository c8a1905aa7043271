//! Paths of the work directory and the calls into the path library.

use vstd::prelude::*;

use camino::Utf8Path;

use crate::model::{Nickname, RunId, RunPhase};
use crate::text;

verus! {

/// What `Utf8Path::join` gives.
pub uninterp spec fn path_join(base: Seq<char>, path: Seq<char>) -> Seq<char>;

/// What `Utf8Path::parent` gives.
pub uninterp spec fn path_parent(path: Seq<char>) -> Option<Seq<char>>;

/// What `Utf8Path::strip_prefix` gives, without the error's detail.
pub uninterp spec fn path_strip_prefix(path: Seq<char>, base: Seq<char>) -> Option<Seq<char>>;

/// A path that begins at the root.
pub open spec fn absolute(path: Seq<char>) -> bool {
    path.len() > 0 && path[0] == '/'
}

/// What lies between the slashes of a path.
pub open spec fn pieces(path: Seq<char>) -> Seq<Seq<char>>
    decreases path.len(),
{
    if path.len() == 0 {
        seq![Seq::empty()]
    } else {
        let before = pieces(path.drop_last());
        if path.last() == '/' {
            before.push(Seq::empty())
        } else {
            before.drop_last().push(before.last().push(path.last()))
        }
    }
}

/// The pieces that count: those that are neither empty nor `.`, where a `.` that comes
/// first counts nevertheless.
pub open spec fn counting(pieces: Seq<Seq<char>>) -> Seq<Seq<char>>
    decreases pieces.len(),
{
    if pieces.len() == 0 {
        pieces
    } else {
        let before = counting(pieces.drop_last());
        let last = pieces.last();
        if last.len() == 0 || last == "."@ && pieces.len() > 1 {
            before
        } else {
            before.push(last)
        }
    }
}

/// The components of a path: the root, if the path begins there, and the pieces that
/// count.
pub open spec fn path_components(path: Seq<char>) -> Seq<Seq<char>> {
    if absolute(path) {
        seq!["/"@] + counting(pieces(path))
    } else {
        counting(pieces(path))
    }
}

/// Whether a base is a prefix of a path, component by component.
pub open spec fn path_starts_with(path: Seq<char>, base: Seq<char>) -> bool {
    path_components(base).is_prefix_of(path_components(path))
}

/// The final component of a path, if it is an ordinary name.
pub open spec fn path_file_name(path: Seq<char>) -> Option<Seq<char>> {
    let parts = path_components(path);
    if parts.len() == 0 || parts.last() == "/"@ || parts.last() == "."@ || parts.last() == ".."@ {
        None
    } else {
        Some(parts.last())
    }
}

/// `Utf8Path::join`: adjoins a path to a base. An absolute path replaces the base, a
/// relative one extends it: the result begins with the components of the base, and is
/// absolute where the base is. Where between the two a slash is put is left unsaid.
#[verifier::external_body]
pub(crate) fn join(base: &str, path: &str) -> (joined: String)
    ensures
        joined@ == path_join(base@, path@),
        absolute(path@) ==> joined@ == path@,
        absolute(base@) ==> absolute(joined@),
        !absolute(path@) ==> path_starts_with(joined@, base@),
{
    Utf8Path::new(base).join(path).into_string()
}

/// `Utf8Path::parent`: the path without its final component. There is none for a path
/// that has no component or ends in the root.
#[verifier::external_body]
pub(crate) fn parent(path: &str) -> (found: Option<String>)
    ensures
        text::opt_text(found) == path_parent(path@),
        found is None <==> path_components(path@).len() == 0 || path_components(path@).last()
            == "/"@,
        found matches Some(p) ==> path_components(p@) == path_components(path@).drop_last(),
{
    Utf8Path::new(path).parent().map(|p| p.as_str().to_owned())
}

/// `Utf8Path::file_name`: the final component, if it is an ordinary name.
#[verifier::external_body]
pub(crate) fn file_name(path: &str) -> (found: Option<String>)
    ensures
        text::opt_text(found) == path_file_name(path@),
{
    Utf8Path::new(path).file_name().map(|n| n.to_owned())
}

/// `Utf8Path::starts_with`: whether a base is a prefix of a path, component by
/// component.
#[verifier::external_body]
pub(crate) fn starts_with(path: &str, base: &str) -> (is_prefix: bool)
    ensures
        is_prefix == path_starts_with(path@, base@),
{
    Utf8Path::new(path).starts_with(base)
}

/// `Utf8Path::strip_prefix`: what remains of a path behind a base. There is a
/// remainder exactly when the path starts with the base, and it holds the components
/// behind those of the base.
#[verifier::external_body]
pub(crate) fn strip_prefix(path: &str, base: &str) -> (rest: Option<String>)
    ensures
        text::opt_text(rest) == path_strip_prefix(path@, base@),
        rest is Some <==> path_starts_with(path@, base@),
        rest matches Some(r) ==> path_components(r@) == path_components(path@).skip(
            path_components(base@).len() as int,
        ),
{
    Utf8Path::new(path).strip_prefix(base).ok().map(|p| p.as_str().to_owned())
}

/// `Utf8Path::is_absolute`: on Unix, whether the path starts with the root.
#[verifier::external_body]
pub(crate) fn is_absolute(path: &str) -> (yes: bool)
    ensures
        yes == absolute(path@),
{
    Utf8Path::new(path).is_absolute()
}

/// `Utf8Path::components`, each as its text: repeated and trailing slashes are ignored,
/// and so is `.` except at the beginning.
#[verifier::external_body]
pub(crate) fn components(path: &str) -> (parts: Vec<String>)
    ensures
        text::texts(parts@) == path_components(path@),
{
    Utf8Path::new(path).components().map(|c| c.as_str().to_owned()).collect()
}

/// The places below a root that belong to a list of relative paths.
pub open spec fn places_below(root: Seq<char>, relatives: Seq<String>) -> Seq<Seq<char>> {
    relatives.map_values(|r: String| path_join(root, r@))
}

/// Whether two paths are the same, component by component.
pub fn same_path(a: &str, b: &str) -> (same: bool)
    ensures
        same == (path_components(a@) == path_components(b@)),
{
    let left = components(a);
    let right = components(b);
    if left.len() != right.len() {
        assert(text::texts(left@).len() != text::texts(right@).len());
        return false;
    }
    let mut i: usize = 0;
    while i < left.len()
        invariant
            i <= left.len(),
            left.len() == right.len(),
            text::texts(left@) == path_components(a@),
            text::texts(right@) == path_components(b@),
            forall|j: int| 0 <= j < i ==> (#[trigger] left@[j])@ == right@[j]@,
        decreases left.len() - i,
    {
        if !text::same_text(left[i].as_str(), right[i].as_str()) {
            assert(text::texts(left@)[i as int] != text::texts(right@)[i as int]);
            return false;
        }
        i = i + 1;
    }
    assert(text::texts(left@) =~= text::texts(right@));
    true
}

/// The directory of a run in a phase.
pub open spec fn run_dir_path(
    work_dir: Seq<char>,
    nickname: Seq<char>,
    run_id: Seq<char>,
    phase: RunPhase,
) -> Seq<char> {
    path_join(path_join(path_join(work_dir, nickname), phase.name()), run_id)
}

/// The directory of a run in a phase.
pub fn run_dir(work_dir: &str, nickname: &Nickname, run_id: &RunId, phase: RunPhase) -> (dir:
    String)
    ensures
        dir@ == run_dir_path(work_dir@, nickname@, run_id@, phase),
{
    let client = join(work_dir, nickname.as_str());
    let phase_dir = join(client.as_str(), phase.as_str());
    join(phase_dir.as_str(), run_id.as_str())
}

/// The area in which a run's entries are prepared.
pub open spec fn work_area_path(
    work_dir: Seq<char>,
    nickname: Seq<char>,
    run_id: Seq<char>,
) -> Seq<char> {
    path_join(run_dir_path(work_dir, nickname, run_id, RunPhase::Processing), "work"@)
}

/// The area in which a run's entries are prepared. It lies inside the run's processing
/// directory.
pub fn work_area(work_dir: &str, nickname: &Nickname, run_id: &RunId) -> (dir: String)
    ensures
        dir@ == work_area_path(work_dir@, nickname@, run_id@),
{
    let processing = run_dir(work_dir, nickname, run_id, RunPhase::Processing);
    join(processing.as_str(), "work")
}

/// A component that can stand in a normalized path.
pub open spec fn plain_component(part: Seq<char>) -> bool {
    part.len() > 0 && part != "."@ && part != ".."@
}

/// Whether the characters from `start` to `end` are one component: what lies
/// between two slashes or an end of the path.
pub open spec fn is_component(path: Seq<char>, start: int, end: int) -> bool {
    &&& 0 <= start <= end <= path.len()
    &&& start == 0 || path[start - 1] == '/'
    &&& end == path.len() || path[end] == '/'
    &&& forall|i: int| start <= i < end ==> path[i] != '/'
}

/// A relative path without empty components and without `.` and `..`: it stays
/// below whatever it is joined to.
pub open spec fn normalized_relative(path: Seq<char>) -> bool {
    forall|start: int, end: int| #[trigger]
        is_component(path, start, end) ==> plain_component(path.subrange(start, end))
}

/// Whether a path is relative and normalized.
pub fn is_normalized_relative(path: &str) -> (ok: bool)
    ensures
        ok == normalized_relative(path@),
{
    let length: usize = path.unicode_len();
    let mut start: usize = 0;
    let mut i: usize = 0;
    loop
        invariant
            start <= i <= length,
            length == path@.len(),
            start == 0 || path@[start - 1] == '/',
            forall|k: int| start <= k < i ==> path@[k] != '/',
            forall|a: int, b: int| #[trigger]
                is_component(path@, a, b) && b < i ==> plain_component(path@.subrange(a, b)),
        decreases length - i,
    {
        if i == length || path.get_char(i) == '/' {
            assert(is_component(path@, start as int, i as int));
            let part = path.substring_char(start, i);
            if i == start || text::same_text(part, ".") || text::same_text(part, "..") {
                return false;
            }
            assert forall|a: int, b: int| #[trigger]
                is_component(path@, a, b) && b <= i implies plain_component(
                path@.subrange(a, b),
            ) by {
                if b == i && a != start {
                    if a < start {
                        assert(path@[start - 1] == '/');
                    } else {
                        assert(path@[a - 1] == '/');
                    }
                }
            }
            if i == length {
                return true;
            }
            start = i + 1;
        }
        i = i + 1;
    }
}

/// A normalized relative path is not empty and not absolute.
pub proof fn normalized_paths_are_relative(path: Seq<char>)
    requires
        normalized_relative(path),
    ensures
        path.len() > 0,
        !absolute(path),
{
    if path.len() == 0 {
        assert(is_component(path, 0, 0));
    } else if path[0] == '/' {
        assert(is_component(path, 0, 0));
    }
}

/// Whether a piece of a path stands between two of its slashes or ends; the last piece
/// and no other stands at the end.
spec fn stands(path: Seq<char>, k: int, start: int, end: int) -> bool {
    &&& is_component(path, start, end)
    &&& path.subrange(start, end) == pieces(path)[k]
    &&& end == path.len() <==> k == pieces(path).len() - 1
}

proof fn lemma_pieces_stand(path: Seq<char>, k: int)
    requires
        0 <= k < pieces(path).len(),
    ensures
        exists|start: int, end: int| stands(path, k, start, end),
    decreases path.len(),
{
    let n = path.len() as int;
    if n == 0 {
        assert(path.subrange(0, 0) =~= pieces(path)[0]);
        assert(stands(path, k, 0, 0));
    } else if path.last() == '/' && k == pieces(path).len() - 1 {
        assert(path.subrange(n, n) =~= pieces(path)[k]);
        assert(stands(path, k, n, n));
    } else {
        let before = path.drop_last();
        lemma_pieces_are_some(before);
        lemma_pieces_stand(before, k);
        let (start, end) = choose|start: int, end: int| stands(before, k, start, end);
        assert(forall|i: int| 0 <= i < n - 1 ==> path[i] == before[i]);
        assert(is_component(before, start, end));
        if end == n - 1 && path.last() != '/' {
            assert(path.subrange(start, n) =~= before.subrange(start, n - 1).push(path.last()));
            assert(is_component(path, start, n));
            assert(stands(path, k, start, n));
        } else {
            assert(path.subrange(start, end) =~= before.subrange(start, end));
            assert(is_component(path, start, end));
            assert(stands(path, k, start, end));
        }
    }
}

proof fn lemma_pieces_are_some(path: Seq<char>)
    ensures
        pieces(path).len() > 0,
    decreases path.len(),
{
    if path.len() > 0 {
        lemma_pieces_are_some(path.drop_last());
    }
}

proof fn lemma_plain_pieces_count(pieces: Seq<Seq<char>>)
    requires
        forall|k: int| 0 <= k < pieces.len() ==> plain_component(#[trigger] pieces[k]),
    ensures
        counting(pieces) == pieces,
    decreases pieces.len(),
{
    if pieces.len() > 0 {
        lemma_plain_pieces_count(pieces.drop_last());
        assert(plain_component(pieces[pieces.len() - 1]));
        assert(pieces.drop_last().push(pieces.last()) =~= pieces);
    }
}

proof fn lemma_counting_pieces_are_pieces(pieces: Seq<Seq<char>>, k: int)
    requires
        0 <= k < counting(pieces).len(),
    ensures
        counting(pieces)[k].len() > 0,
        exists|j: int| 0 <= j < pieces.len() && #[trigger] pieces[j] == counting(pieces)[k],
    decreases pieces.len(),
{
    if pieces.len() > 0 {
        let before = pieces.drop_last();
        if k < counting(before).len() {
            lemma_counting_pieces_are_pieces(before, k);
            let j = choose|j: int| 0 <= j < before.len() && before[j] == counting(before)[k];
            assert(pieces[j] == counting(pieces)[k]);
        } else {
            assert(pieces[pieces.len() - 1] == counting(pieces)[k]);
        }
    }
}

/// What lies below a path lies below whatever that path lies below.
pub proof fn below_is_transitive(path: Seq<char>, between: Seq<char>, base: Seq<char>)
    requires
        path_starts_with(path, between),
        path_starts_with(between, base),
    ensures
        path_starts_with(path, base),
{
    let (long, middle, short) = (
        path_components(path),
        path_components(between),
        path_components(base),
    );
    assert forall|i: int| 0 <= i < short.len() implies short[i] == long[i] by {
        assert(short[i] == middle.subrange(0, short.len() as int)[i]);
        assert(middle[i] == long.subrange(0, middle.len() as int)[i]);
    }
    assert(short =~= long.subrange(0, short.len() as int));
}

/// Only the first component of a path can be absolute: the root.
pub proof fn components_behind_the_first_are_relative(path: Seq<char>, k: int)
    requires
        0 < k < path_components(path).len(),
    ensures
        !absolute(path_components(path)[k]),
{
    let parts = counting(pieces(path));
    let at: int = if absolute(path) {
        k - 1
    } else {
        k
    };
    lemma_counting_pieces_are_pieces(pieces(path), at);
    let j = choose|j: int| 0 <= j < pieces(path).len() && pieces(path)[j] == parts[at];
    lemma_pieces_stand(path, j);
    let (start, end) = choose|start: int, end: int| stands(path, j, start, end);
    assert(is_component(path, start, end));
    assert(path.subrange(start, end)[0] == path[start]);
}

/// The components of a normalized relative path are the pieces between its slashes, and
/// none of them leads upwards.
pub proof fn normalized_paths_never_lead_upwards(path: Seq<char>)
    requires
        normalized_relative(path),
    ensures
        path_components(path) == pieces(path),
        !path_components(path).contains(".."@),
{
    normalized_paths_are_relative(path);
    assert forall|k: int| 0 <= k < pieces(path).len() implies plain_component(
        #[trigger] pieces(path)[k],
    ) by {
        lemma_pieces_stand(path, k);
        let (start, end) = choose|start: int, end: int| stands(path, k, start, end);
        assert(is_component(path, start, end));
    }
    lemma_plain_pieces_count(pieces(path));
}

/// Pieces with a slash between each two of them.
pub open spec fn with_slashes(pieces: Seq<Seq<char>>) -> Seq<char>
    decreases pieces.len(),
{
    if pieces.len() == 0 {
        Seq::empty()
    } else if pieces.len() == 1 {
        pieces[0]
    } else {
        with_slashes(pieces.drop_last()) + seq!['/'] + pieces.last()
    }
}

/// The pieces of a path make up the path, with a slash between each two of them, and none
/// of them holds a slash.
pub proof fn pieces_make_up_the_path(path: Seq<char>)
    ensures
        pieces(path).len() > 0,
        with_slashes(pieces(path)) == path,
        forall|k: int| 0 <= k < pieces(path).len() ==> !(#[trigger] pieces(path)[k]).contains('/'),
    decreases path.len(),
{
    let all = pieces(path);
    if path.len() == 0 {
        assert(all[0] =~= path);
    } else {
        let shorter = path.drop_last();
        let before = pieces(shorter);
        let c = path.last();
        pieces_make_up_the_path(shorter);
        assert(path =~= shorter.push(c));
        if c == '/' {
            assert(all.drop_last() =~= before);
            assert(with_slashes(all) =~= shorter + seq!['/']);
        } else {
            let last = before.last().push(c);
            assert(all.drop_last() =~= before.drop_last());
            assert(all.last() == last);
            if before.len() == 1 {
                assert(with_slashes(all) == all[0]);
                assert(before[0] == shorter);
            } else {
                assert(with_slashes(all) =~= (with_slashes(before.drop_last()) + seq!['/']
                    + before.last()).push(c));
            }
            assert(before[before.len() - 1] == before.last());
            assert forall|k: int| 0 <= k < all.len() implies !(#[trigger] all[k]).contains('/') by {
                if k == all.len() - 1 {
                    if last.contains('/') {
                        let i = choose|i: int| 0 <= i < last.len() && last[i] == '/';
                        assert(before.last()[i] == '/');
                    }
                } else {
                    assert(all[k] == before[k]);
                }
            }
        }
    }
}

/// The components of a relative path are the pieces between its slashes in order, without
/// those that are empty or, behind the first, `.`; an absolute path has the root before
/// them.
pub proof fn components_are_the_pieces_that_name_something(path: Seq<char>)
    ensures
        ({
            let first = pieces(path)[0];
            let behind = pieces(path).skip(1).filter(
                |piece: Seq<char>| piece.len() > 0 && piece != "."@,
            );
            let named = if first.len() > 0 {
                seq![first] + behind
            } else {
                behind
            };
            path_components(path) == (if path.len() > 0 && path[0] == '/' {
                seq!["/"@] + named
            } else {
                named
            })
        }),
{
    lemma_pieces_are_some(path);
    lemma_counting_filters(pieces(path));
}

proof fn lemma_counting_filters(pieces: Seq<Seq<char>>)
    requires
        pieces.len() > 0,
    ensures
        ({
            let behind = pieces.skip(1).filter(
                |piece: Seq<char>| piece.len() > 0 && piece != "."@,
            );
            counting(pieces) == (if pieces[0].len() > 0 {
                seq![pieces[0]] + behind
            } else {
                behind
            })
        }),
    decreases pieces.len(),
{
    let named = |piece: Seq<char>| piece.len() > 0 && piece != "."@;
    reveal(Seq::filter);
    if pieces.len() == 1 {
        assert(pieces.skip(1) =~= Seq::<Seq<char>>::empty());
        assert(pieces.drop_last() =~= Seq::<Seq<char>>::empty());
        assert(pieces.skip(1).filter(named) =~= Seq::<Seq<char>>::empty());
        assert(counting(pieces) =~= (if pieces[0].len() > 0 {
            seq![pieces[0]] + pieces.skip(1).filter(named)
        } else {
            pieces.skip(1).filter(named)
        })) by {
            reveal_with_fuel(counting, 2);
        }
    } else {
        lemma_counting_filters(pieces.drop_last());
        assert(pieces.skip(1).drop_last() =~= pieces.drop_last().skip(1));
        assert(pieces.skip(1).last() == pieces.last());
        assert(counting(pieces) =~= (if pieces[0].len() > 0 {
            seq![pieces[0]] + pieces.skip(1).filter(named)
        } else {
            pieces.skip(1).filter(named)
        }));
    }
}

proof fn lemma_components_are_pieces(path: Seq<char>, start: int, end: int)
    requires
        is_component(path, start, end),
    ensures
        pieces(path).contains(path.subrange(start, end)),
        end == path.len() ==> pieces(path).last() == path.subrange(start, end),
    decreases path.len(),
{
    let n = path.len() as int;
    let part = path.subrange(start, end);
    lemma_pieces_are_some(path);
    if n == 0 {
        assert(part =~= pieces(path)[0]);
        assert(pieces(path).contains(pieces(path)[0]));
    } else {
        let before = path.drop_last();
        lemma_pieces_are_some(before);
        assert(forall|i: int| 0 <= i < n - 1 ==> path[i] == before[i]);
        if end < n {
            assert(is_component(before, start, end));
            lemma_components_are_pieces(before, start, end);
            assert(part =~= before.subrange(start, end));
            if path.last() == '/' {
                let k = choose|k: int| 0 <= k < pieces(before).len() && pieces(before)[k] == part;
                assert(pieces(path)[k] == part);
            } else {
                assert(end < n - 1);
                lemma_pieces_end(before, start, end);
                let front = pieces(before).drop_last();
                let k = choose|k: int| 0 <= k < front.len() && front[k] == part;
                assert(pieces(path)[k] == part);
            }
        } else if start == n {
            assert(path.last() == '/');
            assert(part =~= Seq::<char>::empty());
            assert(pieces(path).last() == part);
            assert(pieces(path)[pieces(path).len() - 1] == part);
        } else {
            assert(path[n - 1] != '/');
            assert(is_component(before, start, n - 1));
            lemma_components_are_pieces(before, start, n - 1);
            assert(part =~= before.subrange(start, n - 1).push(path.last()));
            assert(pieces(path).last() == part);
            assert(pieces(path)[pieces(path).len() - 1] == part);
        }
    }
}

/// A component that ends before the path does is a piece before the last one.
proof fn lemma_pieces_end(path: Seq<char>, start: int, end: int)
    requires
        is_component(path, start, end),
        end < path.len(),
    ensures
        pieces(path).drop_last().contains(path.subrange(start, end)),
    decreases path.len(),
{
    let n = path.len() as int;
    let before = path.drop_last();
    lemma_pieces_are_some(before);
    assert(forall|i: int| 0 <= i < n - 1 ==> path[i] == before[i]);
    assert(is_component(before, start, end));
    assert(path.subrange(start, end) =~= before.subrange(start, end));
    if path.last() == '/' {
        lemma_components_are_pieces(before, start, end);
        assert(pieces(path).drop_last() =~= pieces(before));
    } else {
        lemma_pieces_end(before, start, end);
        assert(pieces(path).drop_last() =~= pieces(before).drop_last());
    }
}

/// A path is relative and normalized if and only if none of the pieces between its slashes
/// is empty, `.` or `..`.
pub proof fn normalized_paths_have_plain_pieces(path: Seq<char>)
    ensures
        normalized_relative(path) <==> forall|k: int|
            0 <= k < pieces(path).len() ==> {
                &&& (#[trigger] pieces(path)[k]).len() > 0
                &&& pieces(path)[k] != "."@
                &&& pieces(path)[k] != ".."@
            },
{
    if normalized_relative(path) {
        assert forall|k: int| 0 <= k < pieces(path).len() implies {
            &&& (#[trigger] pieces(path)[k]).len() > 0
            &&& pieces(path)[k] != "."@
            &&& pieces(path)[k] != ".."@
        } by {
            lemma_pieces_stand(path, k);
            let (start, end) = choose|start: int, end: int| stands(path, k, start, end);
            assert(is_component(path, start, end));
        }
    }
    if forall|k: int|
        0 <= k < pieces(path).len() ==> {
            &&& (#[trigger] pieces(path)[k]).len() > 0
            &&& pieces(path)[k] != "."@
            &&& pieces(path)[k] != ".."@
        } {
        assert forall|start: int, end: int| #[trigger]
            is_component(path, start, end) implies plain_component(path.subrange(start, end)) by {
            lemma_components_are_pieces(path, start, end);
            let k = choose|k: int|
                0 <= k < pieces(path).len() && pieces(path)[k] == path.subrange(start, end);
            assert(pieces(path)[k].len() > 0);
        }
    }
}

/// The directory of a run lies in that of its phase, this in that of its client, and this
/// in the work directory; the work area of a run lies in its directory in processing.
pub proof fn run_directories_are_named_after_their_run(
    work_dir: Seq<char>,
    nickname: Seq<char>,
    run_id: Seq<char>,
)
    ensures
        ({
            let client = path_join(work_dir, nickname);
            let processing = path_join(path_join(client, "processing"@), run_id);
            &&& run_dir_path(work_dir, nickname, run_id, RunPhase::Incoming) == path_join(
                path_join(client, "incoming"@),
                run_id,
            )
            &&& run_dir_path(work_dir, nickname, run_id, RunPhase::Ready) == path_join(
                path_join(client, "ready"@),
                run_id,
            )
            &&& run_dir_path(work_dir, nickname, run_id, RunPhase::Processing) == processing
            &&& run_dir_path(work_dir, nickname, run_id, RunPhase::Done) == path_join(
                path_join(client, "done"@),
                run_id,
            )
            &&& run_dir_path(work_dir, nickname, run_id, RunPhase::Failed) == path_join(
                path_join(client, "failed"@),
                run_id,
            )
            &&& work_area_path(work_dir, nickname, run_id) == path_join(processing, "work"@)
        }),
{
}

/// A path lies below another if and only if it has the components of the other and then
/// any number of further ones.
pub proof fn below_is_by_components(path: Seq<char>, base: Seq<char>)
    ensures
        path_starts_with(path, base) <==> exists|rest: Seq<Seq<char>>|
            path_components(path) == #[trigger] (path_components(base) + rest),
{
    let (long, short) = (path_components(path), path_components(base));
    if path_starts_with(path, base) {
        let rest = long.skip(short.len() as int);
        assert forall|i: int| 0 <= i < short.len() implies short[i] == long[i] by {
            assert(short[i] == long.subrange(0, short.len() as int)[i]);
        }
        assert(long =~= short + rest);
    }
    if exists|rest: Seq<Seq<char>>| long == #[trigger] (short + rest) {
        let rest = choose|rest: Seq<Seq<char>>| long == #[trigger] (short + rest);
        assert(short =~= long.subrange(0, short.len() as int));
    }
}

/// The file name of a path is its last component, unless this is the root or leads
/// nowhere.
pub proof fn file_names_are_last_components(path: Seq<char>, name: Seq<char>)
    ensures
        path_file_name(path) == Some(name) <==> {
            &&& path_components(path).len() > 0
            &&& path_components(path)[path_components(path).len() - 1] == name
            &&& name != "/"@ && name != "."@ && name != ".."@
        },
{
}

} // verus!
