//! The path resolver: turns a path asked for by a client into a location
//! that is known to lie below the sandbox root.
//!
//! A path is a list of names, read from the filesystem root downwards. Two
//! paths are the same when their names are; `.` and empty names never occur
//! in one, and `..` only where a caller put it there.

use crate::text::{chars_of, clone_names, names, string_of};
use vstd::prelude::*;

verus! {

/// The message of the one error the resolver has. It does not say why the
/// path was refused.
pub open spec fn access_denied() -> Seq<char> {
    "Access denied: Invalid path"@
}

/// The pieces of `s` between its slashes. A string without a slash is one
/// piece; a leading, trailing or doubled slash gives an empty piece.
pub open spec fn segments(s: Seq<char>) -> Seq<Seq<char>>
    decreases s.len(),
{
    if s.len() == 0 {
        seq![Seq::<char>::empty()]
    } else {
        let before = segments(s.drop_last());
        if s.last() == '/' {
            before.push(Seq::<char>::empty())
        } else {
            before.drop_last().push(before.last().push(s.last()))
        }
    }
}

/// Whether `name` can stand in a path below the root: it is not empty, not
/// `.` or `..`, and holds no slash.
pub open spec fn is_name(name: Seq<char>) -> bool {
    &&& name.len() > 0
    &&& name != seq!['.']
    &&& name != seq!['.', '.']
    &&& !name.contains('/')
}

/// One step of the walk: what the cursor `below` (the names under the root
/// so far) becomes on `piece`. `None` is a walk that tried to leave the root.
pub open spec fn walk_step(below: Option<Seq<Seq<char>>>, piece: Seq<char>) -> Option<
    Seq<Seq<char>>,
> {
    match below {
        None => None,
        Some(names) => if piece.len() == 0 || piece == seq!['.'] {
            Some(names)
        } else if piece == seq!['.', '.'] {
            if names.len() == 0 {
                None
            } else {
                Some(names.drop_last())
            }
        } else {
            Some(names.push(piece))
        },
    }
}

/// The walk over `pieces`, starting at the root: the names under the root
/// where it ends, or `None` if at some piece it tried to go above the root.
/// Going above the root is final: later pieces cannot mend it.
pub open spec fn walk(pieces: Seq<Seq<char>>) -> Option<Seq<Seq<char>>>
    decreases pieces.len(),
{
    if pieces.len() == 0 {
        Some(Seq::<Seq<char>>::empty())
    } else {
        walk_step(walk(pieces.drop_last()), pieces.last())
    }
}

/// The logical path for `user_path` below `root`, or `None` where the path
/// is refused.
pub open spec fn logical_path(root: Seq<Seq<char>>, user_path: Seq<char>) -> Option<
    Seq<Seq<char>>,
> {
    match walk(segments(user_path)) {
        None => None,
        Some(below) => Some(root + below),
    }
}

/// Whether `path` is `root` or lies below it, name by name.
pub open spec fn is_under(root: Seq<Seq<char>>, path: Seq<Seq<char>>) -> bool {
    root.is_prefix_of(path)
}

/// Whether `path` is `root` followed by names that cannot lead out of it.
pub open spec fn is_descendant(root: Seq<Seq<char>>, path: Seq<Seq<char>>) -> bool {
    &&& is_under(root, path)
    &&& forall|i: int| root.len() <= i < path.len() ==> is_name(#[trigger] path[i])
}

/// A backslash becomes a slash; every other character stays.
pub open spec fn slashed(c: char) -> char {
    if c == '\\' {
        '/'
    } else {
        c
    }
}

/// The names of a path written one after the other, each with a slash in
/// front of it.
pub open spec fn joined(path: Seq<Seq<char>>) -> Seq<char>
    decreases path.len(),
{
    if path.len() == 0 {
        Seq::<char>::empty()
    } else {
        joined(path.drop_last()) + seq!['/'] + path.last()
    }
}

/// How `full` is shown to a client of the sandbox at `root`: the names below
/// the root, each after a slash and with slashes for backslashes; a single
/// slash for the root itself and for a path that is not under the root.
pub open spec fn relative(root: Seq<Seq<char>>, full: Seq<Seq<char>>) -> Seq<char> {
    if is_under(root, full) && full.len() > root.len() {
        joined(full.subrange(root.len() as int, full.len() as int)).map_values(
            |c: char| slashed(c),
        )
    } else {
        seq!['/']
    }
}

/// A resolved path: as it was asked for, and as it is on disk.
#[derive(Clone, Debug, PartialEq, Eq)]
pub struct SafePathResult {
    /// The path as requested: the root, then the names that the walk left.
    /// No link was followed to build it.
    pub logical: Vec<String>,
    /// The path to work on: the logical path with its links resolved, or the
    /// logical path itself while the target does not exist.
    pub actual: Vec<String>,
}

impl SafePathResult {
    /// The names of the logical path.
    pub open spec fn logical_names(&self) -> Seq<Seq<char>> {
        names(self.logical@)
    }

    /// The names of the actual path.
    pub open spec fn actual_names(&self) -> Seq<Seq<char>> {
        names(self.actual@)
    }

    /// Whether both paths are the root or lie below it.
    pub open spec fn confined(&self, root: Seq<Seq<char>>) -> bool {
        &&& is_descendant(root, self.logical_names())
        &&& is_under(root, self.actual_names())
    }

    /// Takes `canonical`, the logical path with its links resolved, as the
    /// actual path. A target that resolves to a place outside the root is
    /// refused, with the same error as a walk that leaves the root.
    pub fn with_actual(self, root: &Vec<String>, canonical: Vec<String>) -> (r: Result<
        SafePathResult,
        String,
    >)
        ensures
            is_under(names(root@), names(canonical@)) ==> r is Ok && r->Ok_0.logical == self.logical
                && r->Ok_0.actual == canonical,
            !is_under(names(root@), names(canonical@)) ==> r is Err && r->Err_0@
                == access_denied(),
            r is Ok && self.confined(names(root@)) ==> r->Ok_0.confined(names(root@)),
    {
        if starts_with(&canonical, root) {
            Ok(SafePathResult { logical: self.logical, actual: canonical })
        } else {
            Err("Access denied: Invalid path".to_owned())
        }
    }
}

/// Whether `path` is `root` or lies below it.
pub fn starts_with(path: &Vec<String>, root: &Vec<String>) -> (r: bool)
    ensures
        r == is_under(names(root@), names(path@)),
{
    if root.len() > path.len() {
        return false;
    }
    let mut i: usize = 0;
    while i < root.len()
        invariant
            i <= root.len() <= path.len(),
            forall|j: int| 0 <= j < i ==> root@[j]@ == path@[j]@,
        decreases root.len() - i,
    {
        if root[i] != path[i] {
            assert(names(root@)[i as int] != names(path@)[i as int]);
            return false;
        }
        i += 1;
    }
    assert(names(root@) =~= names(path@).subrange(0, root.len() as int));
    true
}

/// `path` with `name` added below it.
pub fn join(path: &Vec<String>, name: &str) -> (out: Vec<String>)
    ensures
        names(out@) == names(path@).push(name@),
{
    let mut out = clone_names(path);
    out.push(name.to_owned());
    assert(names(out@) =~= names(path@).push(name@));
    out
}

/// Resolves `user_path` below `root` without touching the disk.
///
/// The path is cut at its slashes and walked from the root: an empty piece
/// or `.` stays, `..` goes up one name, any other piece goes down into it.
/// A `..` at the root is refused at once, however the path goes on. On
/// success both paths of the result are the logical path; a caller that
/// finds the target on disk hands its resolved form to
/// [`SafePathResult::with_actual`].
pub fn safe_path(root: &Vec<String>, user_path: &str) -> (r: Result<SafePathResult, String>)
    ensures
        match logical_path(names(root@), user_path@) {
            Some(path) => r is Ok && r->Ok_0.logical_names() == path && r->Ok_0.actual_names()
                == path && r->Ok_0.confined(names(root@)),
            None => r is Err && r->Err_0@ == access_denied(),
        },
{
    let chars = chars_of(user_path);
    let mut below: Vec<String> = Vec::new();
    let mut piece: Vec<char> = Vec::new();
    let mut denied = false;
    let mut i: usize = 0;
    proof {
        assert(chars@.subrange(0, 0) =~= Seq::<char>::empty());
        assert(segments(Seq::<char>::empty()).drop_last() =~= Seq::<Seq<char>>::empty());
    }
    while i < chars.len()
        invariant
            i <= chars.len(),
            chars@ == user_path@,
            piece@ == segments(chars@.subrange(0, i as int)).last(),
            !piece@.contains('/'),
            segments(chars@.subrange(0, i as int)).len() > 0,
            walk(segments(chars@.subrange(0, i as int)).drop_last()) == (if denied {
                None
            } else {
                Some(names(below@))
            }),
            forall|j: int| 0 <= j < below.len() ==> is_name(#[trigger] below@[j]@),
        decreases chars.len() - i,
    {
        let c = chars[i];
        let ghost before = chars@.subrange(0, i as int);
        let ghost after = chars@.subrange(0, i + 1);
        proof {
            assert(after.drop_last() =~= before);
            assert(after.last() == c);
        }
        if c == '/' {
            proof {
                assert(segments(after).drop_last() =~= segments(before));
                assert(segments(before) =~= segments(before).drop_last().push(piece@));
                assert(segments(before).drop_last() == segments(before).drop_last().push(
                    piece@,
                ).drop_last());
            }
            if !denied {
                denied = take_piece(&mut below, &piece);
            }
            piece = Vec::new();
        } else {
            proof {
                assert(segments(after).drop_last() =~= segments(before).drop_last());
                assert(piece@.push(c).contains('/') ==> piece@.contains('/')) by {
                    if piece@.push(c).contains('/') {
                        let k = choose|k: int|
                            0 <= k < piece@.push(c).len() && piece@.push(c)[k] == '/';
                        assert(piece@[k] == '/');
                    }
                }
            }
            piece.push(c);
        }
        i += 1;
    }
    proof {
        assert(chars@.subrange(0, i as int) =~= user_path@);
        let all = segments(user_path@);
        assert(all =~= all.drop_last().push(piece@));
    }
    if !denied {
        denied = take_piece(&mut below, &piece);
    }
    if denied {
        return Err("Access denied: Invalid path".to_owned());
    }
    let mut logical = clone_names(root);
    let ghost rooted = names(root@);
    let mut k: usize = 0;
    while k < below.len()
        invariant
            k <= below.len(),
            rooted == names(root@),
            names(logical@) == rooted + names(below@).subrange(0, k as int),
            forall|j: int| 0 <= j < below.len() ==> is_name(#[trigger] below@[j]@),
        decreases below.len() - k,
    {
        let ghost so_far = names(logical@);
        logical.push(below[k].clone());
        assert(names(logical@) =~= so_far.push(below@[k as int]@));
        k += 1;
        assert(names(below@).subrange(0, k as int) =~= names(below@).subrange(0, k - 1).push(
            below@[k - 1]@,
        ));
    }
    let actual = clone_names(&logical);
    proof {
        assert(names(below@).subrange(0, k as int) =~= names(below@));
        assert(names(actual@) =~= names(logical@));
        assert(rooted =~= names(logical@).subrange(0, rooted.len() as int));
    }
    Ok(SafePathResult { logical, actual })
}

/// What resolving `user_path` below `root` gives: the logical path and the
/// actual path. `canonical` is the logical path with its links resolved,
/// where the target is on disk; it is then the actual path, unless it lies
/// outside the root, which refuses the whole request. Where the target is
/// not on disk the actual path is the logical one. `None` is a refusal.
pub open spec fn resolved(
    root: Seq<Seq<char>>,
    user_path: Seq<char>,
    canonical: Option<Seq<Seq<char>>>,
) -> Option<(Seq<Seq<char>>, Seq<Seq<char>>)> {
    match logical_path(root, user_path) {
        None => None,
        Some(logical) => match canonical {
            None => Some((logical, logical)),
            Some(actual) => if is_under(root, actual) {
                Some((logical, actual))
            } else {
                None
            },
        },
    }
}

/// Resolves `user_path` below `root`, as [`resolved`] says. Every refusal
/// has the same error, whether the path left the root as it was asked for
/// or through a link.
///
/// A caller gets `canonical` in two steps: [`safe_path`] gives the logical
/// path, and the filesystem resolves it if it is there.
pub fn resolve(root: &Vec<String>, user_path: &str, canonical: Option<Vec<String>>) -> (r: Result<
    SafePathResult,
    String,
>)
    ensures
        match resolved(
            names(root@),
            user_path@,
            match canonical {
                Some(c) => Some(names(c@)),
                None => None,
            },
        ) {
            Some((logical, actual)) => r is Ok && r->Ok_0.logical_names() == logical
                && r->Ok_0.actual_names() == actual && r->Ok_0.confined(names(root@)),
            None => r is Err && r->Err_0@ == access_denied(),
        },
{
    match safe_path(root, user_path) {
        Err(e) => Err(e),
        Ok(paths) => match canonical {
            None => Ok(paths),
            Some(actual) => paths.with_actual(root, actual),
        },
    }
}

/// Whatever is resolved lies in the sandbox, as asked for and as it is on
/// disk: the logical path is the root followed by names that lead only
/// down, and the actual path is the root or lies below it.
pub proof fn lemma_resolved_is_confined(
    root: Seq<Seq<char>>,
    user_path: Seq<char>,
    canonical: Option<Seq<Seq<char>>>,
)
    ensures
        resolved(root, user_path, canonical) matches Some((logical, actual)) ==> is_descendant(
            root,
            logical,
        ) && is_under(root, actual),
{
    lemma_resolved_path_is_confined(root, user_path);
}

/// Walks one piece: moves `below` as [`walk_step`] says and returns whether
/// the piece tried to leave the root, in which case `below` stays.
fn take_piece(below: &mut Vec<String>, piece: &Vec<char>) -> (denied: bool)
    requires
        !piece@.contains('/'),
        forall|j: int| 0 <= j < old(below).len() ==> is_name(#[trigger] old(below)@[j]@),
    ensures
        walk_step(Some(names(old(below)@)), piece@) == (if denied {
            None
        } else {
            Some(names(final(below)@))
        }),
        denied ==> final(below)@ == old(below)@,
        forall|j: int| 0 <= j < final(below).len() ==> is_name(#[trigger] final(below)@[j]@),
{
    let n = piece.len();
    if n == 0 {
        false
    } else if n == 1 && piece[0] == '.' {
        assert(piece@ =~= seq!['.']);
        false
    } else if n == 2 && piece[0] == '.' && piece[1] == '.' {
        assert(piece@ =~= seq!['.', '.']);
        if below.len() == 0 {
            true
        } else {
            below.pop();
            assert(names(below@) =~= names(old(below)@).drop_last());
            false
        }
    } else {
        assert(piece@ != seq!['.']) by {
            if piece@ == seq!['.'] {
                assert(piece@.len() == 1 && piece@[0] == '.');
            }
        }
        assert(piece@ != seq!['.', '.']) by {
            if piece@ == seq!['.', '.'] {
                assert(piece@.len() == 2 && piece@[0] == '.' && piece@[1] == '.');
            }
        }
        below.push(string_of(piece));
        assert(names(below@) =~= names(old(below)@).push(piece@));
        false
    }
}

/// The path `full` as a client of the sandbox at `root` sees it: a slash and
/// the names below the root, joined by slashes; `/` alone for the root and
/// for a path that does not lie under the root.
pub fn relative_path(root: &Vec<String>, full_path: &Vec<String>) -> (out: String)
    ensures
        out@ == relative(names(root@), names(full_path@)),
{
    if !starts_with(full_path, root) || full_path.len() == root.len() {
        proof {
            reveal_strlit("/");
        }
        assert("/"@ =~= seq!['/']);
        return "/".to_owned();
    }
    let mut out: Vec<char> = Vec::new();
    let mut i: usize = root.len();
    let ghost below = names(full_path@).subrange(root.len() as int, full_path.len() as int);
    proof {
        assert(below.subrange(0, 0) =~= Seq::<Seq<char>>::empty());
    }
    while i < full_path.len()
        invariant
            root.len() <= i <= full_path.len(),
            below == names(full_path@).subrange(root.len() as int, full_path.len() as int),
            out@ == joined(below.subrange(0, i - root.len())).map_values(|c: char| slashed(c)),
        decreases full_path.len() - i,
    {
        let name = chars_of(full_path[i].as_str());
        let ghost done = below.subrange(0, i - root.len());
        let ghost next = below.subrange(0, i + 1 - root.len());
        let ghost start = out@;
        out.push('/');
        let mut k: usize = 0;
        while k < name.len()
            invariant
                k <= name.len(),
                out@ == start.push('/') + name@.subrange(0, k as int).map_values(
                    |c: char| slashed(c),
                ),
            decreases name.len() - k,
        {
            let c = name[k];
            if c == '\\' {
                out.push('/');
            } else {
                out.push(c);
            }
            k += 1;
            assert(out@ =~= start.push('/') + name@.subrange(0, k as int).map_values(
                |c: char| slashed(c),
            ));
        }
        proof {
            assert(name@.subrange(0, k as int) =~= name@);
            assert(next.drop_last() =~= done);
            assert(next.last() == name@);
            assert(joined(next) == joined(done) + seq!['/'] + name@);
            assert(out@ =~= joined(next).map_values(|c: char| slashed(c)));
        }
        i += 1;
    }
    proof {
        assert(below.subrange(0, i - root.len()) =~= below);
    }
    string_of(&out)
}

/// A resolved path stays in the sandbox: its logical path is the root
/// followed only by names that lead nowhere but down, however many `..` the
/// request held; and a request that is refused is refused whatever else it
/// holds after the piece that left the root.
pub proof fn lemma_resolved_path_is_confined(root: Seq<Seq<char>>, user_path: Seq<char>)
    ensures
        logical_path(root, user_path) matches Some(path) ==> is_descendant(root, path),
{
    lemma_segments_have_no_slash(user_path);
    lemma_walk_names(segments(user_path));
    match walk(segments(user_path)) {
        None => {},
        Some(below) => {
            let path = root + below;
            assert(root =~= path.subrange(0, root.len() as int));
            assert forall|i: int| root.len() <= i < path.len() implies is_name(
                #[trigger] path[i],
            ) by {
                assert(path[i] == below[i - root.len()]);
            }
        },
    }
}

/// No piece of a string holds a slash, and there is at least one piece.
pub proof fn lemma_segments_have_no_slash(s: Seq<char>)
    ensures
        segments(s).len() >= 1,
        forall|i: int| 0 <= i < segments(s).len() ==> !(#[trigger] segments(s)[i]).contains('/'),
    decreases s.len(),
{
    if s.len() > 0 {
        lemma_segments_have_no_slash(s.drop_last());
        let before = segments(s.drop_last());
        if s.last() != '/' {
            let grown = before.last().push(s.last());
            assert(!grown.contains('/')) by {
                if grown.contains('/') {
                    let k = choose|k: int| 0 <= k < grown.len() && grown[k] == '/';
                    assert(before.last()[k] == '/');
                }
            }
        }
    }
}

/// A walk over pieces without slashes leaves only names.
pub proof fn lemma_walk_names(pieces: Seq<Seq<char>>)
    requires
        forall|i: int| 0 <= i < pieces.len() ==> !(#[trigger] pieces[i]).contains('/'),
    ensures
        walk(pieces) matches Some(below) ==> forall|i: int|
            0 <= i < below.len() ==> is_name(#[trigger] below[i]),
    decreases pieces.len(),
{
    if pieces.len() > 0 {
        lemma_walk_names(pieces.drop_last());
    }
}

/// Once a walk has left the root it stays refused, whatever follows.
pub proof fn lemma_walk_refusal_is_final(pieces: Seq<Seq<char>>, more: Seq<Seq<char>>)
    requires
        walk(pieces) is None,
    ensures
        walk(pieces + more) is None,
    decreases more.len(),
{
    if more.len() == 0 {
        assert(pieces + more =~= pieces);
    } else {
        lemma_walk_refusal_is_final(pieces, more.drop_last());
        assert((pieces + more).drop_last() =~= pieces + more.drop_last());
    }
}

/// The pieces written one after the other with a slash between each two.
pub open spec fn rejoined(pieces: Seq<Seq<char>>) -> Seq<char>
    decreases pieces.len(),
{
    if pieces.len() == 0 {
        Seq::<char>::empty()
    } else if pieces.len() == 1 {
        pieces[0]
    } else {
        rejoined(pieces.drop_last()) + seq!['/'] + pieces.last()
    }
}

/// Cutting a string at its slashes loses nothing: the pieces, put together
/// again with slashes between them, are the string.
pub proof fn lemma_segments_rejoin(s: Seq<char>)
    ensures
        rejoined(segments(s)) == s,
    decreases s.len(),
{
    lemma_segments_have_no_slash(s);
    if s.len() == 0 {
        assert(rejoined(segments(s)) =~= s);
    } else {
        let t = s.drop_last();
        let c = s.last();
        let before = segments(t);
        lemma_segments_rejoin(t);
        lemma_segments_have_no_slash(t);
        assert(s =~= t.push(c));
        if c == '/' {
            let after = before.push(Seq::<char>::empty());
            assert(after.drop_last() =~= before);
            assert(rejoined(after) =~= t.push(c));
        } else {
            let grown = before.last().push(c);
            let after = before.drop_last().push(grown);
            assert(after.drop_last() =~= before.drop_last());
            if before.len() == 1 {
                assert(rejoined(before) == before[0]);
                assert(rejoined(after) =~= t.push(c));
            } else {
                assert(rejoined(before) == rejoined(before.drop_last()) + seq!['/']
                    + before.last());
                assert(rejoined(after) =~= rejoined(before).push(c));
            }
        }
    }
}

} // verus!
