//! Lexical normalisation of logical paths.
//!
//! A logical path is a sequence of pieces separated by `/`. It obeys
//! simplified rules: there are no symbolic links, so `..` can be resolved by
//! looking at the text alone.

use vstd::prelude::*;

verus! {

/// The pieces of a path: what stands between its separators. A path with
/// `k` separators has `k + 1` pieces, some of which may be empty.
pub open spec fn pieces(path: Seq<char>) -> Seq<Seq<char>>
    decreases path.len(),
{
    if path.len() == 0 {
        seq![Seq::empty()]
    } else {
        let before = pieces(path.drop_last());
        if path.last() == '/' {
            before.push(Seq::empty())
        } else {
            before.drop_last().push(before.last().push(path.last()))
        }
    }
}

/// What has been made of the pieces seen so far.
pub struct Walk {
    /// The path started with a separator.
    pub rooted: bool,
    /// How many levels above its start a relative path has climbed.
    pub ups: nat,
    /// The pieces that are retained, first to last.
    pub kept: Seq<Seq<char>>,
}

/// The piece `.`.
pub open spec fn dot() -> Seq<char> {
    seq!['.']
}

/// The piece `..`.
pub open spec fn dotdot() -> Seq<char> {
    seq!['.', '.']
}

/// The walk before any piece was seen.
pub open spec fn walk_start() -> Walk {
    Walk { rooted: false, ups: 0, kept: Seq::empty() }
}

/// Takes one more piece into account. `first` says that it is the first
/// piece of the path. The result is `None` where the piece would climb
/// above the root.
pub open spec fn walk_step(w: Walk, piece: Seq<char>, first: bool) -> Option<Walk> {
    if piece.len() == 0 {
        if first {
            Some(Walk { rooted: true, ..w })
        } else {
            Some(w)
        }
    } else if piece == dot() {
        Some(w)
    } else if piece == dotdot() {
        if w.kept.len() > 0 {
            Some(Walk { kept: w.kept.drop_last(), ..w })
        } else if w.rooted {
            None
        } else {
            Some(Walk { ups: w.ups + 1, ..w })
        }
    } else {
        Some(Walk { kept: w.kept.push(piece), ..w })
    }
}

/// Takes the given pieces into account, first to last.
pub open spec fn walk(ps: Seq<Seq<char>>) -> Option<Walk>
    decreases ps.len(),
{
    if ps.len() == 0 {
        Some(walk_start())
    } else {
        match walk(ps.drop_last()) {
            None => None,
            Some(w) => walk_step(w, ps.last(), ps.len() == 1),
        }
    }
}

/// The given pieces with a separator between each two.
pub open spec fn joined(ps: Seq<Seq<char>>) -> Seq<char>
    decreases ps.len(),
{
    if ps.len() == 0 {
        Seq::empty()
    } else if ps.len() == 1 {
        ps[0]
    } else {
        joined(ps.drop_last()).push('/') + ps.last()
    }
}

/// `n` times the piece `..`.
pub open spec fn climbs(n: nat) -> Seq<Seq<char>> {
    Seq::new(n, |i: int| dotdot())
}

/// The text of a finished walk.
pub open spec fn rendered(w: Walk) -> Seq<char> {
    if w.rooted {
        seq!['/'] + joined(w.kept)
    } else if w.ups == 0 && w.kept.len() == 0 {
        dot()
    } else {
        joined(climbs(w.ups) + w.kept)
    }
}

/// The normal form of a path, or `None` where the path names something
/// above the root. The empty path is its own normal form.
pub open spec fn normalized(path: Seq<char>) -> Option<Seq<char>> {
    if path.len() == 0 {
        Some(Seq::empty())
    } else {
        match walk(pieces(path)) {
            None => None,
            Some(w) => Some(rendered(w)),
        }
    }
}


/// The bounds of a piece within the text of a path.
struct Span {
    from: usize,
    to: usize,
}

impl Span {
    spec fn within(self, len: nat) -> bool {
        self.from <= self.to <= len
    }

    spec fn text(self, cs: Seq<char>) -> Seq<char> {
        cs.subrange(self.from as int, self.to as int)
    }
}

spec fn texts(cs: Seq<char>, spans: Seq<Span>) -> Seq<Seq<char>> {
    Seq::new(spans.len(), |i: int| spans[i].text(cs))
}

/// A walk in progress over the characters of one path.
struct Tracker {
    rooted: bool,
    ups: usize,
    kept: Vec<Span>,
}

impl Tracker {
    spec fn fits(&self, cs: Seq<char>) -> bool {
        forall|i: int| 0 <= i < self.kept@.len() ==> (#[trigger] self.kept@[i]).within(cs.len())
    }

    spec fn walk(&self, cs: Seq<char>) -> Walk {
        Walk { rooted: self.rooted, ups: self.ups as nat, kept: texts(cs, self.kept@) }
    }
}

proof fn lemma_pieces_nonempty(path: Seq<char>)
    ensures
        pieces(path).len() >= 1,
    decreases path.len(),
{
    if path.len() > 0 {
        lemma_pieces_nonempty(path.drop_last());
    }
}

/// A path splits at any of its separators into two paths, and its pieces
/// are those of the first followed by those of the second.
proof fn lemma_pieces_cut(path: Seq<char>, i: int)
    requires
        0 <= i < path.len(),
        path[i] == '/',
    ensures
        pieces(path) == pieces(path.take(i)) + pieces(path.skip(i + 1)),
    decreases path.len(),
{
    let head = path.take(i);
    let tail = path.skip(i + 1);
    lemma_pieces_nonempty(head);
    if i < path.len() - 1 {
        let shorter = path.drop_last();
        lemma_pieces_cut(shorter, i);
        assert(shorter.take(i) == head);
        assert(shorter.skip(i + 1) == tail.drop_last());
        lemma_pieces_nonempty(tail.drop_last());
    }
}

/// Once a walk has climbed above the root, no further piece brings it back.
proof fn lemma_walk_stuck(ps: Seq<Seq<char>>, more: Seq<Seq<char>>)
    requires
        walk(ps) is None,
    ensures
        walk(ps + more) is None,
    decreases more.len(),
{
    if more.len() > 0 {
        lemma_walk_stuck(ps, more.drop_last());
        assert((ps + more).drop_last() == ps + more.drop_last());
    }
}

proof fn lemma_joined_push(ps: Seq<Seq<char>>, p: Seq<char>)
    ensures
        joined(ps.push(p)) == if ps.len() == 0 {
            p
        } else {
            joined(ps).push('/') + p
        },
{
    assert(ps.push(p).drop_last() == ps);
}

/// The characters of a string, in order.
fn chars_of(text: &str) -> (cs: Vec<char>)
    ensures
        cs@ == text@,
{
    broadcast use vstd::string::axiom_spec_iter;

    let mut cs: Vec<char> = Vec::new();
    for c in it: text.chars()
        invariant
            it.seq() == text@,
            cs@ == it.seq().take(it.index()),
    {
        cs.push(c);
    }
    cs
}

/// Takes the piece `cs[from..to]` into account.
fn take_piece(cs: &Vec<char>, from: usize, to: usize, first: bool, t: &mut Tracker) -> (ok: bool)
    requires
        from <= to <= cs@.len(),
        old(t).fits(cs@),
        old(t).ups <= from,
    ensures
        final(t).fits(cs@),
        final(t).ups <= to,
        match walk_step(old(t).walk(cs@), cs@.subrange(from as int, to as int), first) {
            None => !ok,
            Some(w) => ok && final(t).walk(cs@) == w,
        },
{
    let ghost piece = cs@.subrange(from as int, to as int);
    let ghost before = t.walk(cs@);
    let len = to - from;
    if len == 0 {
        if first {
            t.rooted = true;
        }
        true
    } else if len == 1 && cs[from] == '.' {
        assert(piece == dot());
        true
    } else if len == 2 && cs[from] == '.' && cs[from + 1] == '.' {
        assert(piece == dotdot());
        if t.kept.len() > 0 {
            t.kept.pop();
            assert(texts(cs@, t.kept@) == before.kept.drop_last());
            true
        } else if t.rooted {
            false
        } else {
            t.ups = t.ups + 1;
            true
        }
    } else {
        assert(piece != dot()) by {
            if piece == dot() {
                assert(piece.len() == 1 && piece[0] == '.');
            }
        }
        assert(piece != dotdot());
        t.kept.push(Span { from, to });
        assert(texts(cs@, t.kept@) == before.kept.push(piece));
        true
    }
}

/// Appends `cs[from..to]` to `out`.
fn push_span(out: &mut String, cs: &Vec<char>, from: usize, to: usize)
    requires
        from <= to <= cs@.len(),
    ensures
        final(out)@ == old(out)@ + cs@.subrange(from as int, to as int),
{
    let mut i: usize = from;
    while i < to
        invariant
            from <= i <= to <= cs@.len(),
            out@ == old(out)@ + cs@.subrange(from as int, i as int),
        decreases to - i,
    {
        out.push(cs[i]);
        i += 1;
    }
}

/// Appends to `out` the climbs and then the retained pieces, with a
/// separator between each two.
fn push_joined(out: &mut String, cs: &Vec<char>, ups: usize, kept: &Vec<Span>)
    requires
        forall|i: int| 0 <= i < kept@.len() ==> (#[trigger] kept@[i]).within(cs@.len()),
    ensures
        final(out)@ == old(out)@ + joined(climbs(ups as nat) + texts(cs@, kept@)),
{
    let ghost all = climbs(ups as nat) + texts(cs@, kept@);
    let mut k: usize = 0;
    while k < ups
        invariant
            k <= ups,
            out@ == old(out)@ + joined(climbs(k as nat)),
        decreases ups - k,
    {
        proof {
            lemma_joined_push(climbs(k as nat), dotdot());
            assert(climbs((k + 1) as nat) == climbs(k as nat).push(dotdot()));
        }
        if k > 0 {
            out.push('/');
        }
        out.push('.');
        out.push('.');
        k += 1;
    }
    let mut j: usize = 0;
    assert(all.take(ups as int) == climbs(ups as nat));
    while j < kept.len()
        invariant
            j <= kept@.len(),
            all == climbs(ups as nat) + texts(cs@, kept@),
            forall|i: int| 0 <= i < kept@.len() ==> (#[trigger] kept@[i]).within(cs@.len()),
            out@ == old(out)@ + joined(all.take(ups + j)),
        decreases kept@.len() - j,
    {
        let span = &kept[j];
        proof {
            let sofar = all.take(ups + j);
            lemma_joined_push(sofar, span.text(cs@));
            assert(all.take(ups + j + 1) == sofar.push(span.text(cs@)));
        }
        if ups > 0 || j > 0 {
            out.push('/');
        }
        push_span(out, cs, span.from, span.to);
        j += 1;
    }
    assert(all.take(ups + kept@.len()) == all);
}

/// Normalises a logical path by removing `.` pieces, empty pieces and, as
/// far as the text allows, `..` pieces, so that the result has one of the
/// forms
///
/// ```text
/// path/to/my/file.txt
/// ../../path/to/parent/dir/file.txt
/// /absolute/path/to/file.txt
/// ```
///
/// White space is kept as it is. The result is `None` where the path names
/// a parent of the root.
pub fn try_normalize_tex_path(path: &str) -> (r: Option<String>)
    ensures
        match r {
            Some(text) => normalized(path@) == Some(text@),
            None => normalized(path@) is None,
        },
{
    let cs = chars_of(path);
    let n = cs.len();
    if n == 0 {
        return Some(String::new());
    }
    let mut t = Tracker { rooted: false, ups: 0, kept: Vec::new() };
    let mut first = true;
    let mut start: usize = 0;
    let mut i: usize = 0;
    assert(texts(cs@, t.kept@) == Seq::<Seq<char>>::empty());
    while i < n
        invariant
            cs@ == path@,
            n == cs@.len(),
            start <= i <= n,
            t.fits(cs@),
            t.ups <= start,
            pieces(cs@.take(i as int)).len() >= 1,
            pieces(cs@.take(i as int)).last() == cs@.subrange(start as int, i as int),
            walk(pieces(cs@.take(i as int)).drop_last()) == Some(t.walk(cs@)),
            first == (pieces(cs@.take(i as int)).len() == 1),
        decreases n - i,
    {
        let ghost ps = pieces(cs@.take(i as int));
        let ghost next = cs@.take(i + 1);
        assert(next.drop_last() == cs@.take(i as int));
        if cs[i] == '/' {
            assert(pieces(next).drop_last() == ps);
            let ok = take_piece(&cs, start, i, first, &mut t);
            if !ok {
                proof {
                    lemma_pieces_cut(cs@, i as int);
                    lemma_walk_stuck(ps, pieces(cs@.skip(i + 1)));
                }
                return None;
            }
            first = false;
            start = i + 1;
        } else {
            assert(pieces(next).drop_last() == ps.drop_last());
        }
        i += 1;
    }
    assert(cs@.take(n as int) == cs@);
    let ok = take_piece(&cs, start, n, first, &mut t);
    if !ok {
        return None;
    }
    let mut out = String::new();
    if t.rooted {
        out.push('/');
        push_joined(&mut out, &cs, 0, &t.kept);
    } else if t.ups == 0 && t.kept.len() == 0 {
        out.push('.');
    } else {
        push_joined(&mut out, &cs, t.ups, &t.kept);
    }
    Some(out)
}

/// Normalises a logical path where that is possible, and hands back the
/// path as it was given where it is not.
pub fn normalize_tex_path(path: &str) -> (r: String)
    ensures
        r@ == match normalized(path@) {
            Some(text) => text,
            None => path@,
        },
{
    match try_normalize_tex_path(path) {
        Some(text) => text,
        None => path.to_owned(),
    }
}

// What holds of every path

/// A piece that normalisation retains: it is not empty, it is neither `.`
/// nor `..`, and it holds no separator.
pub open spec fn plain(piece: Seq<char>) -> bool {
    piece.len() > 0 && piece != dot() && piece != dotdot() && !piece.contains('/')
}

/// A walk as normalisation leaves it: it retains plain pieces only, and
/// it has not climbed if it is rooted.
pub open spec fn tidy(w: Walk) -> bool {
    &&& forall|i: int| 0 <= i < w.kept.len() ==> plain(#[trigger] w.kept[i])
    &&& w.rooted ==> w.ups == 0
}

proof fn lemma_pieces_hold_no_separator(path: Seq<char>)
    ensures
        forall|i: int| 0 <= i < pieces(path).len() ==> !(#[trigger] pieces(path)[i]).contains('/'),
    decreases path.len(),
{
    if path.len() > 0 {
        lemma_pieces_hold_no_separator(path.drop_last());
        lemma_pieces_nonempty(path.drop_last());
        let before = pieces(path.drop_last());
        if path.last() != '/' {
            let grown = before.last().push(path.last());
            assert forall|j: int| 0 <= j < grown.len() implies grown[j] != '/' by {}
        }
    }
}

proof fn lemma_pieces_of_one_piece(piece: Seq<char>)
    requires
        !piece.contains('/'),
    ensures
        pieces(piece) == seq![piece],
    decreases piece.len(),
{
    if piece.len() == 0 {
        assert(piece == Seq::<char>::empty());
    } else {
        let shorter = piece.drop_last();
        assert forall|j: int| 0 <= j < shorter.len() implies shorter[j] != '/' by {}
        lemma_pieces_of_one_piece(shorter);
        assert(shorter.push(piece.last()) == piece);
    }
}

proof fn lemma_pieces_of_joined(ps: Seq<Seq<char>>)
    requires
        ps.len() >= 1,
        forall|i: int| 0 <= i < ps.len() ==> !(#[trigger] ps[i]).contains('/'),
    ensures
        pieces(joined(ps)) == ps,
    decreases ps.len(),
{
    if ps.len() == 1 {
        lemma_pieces_of_one_piece(ps[0]);
    } else {
        let init = ps.drop_last();
        lemma_pieces_of_joined(init);
        lemma_pieces_of_one_piece(ps.last());
        let path = joined(ps);
        let i = joined(init).len() as int;
        assert(path.take(i) == joined(init));
        assert(path.skip(i + 1) == ps.last());
        lemma_pieces_cut(path, i);
    }
}

/// Normalisation retains plain pieces only, and a rooted path does not
/// climb.
proof fn lemma_walk_is_tidy(ps: Seq<Seq<char>>)
    requires
        forall|i: int| 0 <= i < ps.len() ==> !(#[trigger] ps[i]).contains('/'),
    ensures
        walk(ps) matches Some(w) ==> tidy(w),
        ps.len() == 0 ==> walk(ps) == Some(walk_start()),
    decreases ps.len(),
{
    if ps.len() > 0 {
        lemma_walk_is_tidy(ps.drop_last());
        if let Some(before) = walk(ps.drop_last()) {
            if let Some(w) = walk_step(before, ps.last(), ps.len() == 1) {
                assert forall|i: int| 0 <= i < w.kept.len() implies plain(#[trigger] w.kept[i]) by {}
            }
        }
    }
}

proof fn lemma_walk_of_climbs(n: nat)
    ensures
        walk(climbs(n)) == Some(Walk { rooted: false, ups: n, kept: Seq::empty() }),
    decreases n,
{
    if n > 0 {
        lemma_walk_of_climbs((n - 1) as nat);
        assert(climbs(n).drop_last() == climbs((n - 1) as nat));
        assert(dotdot() != dot());
    }
}

proof fn lemma_walk_of_plain_pieces(head: Seq<Seq<char>>, start: Walk, kept: Seq<Seq<char>>)
    requires
        head.len() >= 1,
        walk(head) == Some(start),
        start.kept.len() == 0,
        forall|i: int| 0 <= i < kept.len() ==> plain(#[trigger] kept[i]),
    ensures
        walk(head + kept) == Some(Walk { kept, ..start }),
    decreases kept.len(),
{
    if kept.len() == 0 {
        assert(start.kept == kept);
    } else {
        lemma_walk_of_plain_pieces(head, start, kept.drop_last());
        assert((head + kept).drop_last() == head + kept.drop_last());
        assert(kept.drop_last().push(kept.last()) == kept);
    }
}

/// Only a path that starts at the root can climb above the root: every
/// other path has a normal form.
pub proof fn lemma_relative_paths_normalize(path: Seq<char>)
    requires
        path.len() == 0 || path[0] != '/',
    ensures
        normalized(path) is Some,
{
    if path.len() > 0 {
        lemma_never_rooted(path, path.len() as int);
        assert(path.take(path.len() as int) == path);
    }
}

proof fn lemma_never_rooted(path: Seq<char>, i: int)
    requires
        0 < i <= path.len(),
        path[0] != '/',
    ensures
        pieces(path.take(i)).len() >= 1,
        pieces(path.take(i))[0].len() > 0,
        walk(pieces(path.take(i))) matches Some(w) && !w.rooted,
        walk(pieces(path.take(i)).drop_last()) matches Some(w) && !w.rooted,
    decreases i,
{
    let now = path.take(i);
    let before = path.take(i - 1);
    assert(now.drop_last() == before);
    if i == 1 {
        assert(pieces(now) == seq![seq![path[0]]]);
    } else {
        lemma_never_rooted(path, i - 1);
        let ps = pieces(before);
        if now.last() == '/' {
            assert(pieces(now).drop_last() == ps);
        } else {
            assert(pieces(now).drop_last() == ps.drop_last());
        }
    }
}

/// A normal form is the text of a tidy walk: a separator and then plain
/// pieces, or climbs and then plain pieces, or a single `.`.
pub proof fn lemma_normal_form_is_tidy(path: Seq<char>)
    requires
        path.len() > 0,
    ensures
        normalized(path) matches Some(text) ==> exists|w: Walk| tidy(w) && text == rendered(w),
{
    lemma_pieces_hold_no_separator(path);
    lemma_walk_is_tidy(pieces(path));
}

/// A normal form is its own normal form.
pub proof fn lemma_normalized_is_normal(path: Seq<char>)
    ensures
        normalized(path) matches Some(text) ==> normalized(text) == Some(text),
        normalized(path) matches Some(text) ==> (text.len() == 0 <==> path.len() == 0),
{
    if path.len() > 0 {
        lemma_pieces_hold_no_separator(path);
        lemma_walk_is_tidy(pieces(path));
        if let Some(w) = walk(pieces(path)) {
            let text = rendered(w);
            assert(!dotdot().contains('/'));
            let root = seq![Seq::<char>::empty()];
            assert(walk(root) == Some(Walk { rooted: true, ..walk_start() })) by {
                assert(walk(root.drop_last()) == Some(walk_start()));
            }
            if w.rooted {
                if w.kept.len() == 0 {
                    assert(pieces(text.drop_last()) == root);
                    assert(pieces(text).drop_last() == root);
                    assert(w.kept == Seq::<Seq<char>>::empty());
                } else {
                    lemma_pieces_of_joined(w.kept);
                    assert(text.skip(1) == joined(w.kept));
                    lemma_pieces_cut(text, 0);
                    lemma_walk_of_plain_pieces(root, Walk { rooted: true, ..walk_start() }, w.kept);
                }
            } else if w.ups == 0 && w.kept.len() == 0 {
                assert(!dot().contains('/'));
                lemma_pieces_of_one_piece(dot());
                let ps = seq![dot()];
                assert(walk(ps) == Some(walk_start())) by {
                    assert(walk(ps.drop_last()) == Some(walk_start()));
                }
                assert(w.kept == Seq::<Seq<char>>::empty());
            } else {
                let all = climbs(w.ups) + w.kept;
                lemma_pieces_of_joined(all);
                lemma_joined_is_not_empty(all);
                lemma_walk_of_climbs(w.ups);
                if w.ups == 0 {
                    lemma_walk_of_first_plain(w.kept);
                } else {
                    lemma_walk_of_plain_pieces(
                        climbs(w.ups),
                        Walk { rooted: false, ups: w.ups, kept: Seq::empty() },
                        w.kept,
                    );
                }
            }
        }
    }
}

proof fn lemma_joined_is_not_empty(ps: Seq<Seq<char>>)
    requires
        ps.len() >= 1,
        forall|i: int| 0 <= i < ps.len() ==> (#[trigger] ps[i]).len() > 0,
    ensures
        joined(ps).len() > 0,
{
}

proof fn lemma_walk_of_first_plain(kept: Seq<Seq<char>>)
    requires
        kept.len() >= 1,
        forall|i: int| 0 <= i < kept.len() ==> plain(#[trigger] kept[i]),
    ensures
        walk(kept) == Some(Walk { kept, ..walk_start() }),
    decreases kept.len(),
{
    if kept.len() == 1 {
        assert(walk(kept.drop_last()) == Some(walk_start()));
        assert(walk_start().kept.push(kept[0]) == kept);
    } else {
        lemma_walk_of_first_plain(kept.drop_last());
        assert(kept.drop_last().push(kept.last()) == kept);
    }
}

} // verus!
