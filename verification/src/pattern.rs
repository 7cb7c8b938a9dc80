//! Route patterns and how a path is held against them.
//!
//! A pattern is written `/literal/:param/literal2`. A slash cuts it into
//! segments, empty segments are passed over, and a segment that starts with
//! a colon is a parameter named by what follows the colon. Request paths are
//! cut the same way, so `/users/7` and `/users/7/` are the same path.

use crate::params::ParamMap;
use crate::text::{bytes_eq, pieces, rows, split_pieces};
use vstd::prelude::*;
use vstd::slice::{slice_subrange, slice_to_vec};

verus! {

/// The byte that cuts a path into segments.
pub const SLASH: u8 = 47;

/// The byte that marks a segment of a pattern as a parameter.
pub const COLON: u8 = 58;

/// One segment of a pattern, as a value of the model.
pub enum SegmentView {
    /// Matches the path segment that holds these bytes.
    Literal(Seq<u8>),
    /// Matches every path segment and binds it to this name.
    Param(Seq<u8>),
}

/// One segment of a pattern.
#[derive(Clone, Debug, PartialEq, Eq)]
pub enum Segment {
    Literal(Vec<u8>),
    Param(Vec<u8>),
}

impl View for Segment {
    type V = SegmentView;

    open spec fn view(&self) -> SegmentView {
        match self {
            Segment::Literal(bytes) => SegmentView::Literal(bytes@),
            Segment::Param(name) => SegmentView::Param(name@),
        }
    }
}

/// The segment that one piece of a pattern's text stands for.
pub open spec fn segment_of(piece: Seq<u8>) -> SegmentView {
    if piece.len() > 0 && piece[0] == COLON {
        SegmentView::Param(piece.skip(1))
    } else {
        SegmentView::Literal(piece)
    }
}

/// The segments that a pattern's text stands for.
pub open spec fn parse_pattern(route: Seq<u8>) -> Seq<SegmentView> {
    pieces(route, SLASH).map_values(|piece: Seq<u8>| segment_of(piece))
}

/// The segments of a request path.
pub open spec fn path_segments(path: Seq<u8>) -> Seq<Seq<u8>> {
    pieces(path, SLASH)
}

/// Whether a path, given by its segments, matches a pattern: both have the
/// same number of segments and every literal equals the path segment at its
/// place.
pub open spec fn accepts(pattern: Seq<SegmentView>, path: Seq<Seq<u8>>) -> bool {
    &&& pattern.len() == path.len()
    &&& forall|i: int|
        0 <= i < pattern.len() ==> (#[trigger] pattern[i] matches SegmentView::Literal(bytes)
            ==> bytes == path[i])
}

/// What a pattern binds on a path that matches it: for each parameter, from
/// left to right, its name and the path segment at its place.
pub open spec fn bindings(pattern: Seq<SegmentView>, path: Seq<Seq<u8>>) -> Seq<
    (Seq<u8>, Seq<u8>),
>
    decreases pattern.len(),
{
    if pattern.len() == 0 {
        Seq::empty()
    } else {
        let last = pattern.len() - 1;
        let before = bindings(pattern.drop_last(), path);
        match pattern[last] {
            SegmentView::Param(name) => before.push((name, path[last])),
            SegmentView::Literal(_) => before,
        }
    }
}

/// Whether two patterns match the same paths: they have the same number of
/// segments, parameters at the same places, and equal literals elsewhere.
/// The names of the parameters do not count.
pub open spec fn same_shape(p: Seq<SegmentView>, q: Seq<SegmentView>) -> bool {
    &&& p.len() == q.len()
    &&& forall|i: int|
        0 <= i < p.len() ==> match (#[trigger] p[i], q[i]) {
            (SegmentView::Literal(a), SegmentView::Literal(b)) => a == b,
            (SegmentView::Param(_), SegmentView::Param(_)) => true,
            _ => false,
        }
}

/// Whether the two patterns have segments of the same kind at place `i`.
pub open spec fn same_kind_at(p: Seq<SegmentView>, q: Seq<SegmentView>, i: int) -> bool {
    (p[i] is Param) == (q[i] is Param)
}

/// Whether `p` takes precedence over `q` and decides so at place `i`: up to
/// there the two have segments of the same kind, and at `i` a literal of `p`
/// meets a parameter of `q`.
pub open spec fn outranks_at(p: Seq<SegmentView>, q: Seq<SegmentView>, i: int) -> bool {
    &&& 0 <= i < p.len()
    &&& i < q.len()
    &&& p[i] is Literal
    &&& q[i] is Param
    &&& forall|j: int| 0 <= j < i ==> same_kind_at(p, q, j)
}

/// Whether `p` takes precedence over `q`: at the first place where one has a
/// literal and the other a parameter, the literal is `p`'s.
pub open spec fn outranks(p: Seq<SegmentView>, q: Seq<SegmentView>) -> bool {
    exists|i: int| outranks_at(p, q, i)
}

/// The views of a list of segments.
pub open spec fn segment_views(v: Seq<Segment>) -> Seq<SegmentView> {
    v.map_values(|s: Segment| s@)
}

/// A route pattern: an ordered sequence of segments.
#[derive(Clone, Debug, PartialEq, Eq)]
pub struct RoutePattern {
    pub segments: Vec<Segment>,
}

impl View for RoutePattern {
    type V = Seq<SegmentView>;

    open spec fn view(&self) -> Seq<SegmentView> {
        segment_views(self.segments@)
    }
}

/// Precedence is transitive.
pub proof fn lemma_outranks_transitive(
    a: Seq<SegmentView>,
    b: Seq<SegmentView>,
    c: Seq<SegmentView>,
)
    requires
        outranks(a, b),
        outranks(b, c),
    ensures
        outranks(a, c),
{
    let i = choose|i: int| outranks_at(a, b, i);
    let k = choose|k: int| outranks_at(b, c, k);
    if i < k {
        assert(same_kind_at(b, c, i));
        assert forall|j: int| 0 <= j < i implies same_kind_at(a, c, j) by {
            assert(same_kind_at(a, b, j));
            assert(same_kind_at(b, c, j));
        }
        assert(outranks_at(a, c, i));
    } else if k < i {
        assert(same_kind_at(a, b, k));
        assert forall|j: int| 0 <= j < k implies same_kind_at(a, c, j) by {
            assert(same_kind_at(a, b, j));
            assert(same_kind_at(b, c, j));
        }
        assert(outranks_at(a, c, k));
    } else {
        assert(false);
    }
}

/// No pattern takes precedence over one that takes precedence over it.
pub proof fn lemma_outranks_asymmetric(p: Seq<SegmentView>, q: Seq<SegmentView>)
    requires
        outranks(p, q),
    ensures
        !outranks(q, p),
{
    if outranks(q, p) {
        let i = choose|i: int| outranks_at(p, q, i);
        let k = choose|k: int| outranks_at(q, p, k);
        if i < k {
            assert(same_kind_at(q, p, i));
        } else if k < i {
            assert(same_kind_at(p, q, k));
        }
    }
}

/// Where the two patterns have segments of the same kind at every place
/// below `n`, and both match `path`, they agree up to `n`; otherwise one of
/// them outranks the other.
proof fn lemma_first_difference(
    p: Seq<SegmentView>,
    q: Seq<SegmentView>,
    path: Seq<Seq<u8>>,
    n: int,
)
    requires
        accepts(p, path),
        accepts(q, path),
        0 <= n <= p.len(),
    ensures
        outranks(p, q) || outranks(q, p) || forall|j: int| 0 <= j < n ==> same_kind_at(p, q, j),
    decreases n,
{
    if n > 0 {
        lemma_first_difference(p, q, path, n - 1);
        if !outranks(p, q) && !outranks(q, p) {
            if !same_kind_at(p, q, n - 1) {
                if p[n - 1] is Literal {
                    assert(outranks_at(p, q, n - 1));
                } else {
                    assert forall|j: int| 0 <= j < n - 1 implies same_kind_at(q, p, j) by {
                        assert(same_kind_at(p, q, j));
                    }
                    assert(outranks_at(q, p, n - 1));
                }
            }
        }
    }
}

/// Of two patterns that match one path, either both match the same paths or
/// one takes precedence over the other.
pub proof fn lemma_outranks_total(p: Seq<SegmentView>, q: Seq<SegmentView>, path: Seq<Seq<u8>>)
    requires
        accepts(p, path),
        accepts(q, path),
    ensures
        same_shape(p, q) || outranks(p, q) || outranks(q, p),
{
    lemma_first_difference(p, q, path, p.len() as int);
    if !outranks(p, q) && !outranks(q, p) {
        assert forall|i: int| 0 <= i < p.len() implies match (#[trigger] p[i], q[i]) {
            (SegmentView::Literal(a), SegmentView::Literal(b)) => a == b,
            (SegmentView::Param(_), SegmentView::Param(_)) => true,
            _ => false,
        } by {
            assert(same_kind_at(p, q, i));
        }
    }
}

/// Every pattern matches the same paths as itself.
pub proof fn lemma_same_shape_reflexive(p: Seq<SegmentView>)
    ensures
        same_shape(p, p),
{
}

impl Segment {
    /// Whether this segment is a parameter.
    pub fn is_param(&self) -> (param: bool)
        ensures
            param == (self@ is Param),
    {
        match self {
            Segment::Param(_) => true,
            Segment::Literal(_) => false,
        }
    }

    /// Reads one piece of a pattern's text.
    pub fn parse(piece: &[u8]) -> (segment: Segment)
        ensures
            segment@ == segment_of(piece@),
    {
        if piece.len() > 0 && piece[0] == COLON {
            let name = slice_to_vec(slice_subrange(piece, 1, piece.len()));
            assert(piece@.skip(1) =~= piece@.subrange(1, piece@.len() as int));
            Segment::Param(name)
        } else {
            Segment::Literal(slice_to_vec(piece))
        }
    }
}

impl RoutePattern {
    /// Reads a pattern from its text.
    pub fn parse(route: &[u8]) -> (pattern: RoutePattern)
        ensures
            pattern@ == parse_pattern(route@),
    {
        let parts = split_pieces(route, SLASH);
        let mut segments: Vec<Segment> = Vec::new();
        let mut i: usize = 0;
        while i < parts.len()
            invariant
                i <= parts.len(),
                segments.len() == i,
                forall|k: int| 0 <= k < i ==> segments@[k]@ == segment_of(parts@[k]@),
            decreases parts.len() - i,
        {
            segments.push(Segment::parse(parts[i].as_slice()));
            i += 1;
        }
        let pattern = RoutePattern { segments };
        assert(pattern@ =~= parse_pattern(route@)) by {
            assert(rows(parts@) == pieces(route@, SLASH));
            assert forall|k: int| 0 <= k < pattern@.len() implies pattern@[k] == parse_pattern(
                route@,
            )[k] by {
                assert(rows(parts@)[k] == parts@[k]@);
            }
        }
        pattern
    }

    /// The number of segments.
    pub fn len(&self) -> (n: usize)
        ensures
            n == self@.len(),
    {
        self.segments.len()
    }

    /// Whether a path, given by its segments, matches this pattern.
    pub fn accepts(&self, path: &Vec<Vec<u8>>) -> (hit: bool)
        ensures
            hit == accepts(self@, rows(path@)),
    {
        if self.segments.len() != path.len() {
            return false;
        }
        let mut i: usize = 0;
        while i < self.segments.len()
            invariant
                i <= self.segments.len(),
                self.segments.len() == path.len(),
                forall|k: int|
                    0 <= k < i ==> (#[trigger] self@[k] matches SegmentView::Literal(bytes)
                        ==> bytes == rows(path@)[k]),
            decreases self.segments.len() - i,
        {
            match &self.segments[i] {
                Segment::Literal(bytes) => {
                    if !bytes_eq(bytes.as_slice(), path[i].as_slice()) {
                        assert(self@[i as int] == SegmentView::Literal(bytes@));
                        assert(rows(path@)[i as int] == path@[i as int]@);
                        return false;
                    }
                    assert(rows(path@)[i as int] == path@[i as int]@);
                },
                Segment::Param(_) => {},
            }
            i += 1;
        }
        true
    }

    /// The parameters that this pattern binds on a path.
    pub fn bind(&self, path: &Vec<Vec<u8>>) -> (bound: ParamMap)
        requires
            self@.len() == path@.len(),
        ensures
            bound@ == bindings(self@, rows(path@)),
    {
        let mut bound = ParamMap::new();
        let mut i: usize = 0;
        assert(self@.take(0) =~= Seq::<SegmentView>::empty());
        while i < self.segments.len()
            invariant
                i <= self.segments.len(),
                self.segments.len() == path.len(),
                bound@ == bindings(self@.take(i as int), rows(path@)),
            decreases self.segments.len() - i,
        {
            assert(self@.take(i + 1).drop_last() =~= self@.take(i as int));
            assert(self@.take(i + 1)[i as int] == self.segments@[i as int]@);
            assert(rows(path@)[i as int] == path@[i as int]@);
            match &self.segments[i] {
                Segment::Param(name) => {
                    bound.push(name.clone(), path[i].clone());
                },
                Segment::Literal(_) => {},
            }
            i += 1;
        }
        assert(self@.take(i as int) =~= self@);
        bound
    }

    /// Whether this pattern matches the same paths as `other`.
    pub fn same_shape(&self, other: &RoutePattern) -> (same: bool)
        ensures
            same == same_shape(self@, other@),
    {
        if self.segments.len() != other.segments.len() {
            return false;
        }
        let mut i: usize = 0;
        while i < self.segments.len()
            invariant
                i <= self.segments.len(),
                self.segments.len() == other.segments.len(),
                forall|k: int|
                    0 <= k < i ==> match (#[trigger] self@[k], other@[k]) {
                        (SegmentView::Literal(a), SegmentView::Literal(b)) => a == b,
                        (SegmentView::Param(_), SegmentView::Param(_)) => true,
                        _ => false,
                    },
            decreases self.segments.len() - i,
        {
            let same = match (&self.segments[i], &other.segments[i]) {
                (Segment::Literal(a), Segment::Literal(b)) => bytes_eq(a.as_slice(), b.as_slice()),
                (Segment::Param(_), Segment::Param(_)) => true,
                _ => false,
            };
            if !same {
                let ghost _ = self@[i as int];
                return false;
            }
            i += 1;
        }
        true
    }

    /// Whether this pattern takes precedence over `other`.
    pub fn outranks(&self, other: &RoutePattern) -> (wins: bool)
        ensures
            wins == outranks(self@, other@),
    {
        let mut i: usize = 0;
        while i < self.segments.len() && i < other.segments.len()
            invariant
                i <= self.segments.len(),
                i <= other.segments.len(),
                forall|j: int| 0 <= j < i ==> same_kind_at(self@, other@, j),
            decreases self.segments.len() - i,
        {
            let mine = self.segments[i].is_param();
            let theirs = other.segments[i].is_param();
            if mine != theirs {
                proof {
                    if !mine {
                        assert(outranks_at(self@, other@, i as int));
                    } else {
                        assert forall|k: int| !outranks_at(self@, other@, k) by {
                            if outranks_at(self@, other@, k) {
                                if k > i {
                                    assert(same_kind_at(self@, other@, i as int));
                                } else if k < i {
                                    assert(same_kind_at(self@, other@, k));
                                }
                            }
                        }
                    }
                }
                return !mine;
            }
            i += 1;
        }
        proof {
            assert forall|k: int| !outranks_at(self@, other@, k) by {
                if outranks_at(self@, other@, k) {
                    assert(same_kind_at(self@, other@, k));
                }
            }
        }
        false
    }
}

} // verus!
