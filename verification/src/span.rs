//! Source identities, text positions, ranges, and provenance spans.
use vstd::prelude::*;

verus! {

/// Identity of one source document.
#[derive(Debug, Clone, Copy, PartialEq, Eq, Hash, Structural)]
pub struct SourceId(pub u64);

/// Complete description of a position in a text document.
///
/// Points are ordered lexicographically by line, then column, then byte.
#[derive(Debug, Clone, Copy, PartialEq, Eq, Hash, Structural)]
pub struct TextPoint {
    pub line: u32,
    pub column: u32,
    pub byte: usize,
}

/// Strict lexicographic order on points (line, column, byte).
pub open spec fn point_lt(a: TextPoint, b: TextPoint) -> bool {
    ||| a.line < b.line
    ||| (a.line == b.line && a.column < b.column)
    ||| (a.line == b.line && a.column == b.column && a.byte < b.byte)
}

pub open spec fn point_le(a: TextPoint, b: TextPoint) -> bool {
    point_lt(a, b) || a == b
}

pub open spec fn point_min(a: TextPoint, b: TextPoint) -> TextPoint {
    if point_le(a, b) {
        a
    } else {
        b
    }
}

pub open spec fn point_max(a: TextPoint, b: TextPoint) -> TextPoint {
    if point_le(b, a) {
        a
    } else {
        b
    }
}

impl TextPoint {
    pub fn new(line: u32, column: u32, byte: usize) -> (point: Self)
        ensures
            point == (TextPoint { line, column, byte }),
    {
        TextPoint { line, column, byte }
    }

    /// Strict lexicographic comparison of two points.
    pub fn less_than(self, other: Self) -> (r: bool)
        ensures
            r == point_lt(self, other),
    {
        self.line < other.line || (self.line == other.line && self.column < other.column) || (
        self.line == other.line && self.column == other.column && self.byte < other.byte)
    }

    fn earlier(self, other: Self) -> (r: Self)
        ensures
            r == point_min(self, other),
    {
        if other.less_than(self) {
            other
        } else {
            self
        }
    }

    fn later(self, other: Self) -> (r: Self)
        ensures
            r == point_max(self, other),
    {
        if self.less_than(other) {
            other
        } else {
            self
        }
    }
}

/// A range between two points, or the empty range.
#[derive(Debug, Clone, Copy, PartialEq, Eq, Hash, Structural)]
pub enum TextRange {
    Range { start: TextPoint, end: TextPoint },
    Empty,
}

/// The range `new` builds from two endpoints.
pub open spec fn range_of(start: TextPoint, end: TextPoint) -> TextRange {
    if point_lt(end, start) {
        TextRange::Empty
    } else {
        TextRange::Range { start, end }
    }
}

/// A range is well formed when it is empty or its start does not follow its end.
pub open spec fn range_wf(range: TextRange) -> bool {
    match range {
        TextRange::Empty => true,
        TextRange::Range { start, end } => point_le(start, end),
    }
}

pub open spec fn range_join(a: TextRange, b: TextRange) -> TextRange {
    match (a, b) {
        (TextRange::Empty, _) => b,
        (_, TextRange::Empty) => a,
        (TextRange::Range { start, end }, TextRange::Range { start: start2, end: end2 }) => range_of(
            point_min(start, start2),
            point_max(end, end2),
        ),
    }
}

pub open spec fn range_meet(a: TextRange, b: TextRange) -> TextRange {
    match (a, b) {
        (TextRange::Empty, _) => TextRange::Empty,
        (_, TextRange::Empty) => TextRange::Empty,
        (TextRange::Range { start, end }, TextRange::Range { start: start2, end: end2 }) => range_of(
            point_max(start, start2),
            point_min(end, end2),
        ),
    }
}

impl core::ops::BitOr for TextRange {
    type Output = Self;

    /// `a | b` is [`TextRange::join`].
    fn bitor(self, other: Self) -> (range: Self)
        ensures
            range == range_join(self, other),
    {
        self.join(other)
    }
}

impl vstd::std_specs::ops::BitOrSpecImpl for TextRange {
    open spec fn obeys_bitor_spec() -> bool {
        true
    }

    open spec fn bitor_req(self, rhs: TextRange) -> bool {
        true
    }

    open spec fn bitor_spec(self, rhs: TextRange) -> TextRange {
        range_join(self, rhs)
    }
}

impl vstd::std_specs::ops::BitAndSpecImpl for TextRange {
    open spec fn obeys_bitand_spec() -> bool {
        true
    }

    open spec fn bitand_req(self, rhs: TextRange) -> bool {
        true
    }

    open spec fn bitand_spec(self, rhs: TextRange) -> TextRange {
        range_meet(self, rhs)
    }
}

impl core::ops::BitAnd for TextRange {
    type Output = Self;

    /// `a & b` is [`TextRange::meet`].
    fn bitand(self, other: Self) -> (range: Self)
        ensures
            range == range_meet(self, other),
    {
        self.meet(other)
    }
}

impl TextRange {
    pub fn from_point(point: TextPoint) -> (range: Self)
        ensures
            range == (TextRange::Range { start: point, end: point }),
    {
        TextRange::Range { start: point, end: point }
    }

    /// Builds the range from `start` to `end`; it is empty when `end` precedes `start`.
    pub fn new(start: TextPoint, end: TextPoint) -> (range: Self)
        ensures
            range == range_of(start, end),
    {
        if end.less_than(start) {
            TextRange::Empty
        } else {
            TextRange::Range { start, end }
        }
    }

    /// The smallest range covering both ranges; empty ranges are neutral.
    pub fn join(self, other: Self) -> (range: Self)
        ensures
            range == range_join(self, other),
    {
        match (self, other) {
            (TextRange::Empty, _) => other,
            (_, TextRange::Empty) => self,
            (TextRange::Range { start, end }, TextRange::Range { start: start2, end: end2 }) => {
                TextRange::new(start.earlier(start2), end.later(end2))
            },
        }
    }

    /// The overlap of two ranges; an empty range absorbs.
    pub fn meet(self, other: Self) -> (range: Self)
        ensures
            range == range_meet(self, other),
    {
        match (self, other) {
            (TextRange::Empty, _) => TextRange::Empty,
            (_, TextRange::Empty) => TextRange::Empty,
            (TextRange::Range { start, end }, TextRange::Range { start: start2, end: end2 }) => {
                TextRange::new(start.later(start2), end.earlier(end2))
            },
        }
    }

    pub fn start(&self) -> (point: Option<TextPoint>)
        ensures
            point == (match *self {
                TextRange::Empty => None,
                TextRange::Range { start, .. } => Some(start),
            }),
    {
        match self {
            TextRange::Empty => None,
            TextRange::Range { start, .. } => Some(*start),
        }
    }

    pub fn end(&self) -> (point: Option<TextPoint>)
        ensures
            point == (match *self {
                TextRange::Empty => None,
                TextRange::Range { end, .. } => Some(end),
            }),
    {
        match self {
            TextRange::Empty => None,
            TextRange::Range { end, .. } => Some(*end),
        }
    }

    pub fn is_empty(&self) -> (r: bool)
        ensures
            r == (*self is Empty),
    {
        match self {
            TextRange::Empty => true,
            _ => false,
        }
    }

    pub fn is_point(&self) -> (r: bool)
        ensures
            r == (match *self {
                TextRange::Range { start, end } => start == end,
                TextRange::Empty => false,
            }),
    {
        match self {
            TextRange::Range { start, end } => start.line == end.line && start.column == end.column
                && start.byte == end.byte,
            TextRange::Empty => false,
        }
    }

    /// The number of bytes covered, when the range is located and not reversed.
    pub fn size(&self) -> (size: Option<usize>)
        ensures
            size == (match *self {
                TextRange::Range { start, end } => if start.byte <= end.byte {
                    Some((end.byte - start.byte) as usize)
                } else {
                    None
                },
                TextRange::Empty => None,
            }),
    {
        match self {
            TextRange::Range { start, end } => end.byte.checked_sub(start.byte),
            TextRange::Empty => None,
        }
    }
}

impl Default for TextRange {
    fn default() -> (range: Self)
        ensures
            range is Empty,
    {
        TextRange::Empty
    }
}

/// Where a piece of syntax originated.
#[derive(Debug, Clone, Copy, PartialEq, Eq, Hash, Structural)]
pub enum Span {
    Detached,
    FileLocated { source: SourceId, range: TextRange },
    LocalRefFrame { range: TextRange },
}

/// Syntax has no source location.
#[derive(Debug, Clone, Copy, PartialEq, Eq, Structural)]
pub struct MissingData;

impl MissingData {
    /// The diagnostic text of this error.
    pub fn message(&self) -> (text: &'static str)
        ensures
            text@ == "syntax has no source location"@,
    {
        "syntax has no source location"
    }
}

pub open spec fn span_join(a: Span, b: Span) -> Span {
    match (a, b) {
        (Span::FileLocated { source, range }, Span::FileLocated { source: source2, range: range2 }) => {
            if source == source2 {
                Span::FileLocated { source, range: range_join(range, range2) }
            } else {
                Span::Detached
            }
        },
        (Span::LocalRefFrame { range }, Span::LocalRefFrame { range: range2 }) => {
            Span::LocalRefFrame { range: range_join(range, range2) }
        },
        _ => Span::Detached,
    }
}

/// The span of a whole sequence: its spans joined from left to right, detached when empty.
pub open spec fn span_join_all(spans: Seq<Span>) -> Span
    decreases spans.len(),
{
    if spans.len() == 0 {
        Span::Detached
    } else if spans.len() == 1 {
        spans[0]
    } else {
        span_join(span_join_all(spans.drop_last()), spans.last())
    }
}

/// The smallest span covering the located sides: a detached side contributes
/// nothing, and two located spans join.
pub open spec fn span_cover(a: Span, b: Span) -> Span {
    if a is Detached {
        b
    } else if b is Detached {
        a
    } else {
        span_join(a, b)
    }
}

/// The cover of a whole sequence of spans, from left to right; detached when
/// no span in it is located.
pub open spec fn span_cover_all(spans: Seq<Span>) -> Span
    decreases spans.len(),
{
    if spans.len() == 0 {
        Span::Detached
    } else {
        span_cover(span_cover_all(spans.drop_last()), spans.last())
    }
}

pub open spec fn span_range(span: Span) -> Option<TextRange> {
    match span {
        Span::Detached => None,
        Span::FileLocated { range, .. } => Some(range),
        Span::LocalRefFrame { range } => Some(range),
    }
}

impl Span {
    pub fn detached() -> (span: Self)
        ensures
            span is Detached,
    {
        Span::Detached
    }

    pub fn new(source: SourceId, range: TextRange) -> (span: Self)
        ensures
            span == (Span::FileLocated { source, range }),
    {
        Span::FileLocated { source, range }
    }

    pub fn in_tmp_file(range: TextRange) -> (span: Self)
        ensures
            span == (Span::LocalRefFrame { range }),
    {
        Span::LocalRefFrame { range }
    }

    pub fn source(self) -> (source: Result<SourceId, MissingData>)
        ensures
            source == (match self {
                Span::FileLocated { source, .. } => Ok(source),
                _ => Err(MissingData),
            }),
    {
        match self {
            Span::FileLocated { source, .. } => Ok(source),
            _ => Err(MissingData),
        }
    }

    pub fn range(self) -> (range: Result<TextRange, MissingData>)
        ensures
            range == (match span_range(self) {
                Some(r) => Ok(r),
                None => Err(MissingData),
            }),
    {
        match self {
            Span::Detached => Err(MissingData),
            Span::FileLocated { range, .. } => Ok(range),
            Span::LocalRefFrame { range } => Ok(range),
        }
    }

    pub fn start_point(self) -> (point: Result<TextPoint, MissingData>)
        ensures
            point == (match span_range(self) {
                Some(TextRange::Range { start, .. }) => Ok(start),
                _ => Err(MissingData),
            }),
    {
        match self.range() {
            Ok(range) => match range.start() {
                Some(point) => Ok(point),
                None => Err(MissingData),
            },
            Err(e) => Err(e),
        }
    }

    pub fn end_point(self) -> (point: Result<TextPoint, MissingData>)
        ensures
            point == (match span_range(self) {
                Some(TextRange::Range { end, .. }) => Ok(end),
                _ => Err(MissingData),
            }),
    {
        match self.range() {
            Ok(range) => match range.end() {
                Some(point) => Ok(point),
                None => Err(MissingData),
            },
            Err(e) => Err(e),
        }
    }

    pub fn byte_size(self) -> (size: Result<usize, MissingData>)
        ensures
            size == (match span_range(self) {
                Some(TextRange::Range { start, end }) => if start.byte <= end.byte {
                    Ok((end.byte - start.byte) as usize)
                } else {
                    Err(MissingData)
                },
                _ => Err(MissingData),
            }),
    {
        match self.range() {
            Ok(range) => match range.size() {
                Some(size) => Ok(size),
                None => Err(MissingData),
            },
            Err(e) => Err(e),
        }
    }

    /// The smallest span covering both spans when they share a frame; detached otherwise.
    pub fn join(self, other: Self) -> (span: Self)
        ensures
            span == span_join(self, other),
    {
        match (self, other) {
            (Span::FileLocated { source, range }, Span::FileLocated { source: source2, range: range2 }) => {
                if source.0 == source2.0 {
                    Span::new(source, range.join(range2))
                } else {
                    Span::Detached
                }
            },
            (Span::LocalRefFrame { range }, Span::LocalRefFrame { range: range2 }) => {
                Span::in_tmp_file(range.join(range2))
            },
            _ => Span::Detached,
        }
    }

    /// Joins every span from left to right; an empty sequence is detached.
    pub fn join_all(spans: &[Span]) -> (span: Span)
        ensures
            span == span_join_all(spans@),
    {
        if spans.len() == 0 {
            return Span::Detached;
        }
        let mut acc = spans[0];
        let mut i: usize = 1;
        while i < spans.len()
            invariant
                1 <= i <= spans.len(),
                acc == span_join_all(spans@.subrange(0, i as int)),
            decreases spans.len() - i,
        {
            proof {
                let next = spans@.subrange(0, i + 1);
                assert(next.drop_last() =~= spans@.subrange(0, i as int));
            }
            acc = acc.join(spans[i]);
            i = i + 1;
        }
        proof {
            assert(spans@.subrange(0, spans@.len() as int) =~= spans@);
        }
        acc
    }
}

impl Span {
    /// The smallest span covering the located sides of two spans.
    pub fn cover(self, other: Self) -> (span: Self)
        ensures
            span == span_cover(self, other),
    {
        match self {
            Span::Detached => other,
            _ => match other {
                Span::Detached => self,
                _ => self.join(other),
            },
        }
    }

    /// Covers every span from left to right; detached when none is located.
    pub fn cover_all(spans: &[Span]) -> (span: Span)
        ensures
            span == span_cover_all(spans@),
    {
        let mut acc = Span::Detached;
        let mut i: usize = 0;
        while i < spans.len()
            invariant
                i <= spans.len(),
                acc == span_cover_all(spans@.subrange(0, i as int)),
            decreases spans.len() - i,
        {
            proof {
                let next = spans@.subrange(0, i + 1);
                assert(next.drop_last() =~= spans@.subrange(0, i as int));
            }
            acc = acc.cover(spans[i]);
            i = i + 1;
        }
        proof {
            assert(spans@.subrange(0, spans@.len() as int) =~= spans@);
        }
        acc
    }
}

impl Default for Span {
    fn default() -> (span: Self)
        ensures
            span is Detached,
    {
        Span::Detached
    }
}

/// Syntax that knows where it originated.
pub trait Spanned {
    /// The span of this value; a type that does not say is detached.
    open spec fn spec_span(&self) -> Span {
        Span::Detached
    }

    fn span(&self) -> (span: Span)
        ensures
            span == self.spec_span(),
    ;
}

impl Spanned for Span {
    open spec fn spec_span(&self) -> Span {
        *self
    }

    fn span(&self) -> (span: Span) {
        *self
    }
}

// ---------------------------------------------------------------------------
// Laws
// ---------------------------------------------------------------------------
proof fn lemma_point_order_total(a: TextPoint, b: TextPoint)
    ensures
        point_le(a, b) || point_le(b, a),
        point_le(a, b) && point_le(b, a) ==> a == b,
{
}

/// Joining two ranges does not depend on their order.
pub proof fn law_range_join_commutative(a: TextRange, b: TextRange)
    ensures
        range_join(a, b) == range_join(b, a),
{
    match (a, b) {
        (TextRange::Range { start, end }, TextRange::Range { start: s2, end: e2 }) => {
            lemma_point_order_total(start, s2);
            lemma_point_order_total(end, e2);
        },
        _ => {},
    }
}

/// Meeting two ranges does not depend on their order.
pub proof fn law_range_meet_commutative(a: TextRange, b: TextRange)
    ensures
        range_meet(a, b) == range_meet(b, a),
{
    match (a, b) {
        (TextRange::Range { start, end }, TextRange::Range { start: s2, end: e2 }) => {
            lemma_point_order_total(start, s2);
            lemma_point_order_total(end, e2);
        },
        _ => {},
    }
}

/// Joining a well-formed range with itself gives the same range back.
pub proof fn law_range_join_idempotent(a: TextRange)
    requires
        range_wf(a),
    ensures
        range_join(a, a) == a,
{
}

/// Joining well-formed ranges yields a well-formed range.
pub proof fn law_range_join_wf(a: TextRange, b: TextRange)
    requires
        range_wf(a),
        range_wf(b),
    ensures
        range_wf(range_join(a, b)),
{
}

/// Joining well-formed ranges is associative.
pub proof fn law_range_join_associative(a: TextRange, b: TextRange, c: TextRange)
    requires
        range_wf(a),
        range_wf(b),
        range_wf(c),
    ensures
        range_join(range_join(a, b), c) == range_join(a, range_join(b, c)),
{
    match (a, b, c) {
        (
            TextRange::Range { start: s1, end: e1 },
            TextRange::Range { start: s2, end: e2 },
            TextRange::Range { start: s3, end: e3 },
        ) => {
            lemma_point_order_total(s1, s2);
            lemma_point_order_total(s2, s3);
            lemma_point_order_total(s1, s3);
            lemma_point_order_total(e1, e2);
            lemma_point_order_total(e2, e3);
            lemma_point_order_total(e1, e3);
        },
        _ => {},
    }
}

/// Joining two spans does not depend on their order.
pub proof fn law_span_join_commutative(a: Span, b: Span)
    ensures
        span_join(a, b) == span_join(b, a),
{
    match (a, b) {
        (Span::FileLocated { range, .. }, Span::FileLocated { range: r2, .. }) => {
            law_range_join_commutative(range, r2);
        },
        (Span::LocalRefFrame { range }, Span::LocalRefFrame { range: r2 }) => {
            law_range_join_commutative(range, r2);
        },
        _ => {},
    }
}

/// A detached span absorbs every join.
pub proof fn law_span_join_detached(a: Span)
    ensures
        span_join(a, Span::Detached) == Span::Detached,
        span_join(Span::Detached, a) == Span::Detached,
{
}

/// Joining a located span with itself leaves it unchanged.
pub proof fn law_span_join_idempotent(a: Span)
    requires
        a !is Detached,
        range_wf(span_range(a).unwrap()),
    ensures
        span_join(a, a) == a,
{
}

/// Whether a span, where located, has a well-formed range.
pub open spec fn span_ok(s: Span) -> bool {
    match span_range(s) {
        Some(r) => range_wf(r),
        None => true,
    }
}

/// Whether two spans can be joined: located in the same source, or both
/// relative to the local frame, or one of them detached.
pub open spec fn same_frame(a: Span, b: Span) -> bool {
    match (a, b) {
        (Span::FileLocated { source, .. }, Span::FileLocated { source: other, .. }) => source == other,
        (Span::FileLocated { .. }, Span::LocalRefFrame { .. }) => false,
        (Span::LocalRefFrame { .. }, Span::FileLocated { .. }) => false,
        _ => true,
    }
}

/// Whether the range `inner` lies within the range `outer`.
pub open spec fn range_within(inner: TextRange, outer: TextRange) -> bool {
    match (inner, outer) {
        (TextRange::Empty, _) => true,
        (TextRange::Range { start, end }, TextRange::Range { start: o_start, end: o_end }) => point_le(
            o_start,
            start,
        ) && point_le(end, o_end),
        _ => false,
    }
}

/// Whether `outer` covers `inner`: a detached span is covered by anything,
/// and a located one by a span of the same frame whose range holds it.
pub open spec fn encloses(outer: Span, inner: Span) -> bool {
    inner is Detached || (same_frame(outer, inner) && match (span_range(outer), span_range(inner)) {
        (Some(o), Some(i)) => range_within(i, o),
        _ => false,
    })
}

/// Whether spans are well formed and pairwise joinable.
pub open spec fn spans_agree(s: Seq<Span>) -> bool {
    &&& forall|i: int| 0 <= i < s.len() ==> span_ok(#[trigger] s[i])
    &&& forall|i: int, j: int| 0 <= i < s.len() && 0 <= j < s.len() ==> same_frame(#[trigger] s[i], #[trigger] s[j])
}

/// Every span covers itself.
pub proof fn lemma_encloses_refl(a: Span)
    ensures
        encloses(a, a),
{
    match a {
        Span::FileLocated { range, .. } | Span::LocalRefFrame { range } => match range {
            TextRange::Range { start, end } => {},
            TextRange::Empty => {},
        },
        _ => {},
    }
}

pub proof fn lemma_encloses_trans(a: Span, b: Span, c: Span)
    requires
        encloses(a, b),
        encloses(b, c),
    ensures
        encloses(a, c),
{
    if !(c is Detached) {
        match (span_range(a), span_range(b), span_range(c)) {
            (Some(ra), Some(rb), Some(rc)) => match (ra, rb, rc) {
                (
                    TextRange::Range { start: s1, end: e1 },
                    TextRange::Range { start: s2, end: e2 },
                    TextRange::Range { start: s3, end: e3 },
                ) => {
                    lemma_point_order_total(s1, s2);
                    lemma_point_order_total(s2, s3);
                    lemma_point_order_total(s1, s3);
                    lemma_point_order_total(e1, e2);
                    lemma_point_order_total(e2, e3);
                    lemma_point_order_total(e1, e3);
                },
                _ => {},
            },
            _ => {},
        }
    }
}

pub proof fn lemma_cover_encloses(a: Span, b: Span)
    requires
        span_ok(a),
        span_ok(b),
        same_frame(a, b),
    ensures
        encloses(span_cover(a, b), a),
        encloses(span_cover(a, b), b),
        span_ok(span_cover(a, b)),
        forall|c: Span| same_frame(a, c) && same_frame(b, c) ==> same_frame(#[trigger] span_cover(a, b), c),
{
    lemma_encloses_refl(a);
    lemma_encloses_refl(b);
    match (span_range(a), span_range(b)) {
        (Some(ra), Some(rb)) => match (ra, rb) {
            (TextRange::Range { start: s1, end: e1 }, TextRange::Range { start: s2, end: e2 }) => {
                lemma_point_order_total(s1, s2);
                lemma_point_order_total(e1, e2);
                lemma_point_order_total(s1, e1);
                lemma_point_order_total(s2, e2);
                lemma_point_order_total(s1, e2);
                lemma_point_order_total(s2, e1);
            },
            _ => {},
        },
        _ => {},
    }
}

/// The cover of well-formed, pairwise joinable spans covers each of them.
pub proof fn lemma_cover_all_encloses(s: Seq<Span>)
    requires
        spans_agree(s),
    ensures
        forall|i: int| 0 <= i < s.len() ==> encloses(span_cover_all(s), #[trigger] s[i]),
        span_ok(span_cover_all(s)),
        forall|c: Span|
            (forall|i: int| 0 <= i < s.len() ==> same_frame(#[trigger] s[i], c)) ==> same_frame(
                span_cover_all(s),
                c,
            ),
    decreases s.len(),
{
    if s.len() > 0 {
        let t = s.drop_last();
        assert(spans_agree(t)) by {
            assert forall|i: int| 0 <= i < t.len() implies span_ok(#[trigger] t[i]) by {
                assert(t[i] == s[i]);
            }
            assert forall|i: int, j: int| 0 <= i < t.len() && 0 <= j < t.len() implies same_frame(
                #[trigger] t[i],
                #[trigger] t[j],
            ) by {
                assert(t[i] == s[i]);
                assert(t[j] == s[j]);
            }
        }
        lemma_cover_all_encloses(t);
        let c = span_cover_all(t);
        let l = s.last();
        assert(span_ok(l));
        assert(same_frame(c, l)) by {
            assert forall|i: int| 0 <= i < t.len() implies same_frame(#[trigger] t[i], l) by {
                assert(t[i] == s[i]);
            }
        }
        lemma_cover_encloses(c, l);
        assert forall|i: int| 0 <= i < s.len() implies encloses(span_cover_all(s), #[trigger] s[i]) by {
            if i < s.len() - 1 {
                assert(t[i] == s[i]);
                lemma_encloses_trans(span_cover(c, l), c, s[i]);
            }
        }
        assert forall|x: Span|
            (forall|i: int| 0 <= i < s.len() ==> same_frame(#[trigger] s[i], x)) implies same_frame(
            span_cover_all(s),
            x,
        ) by {
            assert forall|i: int| 0 <= i < t.len() implies same_frame(#[trigger] t[i], x) by {
                assert(t[i] == s[i]);
            }
            assert(same_frame(s[s.len() - 1], x));
        }
    }
}

} // verus!
