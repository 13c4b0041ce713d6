use vstd::prelude::*;

verus! {

/// A position in a source file: a 1-based line and a 0-based byte column.
#[derive(Debug, Clone, Copy, PartialEq, Eq, Hash, PartialOrd, Ord, Structural)]
pub struct CharPosition {
    pub line: usize,
    pub column: usize,
}

/// Positions are ordered by line first, then by column.
pub open spec fn pos_lt(a: CharPosition, b: CharPosition) -> bool {
    a.line < b.line || (a.line == b.line && a.column < b.column)
}

pub open spec fn pos_le(a: CharPosition, b: CharPosition) -> bool {
    pos_lt(a, b) || a == b
}

/// The earlier of two positions.
pub open spec fn pos_min(a: CharPosition, b: CharPosition) -> CharPosition {
    if pos_lt(b, a) {
        b
    } else {
        a
    }
}

/// The later of two positions.
pub open spec fn pos_max(a: CharPosition, b: CharPosition) -> CharPosition {
    if pos_lt(a, b) {
        b
    } else {
        a
    }
}

impl CharPosition {
    pub fn new(line: usize, column: usize) -> (r: Self)
        ensures
            r.line == line,
            r.column == column,
    {
        Self { line, column }
    }

    /// Whether `self` comes strictly before `other`.
    pub fn is_before(&self, other: &CharPosition) -> (r: bool)
        ensures
            r == pos_lt(*self, *other),
    {
        self.line < other.line || (self.line == other.line && self.column < other.column)
    }
}

impl Default for CharPosition {
    fn default() -> (r: Self)
        ensures
            r.line == 0 && r.column == 0,
    {
        CharPosition { line: 0, column: 0 }
    }
}

/// A range of source text, from `char_start` to `char_end`.
#[derive(Debug, Clone, Copy, PartialEq, Eq, Hash, Structural)]
pub struct SpanInfo {
    pub char_start: CharPosition,
    /// The end position is inclusive.
    pub char_end: CharPosition,
}

impl SpanInfo {
    pub fn new(char_start: CharPosition, char_end: CharPosition) -> (r: Self)
        ensures
            r.char_start == char_start,
            r.char_end == char_end,
    {
        Self { char_start, char_end }
    }
}

impl Default for SpanInfo {
    fn default() -> (r: Self)
        ensures
            r.char_start == (CharPosition { line: 0, column: 0 }),
            r.char_end == (CharPosition { line: 0, column: 0 }),
    {
        SpanInfo { char_start: CharPosition::default(), char_end: CharPosition::default() }
    }
}

/// An error together with the range of source text it refers to.
#[derive(Clone, Debug)]
pub struct ErrorWrapper<T> {
    pub error: T,
    pub debug_information: SpanInfo,
}

/// A value together with the range of source text it came from.
#[derive(Debug, Clone, PartialEq)]
pub struct Spanned<T> {
    /// The value.
    pub inner: T,
    /// Where in the source it came from.
    pub span: SpanInfo,
}

impl<T> Spanned<T> {
    pub closed spec fn spec_inner(&self) -> T {
        self.inner
    }

    pub closed spec fn spec_span(&self) -> SpanInfo {
        self.span
    }

    pub fn new(inner: T, span: SpanInfo) -> (r: Self)
        ensures
            r.spec_inner() == inner,
            r.spec_span() == span,
    {
        Self { inner, span }
    }

    pub fn get_span(&self) -> (r: &SpanInfo)
        ensures
            *r == self.spec_span(),
    {
        &self.span
    }

    pub fn inner(&self) -> (r: &T)
        ensures
            *r == self.spec_inner(),
    {
        &self.inner
    }

    /// Builds the error value reported for this item: the error, the file it
    /// occurred in and this item's span.
    pub fn raise_error<E>(&self, file: String, error: E) -> (r: SpannedError<E>)
        ensures
            r.spec_error() == error,
            r.spec_file() == file,
            r.spec_span() == self.spec_span(),
    {
        SpannedError { error, file, span: self.span }
    }
}

/// An error located in a source file.
#[derive(Debug, Clone)]
pub struct SpannedError<E> {
    error: E,
    file: String,
    span: SpanInfo,
}

impl<E> SpannedError<E> {
    pub closed spec fn spec_error(&self) -> E {
        self.error
    }

    pub closed spec fn spec_file(&self) -> String {
        self.file
    }

    pub closed spec fn spec_span(&self) -> SpanInfo {
        self.span
    }

    pub fn error(&self) -> (r: &E)
        ensures
            *r == self.spec_error(),
    {
        &self.error
    }

    pub fn file(&self) -> (r: &String)
        ensures
            *r == self.spec_file(),
    {
        &self.file
    }

    pub fn span(&self) -> (r: SpanInfo)
        ensures
            r == self.spec_span(),
    {
        self.span
    }
}

/// Widens `lhs` so that it also covers `rhs`: the start becomes the earlier
/// of the two starts and the end the later of the two ends.
pub fn merge_ranges(lhs: &mut SpanInfo, rhs: &SpanInfo)
    ensures
        final(lhs).char_start == pos_min(old(lhs).char_start, rhs.char_start),
        final(lhs).char_end == pos_max(old(lhs).char_end, rhs.char_end),
{
    if rhs.char_start.is_before(&lhs.char_start) {
        lhs.char_start = rhs.char_start;
    }
    if lhs.char_end.is_before(&rhs.char_end) {
        lhs.char_end = rhs.char_end;
    }
}

/// The span that `merge_ranges` builds from the first span by merging in
/// every other span of `spans`, left to right.
pub open spec fn merged_span(spans: Seq<SpanInfo>) -> SpanInfo
    recommends
        spans.len() > 0,
    decreases spans.len(),
{
    if spans.len() <= 1 {
        spans[0]
    } else {
        let acc = merged_span(spans.drop_last());
        SpanInfo {
            char_start: pos_min(acc.char_start, spans.last().char_start),
            char_end: pos_max(acc.char_end, spans.last().char_end),
        }
    }
}

/// The span covering all of `spans`.
///
/// With exactly one span, that span. Otherwise, when `is_ordered`, from the
/// start of the first span to the end of the last one; when not, from the
/// earliest start to the latest end.
pub fn combine_span_info(debug_infos: &[SpanInfo], is_ordered: bool) -> (r: SpanInfo)
    requires
        debug_infos@.len() > 0,
    ensures
        debug_infos@.len() == 1 ==> r == debug_infos@[0],
        debug_infos@.len() > 1 && is_ordered ==> r == (SpanInfo {
            char_start: debug_infos@[0].char_start,
            char_end: debug_infos@.last().char_end,
        }),
        debug_infos@.len() > 1 && !is_ordered ==> r == merged_span(debug_infos@),
{
    if debug_infos.len() == 1 {
        return debug_infos[0];
    }
    if is_ordered {
        let start = debug_infos[0];
        let end = debug_infos[debug_infos.len() - 1];
        SpanInfo { char_start: start.char_start, char_end: end.char_end }
    } else {
        let mut range = debug_infos[0];
        let mut i: usize = 1;
        while i < debug_infos.len()
            invariant
                1 <= i <= debug_infos@.len(),
                range == merged_span(debug_infos@.subrange(0, i as int)),
            decreases debug_infos@.len() - i,
        {
            let ghost prev = debug_infos@.subrange(0, i as int);
            merge_ranges(&mut range, &debug_infos[i]);
            assert(debug_infos@.subrange(0, i + 1).drop_last() =~= prev);
            i += 1;
        }
        assert(debug_infos@.subrange(0, debug_infos@.len() as int) =~= debug_infos@);
        range
    }
}

/// `pos_le` is a total order on positions.
pub proof fn lemma_pos_le_total(a: CharPosition, b: CharPosition)
    ensures
        pos_le(a, b) || pos_le(b, a),
        pos_le(a, b) && pos_le(b, a) ==> a == b,
{
}

/// The merged span starts no later than any of the spans and ends no earlier
/// than any of them, and its start and end are those of spans in the list:
/// it is the smallest range covering every span.
pub proof fn lemma_merged_span_covers(spans: Seq<SpanInfo>)
    requires
        spans.len() > 0,
    ensures
        forall|i: int|
            0 <= i < spans.len() ==> pos_le(merged_span(spans).char_start, #[trigger] spans[i].char_start)
                && pos_le(spans[i].char_end, merged_span(spans).char_end),
        exists|i: int| 0 <= i < spans.len() && merged_span(spans).char_start == #[trigger] spans[i].char_start,
        exists|j: int| 0 <= j < spans.len() && merged_span(spans).char_end == #[trigger] spans[j].char_end,
    decreases spans.len(),
{
    if spans.len() > 1 {
        let init = spans.drop_last();
        lemma_merged_span_covers(init);
        assert forall|i: int| 0 <= i < spans.len() implies pos_le(merged_span(spans).char_start, #[trigger] spans[i].char_start)
            && pos_le(spans[i].char_end, merged_span(spans).char_end) by {
            if i < spans.len() - 1 {
                assert(init[i] == spans[i]);
            }
        }
        let acc = merged_span(init);
        let i0 = choose|i: int| 0 <= i < init.len() && acc.char_start == #[trigger] init[i].char_start;
        let j0 = choose|j: int| 0 <= j < init.len() && acc.char_end == #[trigger] init[j].char_end;
        if pos_lt(spans.last().char_start, acc.char_start) {
            assert(merged_span(spans).char_start == spans[spans.len() - 1].char_start);
        } else {
            assert(merged_span(spans).char_start == spans[i0].char_start);
        }
        if pos_lt(acc.char_end, spans.last().char_end) {
            assert(merged_span(spans).char_end == spans[spans.len() - 1].char_end);
        } else {
            assert(merged_span(spans).char_end == spans[j0].char_end);
        }
    } else {
        assert(merged_span(spans).char_start == spans[0].char_start);
        assert(merged_span(spans).char_end == spans[0].char_end);
    }
}

/// Merging is symmetric: merging `b` into `a` covers the same range as
/// merging `a` into `b`.
pub proof fn lemma_merge_symmetric(a: SpanInfo, b: SpanInfo)
    ensures
        pos_min(a.char_start, b.char_start) == pos_min(b.char_start, a.char_start),
        pos_max(a.char_end, b.char_end) == pos_max(b.char_end, a.char_end),
{
}

/// Merging a span into itself leaves it unchanged.
pub proof fn lemma_merge_idempotent(a: SpanInfo)
    ensures
        pos_min(a.char_start, a.char_start) == a.char_start,
        pos_max(a.char_end, a.char_end) == a.char_end,
{
}

/// Whether the spans come in source order: their starts, and their ends,
/// never go backwards.
pub open spec fn spans_in_order(spans: Seq<SpanInfo>) -> bool {
    forall|i: int, j: int|
        0 <= i <= j < spans.len() ==> pos_le(#[trigger] spans[i].char_start, #[trigger] spans[j].char_start)
            && pos_le(spans[i].char_end, spans[j].char_end)
}

/// For spans that come in source order, the fast ordered combination (first
/// start, last end) is the same span as the full merge of every span.
pub proof fn law_ordered_combine_is_merge(spans: Seq<SpanInfo>)
    requires
        spans.len() > 0,
        spans_in_order(spans),
    ensures
        merged_span(spans) == (SpanInfo {
            char_start: spans[0].char_start,
            char_end: spans.last().char_end,
        }),
    decreases spans.len(),
{
    if spans.len() > 1 {
        let init = spans.drop_last();
        assert forall|i: int, j: int|
            0 <= i <= j < init.len() implies pos_le(#[trigger] init[i].char_start, #[trigger] init[j].char_start)
            && pos_le(init[i].char_end, init[j].char_end) by {
            assert(init[i] == spans[i] && init[j] == spans[j]);
        }
        law_ordered_combine_is_merge(init);
        assert(init[0] == spans[0]);
        assert(init.last() == spans[spans.len() - 2]);
        assert(pos_le(spans[0].char_start, spans[spans.len() - 1].char_start));
        assert(pos_le(spans[spans.len() - 2].char_end, spans[spans.len() - 1].char_end));
    }
}

} // verus!
