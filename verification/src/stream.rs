use vstd::prelude::*;
use crate::span::Spanned;
use crate::token::{token_kind, Token, TokenDiscriminants};

verus! {

/// Items that can be tested against a description `D` (for tokens, their
/// kind).
pub trait Matches<D> {
    spec fn spec_matches(&self, d: D) -> bool;

    fn matches(&self, d: &D) -> (r: bool)
        ensures
            r == self.spec_matches(*d),
    ;
}

impl Matches<TokenDiscriminants> for Token {
    open spec fn spec_matches(&self, d: TokenDiscriminants) -> bool {
        token_kind(*self) == d
    }

    fn matches(&self, d: &TokenDiscriminants) -> (r: bool) {
        self.is_kind(d)
    }
}

impl Matches<TokenDiscriminants> for Spanned<Token> {
    open spec fn spec_matches(&self, d: TokenDiscriminants) -> bool {
        token_kind(self.spec_inner()) == d
    }

    fn matches(&self, d: &TokenDiscriminants) -> (r: bool) {
        self.inner().is_kind(d)
    }
}

/// Where the cursor of a stream of `len` items stands after `consume`: one
/// item further, unless it was already at the end.
pub open spec fn cursor_after_consume(len: int, cursor: int) -> int {
    if 0 <= cursor < len {
        cursor + 1
    } else {
        cursor
    }
}

/// Where the cursor stands after `consume_bulk(n)`: `n` items further when
/// that many are left, else where it was.
pub open spec fn cursor_after_bulk(len: int, cursor: int, n: int) -> int {
    if 0 <= cursor && cursor + n <= len {
        cursor + n
    } else {
        cursor
    }
}

/// Where the cursor stands after `n` calls of `consume`.
pub open spec fn cursor_after_consumes(len: int, cursor: int, n: nat) -> int
    decreases n,
{
    if n == 0 {
        cursor
    } else {
        cursor_after_consume(len, cursor_after_consumes(len, cursor, (n - 1) as nat))
    }
}

/// Where the cursor stands after `decrement_cursor(num)`: `num` items back,
/// or at the start.
pub open spec fn cursor_after_decrement(cursor: int, num: int) -> int {
    if cursor >= num {
        cursor - num
    } else {
        0
    }
}

/// A buffer read through a cursor.
///
/// A stream holds a sequence of items (`spec_items`) and a cursor
/// (`spec_cursor`) that only moves forward when items are consumed. Reading
/// past the end gives `None` and leaves the cursor where it is.
pub trait Streamable<T> {
    /// The items of the stream.
    spec fn spec_items(&self) -> Seq<T>;

    /// The position of the next item to be consumed.
    spec fn spec_cursor(&self) -> int;

    /// The stream's internal invariant.
    spec fn spec_valid(&self) -> bool;

    /// The item `nth` places from the cursor (backwards when `nth` is
    /// negative).
    fn peek(&self, nth: isize) -> (r: Option<&T>)
        requires
            self.spec_valid(),
        ensures
            ({
                let i = self.spec_cursor() + nth;
                if 0 <= i < self.spec_items().len() {
                    r == Some(&self.spec_items()[i])
                } else {
                    r is None
                }
            }),
    ;

    /// The item at the cursor.
    fn peek_next(&self) -> (r: Option<&T>)
        requires
            self.spec_valid(),
        ensures
            if 0 <= self.spec_cursor() < self.spec_items().len() {
                r == Some(&self.spec_items()[self.spec_cursor()])
            } else {
                r is None
            },
    ;

    /// The number of items.
    fn len(&self) -> (r: usize)
        requires
            self.spec_valid(),
        ensures
            r == self.spec_items().len(),
    ;

    /// The cursor.
    fn stream_idx(&self) -> (r: usize)
        requires
            self.spec_valid(),
        ensures
            r == self.spec_cursor(),
    ;

    /// Returns the item at the cursor and moves the cursor past it.
    fn consume(&mut self) -> (r: Option<&T>)
        requires
            old(self).spec_valid(),
        ensures
            final(self).spec_valid(),
            final(self).spec_items() == old(self).spec_items(),
            final(self).spec_cursor() == cursor_after_consume(
                old(self).spec_items().len() as int,
                old(self).spec_cursor(),
            ),
            if 0 <= old(self).spec_cursor() < old(self).spec_items().len() {
                r == Some(&old(self).spec_items()[old(self).spec_cursor()])
            } else {
                r is None
            },
    ;

    /// Consumes the item at the cursor and returns it if it matches
    /// `discriminant`. A non-matching item is consumed too, and `error` is
    /// returned; so it is at the end of the stream, where nothing is
    /// consumed.
    fn try_consume_match<E, D>(&mut self, error: E, discriminant: &D) -> (r: Result<&T, E>) where
        T: Matches<D>,
        requires
            old(self).spec_valid(),
        ensures
            final(self).spec_valid(),
            final(self).spec_items() == old(self).spec_items(),
            final(self).spec_cursor() == cursor_after_consume(
                old(self).spec_items().len() as int,
                old(self).spec_cursor(),
            ),
            if 0 <= old(self).spec_cursor() < old(self).spec_items().len() {
                if old(self).spec_items()[old(self).spec_cursor()].spec_matches(*discriminant) {
                    r == Ok::<&T, E>(&old(self).spec_items()[old(self).spec_cursor()])
                } else {
                    r == Err::<&T, E>(error)
                }
            } else {
                r == Err::<&T, E>(error)
            },
    ;

    /// Whether the items from the cursor on match `pattern`, item by item.
    fn try_match_pattern<D>(&self, pattern: &[D]) -> (r: bool) where T: Matches<D>
        requires
            self.spec_valid(),
        ensures
            r == pattern_at(self.spec_items(), self.spec_cursor(), pattern@),
    ;

    /// Consumes and returns the next `nth` items, if there are that many.
    fn consume_bulk(&mut self, nth: usize) -> (r: Option<&[T]>)
        requires
            old(self).spec_valid(),
        ensures
            final(self).spec_valid(),
            final(self).spec_items() == old(self).spec_items(),
            final(self).spec_cursor() == cursor_after_bulk(
                old(self).spec_items().len() as int,
                old(self).spec_cursor(),
                nth as int,
            ),
            if 0 <= old(self).spec_cursor() && old(self).spec_cursor() + nth <= old(self).spec_items().len() {
                r matches Some(s) && s@ == old(self).spec_items().subrange(
                    old(self).spec_cursor(),
                    old(self).spec_cursor() + nth,
                )
            } else {
                r is None
            },
    ;

    /// The next `nth` items, if there are that many, without consuming them.
    fn peek_bulk(&self, nth: usize) -> (r: Option<&[T]>)
        requires
            self.spec_valid(),
        ensures
            if 0 <= self.spec_cursor() && self.spec_cursor() + nth <= self.spec_items().len() {
                r matches Some(s) && s@ == self.spec_items().subrange(
                    self.spec_cursor(),
                    self.spec_cursor() + nth,
                )
            } else {
                r is None
            },
    ;

    /// Moves the cursor back by `num` items, to the start at most.
    fn decrement_cursor(&mut self, num: usize)
        requires
            old(self).spec_valid(),
        ensures
            final(self).spec_valid(),
            final(self).spec_items() == old(self).spec_items(),
            final(self).spec_cursor() == cursor_after_decrement(old(self).spec_cursor(), num as int),
    ;

    /// The items from the cursor to the end.
    fn peek_remainder(&self) -> (r: Option<&[T]>)
        requires
            self.spec_valid(),
        ensures
            if 0 <= self.spec_cursor() <= self.spec_items().len() {
                r matches Some(s) && s@ == self.spec_items().subrange(
                    self.spec_cursor(),
                    self.spec_items().len() as int,
                )
            } else {
                r is None
            },
    ;

    /// The item just before the cursor: the last one consumed.
    fn get_last_consumed(&self) -> (r: Option<&T>)
        requires
            self.spec_valid(),
        ensures
            if 1 <= self.spec_cursor() <= self.spec_items().len() {
                r == Some(&self.spec_items()[self.spec_cursor() - 1])
            } else {
                r is None
            },
    ;

    /// The distance from the cursor to the first item, at or after the
    /// cursor, for which `check` holds. Nothing is consumed.
    fn map_next_pos<F: Fn(&T) -> bool>(&self, check: F) -> (r: Option<usize>)
        requires
            self.spec_valid(),
            forall|x: &T| #[trigger] check.requires((x,)),
        ensures
            match r {
                Some(i) => {
                    &&& 0 <= self.spec_cursor()
                    &&& self.spec_cursor() + i < self.spec_items().len()
                    &&& check.ensures((&self.spec_items()[self.spec_cursor() + i],), true)
                    &&& forall|j: int|
                        self.spec_cursor() <= j < self.spec_cursor() + i ==> check.ensures(
                            (&#[trigger] self.spec_items()[j],),
                            false,
                        )
                },
                None => forall|j: int|
                    0 <= self.spec_cursor() <= j < self.spec_items().len() ==> check.ensures(
                        (&#[trigger] self.spec_items()[j],),
                        false,
                    ),
            },
    ;
    /// A child stream over the next `nth` items, if there are that many.
    /// The child starts with its cursor at the first of them; what it
    /// consumes is consumed from this stream too.
    fn child_iterator_bulk<'child>(&'child mut self, nth: usize) -> (r: Option<StreamChild<'child, T>>)
        requires
            old(self).spec_valid(),
        ensures
            match r {
                Some(c) => {
                    &&& 0 <= old(self).spec_cursor()
                    &&& old(self).spec_cursor() + nth <= old(self).spec_items().len()
                    &&& c.wf()
                    &&& c.window() == old(self).spec_items().subrange(
                        old(self).spec_cursor(),
                        old(self).spec_cursor() + nth,
                    )
                    &&& c.cursor_at_depth(c.spec_depth()) == 0
                },
                None => {
                    &&& !(0 <= old(self).spec_cursor() && old(self).spec_cursor() + nth <= old(
                        self,
                    ).spec_items().len())
                    &&& final(self).spec_valid()
                    &&& final(self).spec_items() == old(self).spec_items()
                    &&& final(self).spec_cursor() == old(self).spec_cursor()
                },
            },
    ;
}

/// Whether the items from position `at` on match `pattern`, item by item.
/// An empty pattern matches anywhere.
pub open spec fn pattern_at<D, T: Matches<D>>(items: Seq<T>, at: int, pattern: Seq<D>) -> bool {
    pattern.len() == 0 || {
        &&& 0 <= at
        &&& at + pattern.len() <= items.len()
        &&& forall|i: int| 0 <= i < pattern.len() ==> #[trigger] items[at + i].spec_matches(pattern[i])
    }
}

/// A saved cursor position.
pub struct StreamCheckpoint {
    idx: usize,
}

impl StreamCheckpoint {
    pub closed spec fn spec_idx(&self) -> int {
        self.idx as int
    }
}

/// A stream over an owned buffer.
///
/// Child streams read a window of the buffer (see `child_iterator_bulk`);
/// what a child consumes is consumed from its owners too. The cursors of the
/// stream and of its children are kept on one stack: the stream's own at the
/// bottom, then one per child, each with the position in the buffer where the
/// child's window starts.
pub struct Stream<T> {
    buffer: Vec<T>,
    idx_stack: Vec<usize>,
    starts: Vec<usize>,
}

impl<T> Stream<T> {
    pub closed spec fn spec_buffer(&self) -> Seq<T> {
        self.buffer@
    }

    /// The cursor of the frame at depth `d` (the stream itself at 0).
    pub closed spec fn cursor_at(&self, d: int) -> int {
        self.idx_stack@[d] as int
    }

    /// Where the windows of the frames start in the buffer, the stream's own
    /// first.
    pub closed spec fn frames(&self) -> Seq<usize> {
        self.starts@
    }

    /// Where the window of the frame at depth `d` starts in the buffer.
    pub closed spec fn start_at(&self, d: int) -> int {
        self.starts@[d] as int
    }

    /// The stack is well formed up to depth `d`: the windows nest, and the
    /// position in the buffer of each cursor is at most that of the cursor
    /// above it.
    pub closed spec fn chain_ok(&self, d: int) -> bool {
        &&& 0 <= d < self.idx_stack@.len()
        &&& self.idx_stack@.len() == self.starts@.len()
        &&& self.starts@[0] == 0
        &&& forall|k: int|
            0 <= k < d ==> #[trigger] self.starts@[k] <= self.starts@[k + 1] && self.starts@[k]
                + self.idx_stack@[k] <= self.starts@[k + 1] + self.idx_stack@[k + 1]
    }

    pub fn new(tokens: Vec<T>) -> (r: Self)
        ensures
            r.spec_valid(),
            r.spec_items() == tokens@,
            r.spec_cursor() == 0,
    {
        let mut idx_stack: Vec<usize> = Vec::new();
        idx_stack.push(0);
        let mut starts: Vec<usize> = Vec::new();
        starts.push(0);
        Self { buffer: tokens, idx_stack, starts }
    }

    /// Saves the cursor.
    pub fn create_checkpoint(&self) -> (r: StreamCheckpoint)
        requires
            self.spec_valid(),
        ensures
            r.spec_idx() == self.spec_cursor(),
    {
        StreamCheckpoint { idx: self.idx_stack[0] }
    }

    /// Moves the cursor back (or forward) to a saved position.
    pub fn load_checkpoint(&mut self, checkpoint: StreamCheckpoint)
        requires
            old(self).spec_valid(),
        ensures
            final(self).spec_valid(),
            final(self).spec_items() == old(self).spec_items(),
            final(self).spec_cursor() == checkpoint.spec_idx(),
    {
        self.idx_stack.set(0, checkpoint.idx);
    }

    /// The buffer, for changing it in place; the cursor stays where it is.
    pub fn tokens_mut(&mut self) -> (r: &mut Vec<T>)
        requires
            old(self).spec_valid(),
        ensures
            r@ == old(self).spec_buffer(),
            final(self).spec_buffer() == final(r)@,
            final(self).spec_valid(),
            final(self).spec_cursor() == old(self).spec_cursor(),
    {
        &mut self.buffer
    }

    /// The items.
    pub(crate) fn items(&self) -> (r: &[T])
        ensures
            r@ == self.spec_buffer(),
    {
        self.buffer.as_slice()
    }

    /// Puts the cursor at `idx`.
    pub(crate) fn set_cursor(&mut self, idx: usize)
        requires
            old(self).spec_valid(),
        ensures
            final(self).spec_valid(),
            final(self).spec_items() == old(self).spec_items(),
            final(self).spec_cursor() == idx,
    {
        self.idx_stack.set(0, idx);
    }

    /// The number of items in the buffer.
    pub fn len(&self) -> (r: usize)
        ensures
            r == self.spec_buffer().len(),
    {
        self.buffer.len()
    }

    pub fn is_empty(&self) -> (r: bool)
        ensures
            r == (self.spec_buffer().len() == 0),
    {
        self.buffer.len() == 0
    }

    fn idx(&self) -> (r: usize)
        requires
            self.spec_valid(),
        ensures
            r == self.spec_cursor(),
    {
        self.idx_stack[0]
    }

    fn increment(&mut self, amount: usize)
        requires
            old(self).spec_valid(),
            old(self).spec_cursor() + amount <= usize::MAX,
        ensures
            final(self).spec_valid(),
            final(self).spec_buffer() == old(self).spec_buffer(),
            final(self).spec_cursor() == old(self).spec_cursor() + amount,
    {
        let i = self.idx_stack[0];
        self.idx_stack.set(0, i + amount);
    }

    fn decrement(&mut self, amount: usize)
        requires
            old(self).spec_valid(),
        ensures
            final(self).spec_valid(),
            final(self).spec_buffer() == old(self).spec_buffer(),
            final(self).spec_cursor() == if old(self).spec_cursor() >= amount {
                old(self).spec_cursor() - amount
            } else {
                0
            },
    {
        let i = self.idx_stack[0];
        let v = if i >= amount {
            i - amount
        } else {
            0
        };
        self.idx_stack.set(0, v);
    }
}

impl<T> Streamable<T> for Stream<T> {
    open spec fn spec_items(&self) -> Seq<T> {
        self.spec_buffer()
    }

    open spec fn spec_cursor(&self) -> int {
        self.cursor_at(0)
    }

    open spec fn spec_valid(&self) -> bool {
        self.chain_ok(0)
    }

    fn len(&self) -> (r: usize) {
        self.buffer.len()
    }

    fn stream_idx(&self) -> (r: usize) {
        self.idx()
    }

    fn decrement_cursor(&mut self, num: usize) {
        self.decrement(num);
    }

    fn peek(&self, nth: isize) -> (r: Option<&T>) {
        let idx = self.idx();
        let len = self.buffer.len();
        if nth >= 0 {
            let n = nth as usize;
            if idx < len && n < len - idx {
                Some(&self.buffer[idx + n])
            } else {
                None
            }
        } else {
            let back = (-(nth as i128)) as usize;
            if back <= idx && idx - back < len {
                Some(&self.buffer[idx - back])
            } else {
                None
            }
        }
    }

    fn peek_next(&self) -> (r: Option<&T>) {
        let idx = self.idx();
        if idx < self.buffer.len() {
            Some(&self.buffer[idx])
        } else {
            None
        }
    }

    fn consume(&mut self) -> (r: Option<&T>) {
        let idx = self.idx();
        if idx < self.buffer.len() {
            self.increment(1);
            Some(&self.buffer[idx])
        } else {
            None
        }
    }

    fn try_consume_match<E, D>(&mut self, error: E, discriminant: &D) -> (r: Result<&T, E>) where
        T: Matches<D>,
     {
        let idx = self.idx();
        if idx < self.buffer.len() {
            self.increment(1);
            let query = &self.buffer[idx];
            if query.matches(discriminant) {
                Ok(query)
            } else {
                Err(error)
            }
        } else {
            Err(error)
        }
    }

    fn try_match_pattern<D>(&self, pattern: &[D]) -> (r: bool) where T: Matches<D> {
        let idx = self.idx();
        let len = self.buffer.len();
        let plen = pattern.len();
        if plen == 0 {
            return true;
        }
        if !(idx <= len && plen <= len - idx) {
            return false;
        }
        let mut i: usize = 0;
        while i < plen
            invariant
                0 <= i <= plen,
                plen == pattern@.len(),
                idx == self.spec_cursor(),
                len == self.spec_items().len(),
                idx + plen <= len,
                forall|k: int| 0 <= k < i ==> #[trigger] self.spec_items()[idx + k].spec_matches(pattern@[k]),
            decreases plen - i,
        {
            if !self.buffer[idx + i].matches(&pattern[i]) {
                assert(!self.spec_items()[idx + i].spec_matches(pattern@[i as int]));
                return false;
            }
            i = i + 1;
        }
        true
    }

    fn consume_bulk(&mut self, nth: usize) -> (r: Option<&[T]>) {
        let idx = self.idx();
        let len = self.buffer.len();
        if idx <= len && nth <= len - idx {
            self.increment(nth);
            Some(vstd::slice::slice_subrange(self.buffer.as_slice(), idx, idx + nth))
        } else {
            None
        }
    }

    fn peek_bulk(&self, nth: usize) -> (r: Option<&[T]>) {
        let idx = self.idx();
        let len = self.buffer.len();
        if idx <= len && nth <= len - idx {
            Some(vstd::slice::slice_subrange(self.buffer.as_slice(), idx, idx + nth))
        } else {
            None
        }
    }

    fn peek_remainder(&self) -> (r: Option<&[T]>) {
        let idx = self.idx();
        let len = self.buffer.len();
        if idx <= len {
            Some(vstd::slice::slice_subrange(self.buffer.as_slice(), idx, len))
        } else {
            None
        }
    }

    fn get_last_consumed(&self) -> (r: Option<&T>) {
        let idx = self.idx();
        if idx >= 1 && idx - 1 < self.buffer.len() {
            Some(&self.buffer[idx - 1])
        } else {
            None
        }
    }

    fn map_next_pos<F: Fn(&T) -> bool>(&self, check: F) -> (r: Option<usize>) {
        let idx = self.idx();
        let len = self.buffer.len();
        if idx >= len {
            return None;
        }
        let mut i: usize = idx;
        while i < len
            invariant
                idx <= i <= len,
                idx == self.spec_cursor(),
                len == self.spec_items().len(),
                forall|x: &T| #[trigger] check.requires((x,)),
                forall|j: int| idx <= j < i ==> check.ensures((&#[trigger] self.spec_items()[j],), false),
            decreases len - i,
        {
            if check(&self.buffer[i]) {
                return Some(i - idx);
            }
            i = i + 1;
        }
        None
    }

    fn child_iterator_bulk<'child>(&'child mut self, nth: usize) -> (r: Option<StreamChild<'child, T>>)
        ensures
            r matches Some(c) ==> {
                &&& *final(self) == *final(c.stream)
                &&& c.spec_depth() == 1
                &&& c.cursor_at_depth(0) == old(self).spec_cursor()
                &&& c.root().spec_items() == old(self).spec_items()
            },
    {
        let start = self.idx();
        let len = self.buffer.len();
        if start <= len && nth <= len - start {
            self.idx_stack.truncate(1);
            self.starts.truncate(1);
            self.idx_stack.push(0);
            self.starts.push(start);
            let child = StreamChild { stream: self, depth: 1, len: nth };
            proof {
                assert(child.window() =~= old(self).spec_buffer().subrange(start as int, start + nth));
            }
            Some(child)
        } else {
            None
        }
    }
}


/// A stream over a window of its owner's items.
///
/// Its cursor is its own, but every item it consumes is consumed from the
/// stream it was made from, and from that stream's owners, down to the
/// root `Stream`.
pub struct StreamChild<'owner, T> {
    /// The root stream, whose cursor stack holds this child's cursor.
    pub stream: &'owner mut Stream<T>,
    /// This child's place on the stack (the root stream is at 0).
    pub depth: usize,
    /// How many items the child's window holds.
    pub len: usize,
}

/// The cursors of the frames at depths `0..=d` move with the one at `d`:
/// the position of each in the buffer is at most that of the one at `d`.
proof fn lemma_chain_below<T>(s: Stream<T>, d: int)
    requires
        s.chain_ok(d),
    ensures
        forall|k: int|
            0 <= k <= d ==> #[trigger] s.start_at(k) <= s.start_at(d) && s.start_at(k) + s.cursor_at(k)
                <= s.start_at(d) + s.cursor_at(d),
    decreases d,
{
    if d > 0 {
        assert(s.chain_ok(d - 1));
        lemma_chain_below(s, d - 1);
        assert(s.starts@[d - 1] <= s.starts@[d]);
    }
}

impl<'owner, T> StreamChild<'owner, T> {
    /// The child's items: its window of the buffer.
    pub closed spec fn window(&self) -> Seq<T> {
        let start = self.stream.starts@[self.depth as int] as int;
        self.stream.buffer@.subrange(start, start + self.len)
    }

    /// The root `Stream` as it is now.
    pub closed spec fn root(&self) -> Stream<T> {
        *self.stream
    }

    /// How many streams this child is away from the root `Stream`.
    pub closed spec fn spec_depth(&self) -> int {
        self.depth as int
    }

    /// The cursor of the stream at depth `k` (the root at 0, this child at
    /// `spec_depth()`).
    pub closed spec fn cursor_at_depth(&self, k: int) -> int {
        self.stream.idx_stack@[k] as int
    }

    pub closed spec fn wf(&self) -> bool {
        &&& self.stream.buffer@.len() <= usize::MAX
        &&& 1 <= self.depth
        &&& self.stream.chain_ok(self.depth as int)
        &&& self.stream.starts@[self.depth as int] + self.len <= self.stream.buffer@.len()
        &&& self.stream.idx_stack@[self.depth as int] <= self.len
    }

    fn local_idx(&self) -> (r: usize)
        requires
            self.wf(),
        ensures
            r == self.cursor_at_depth(self.spec_depth()),
    {
        self.stream.idx_stack[self.depth]
    }

    /// Moves the cursors of this child and of all its owners forward.
    #[verifier::rlimit(50)]
    fn increment_all(&mut self, amount: usize)
        requires
            old(self).wf(),
            old(self).cursor_at_depth(old(self).spec_depth()) + amount <= old(self).len,
        ensures
            *final(final(self).stream) == *final(old(self).stream),
            final(self).root().spec_items() == old(self).root().spec_items(),
            final(self).root().frames() == old(self).root().frames(),
            final(self).len == old(self).len,
            final(self).wf(),
            final(self).depth == old(self).depth,
            final(self).len == old(self).len,
            final(self).window() == old(self).window(),
            forall|k: int|
                0 <= k <= old(self).spec_depth() ==> #[trigger] final(self).cursor_at_depth(k)
                    == old(self).cursor_at_depth(k) + amount,
    {
        let d = self.depth;
        let _slen = self.stream.idx_stack.len();
        let ghost old_stack = self.stream.idx_stack@;
        let ghost starts = self.stream.starts@;
        proof {
            lemma_chain_below(*self.stream, d as int);
            assert forall|k: int| 0 <= k <= d implies #[trigger] old_stack[k] + amount <= usize::MAX by {
                assert(self.stream.start_at(k) + self.stream.cursor_at(k) <= self.stream.start_at(d as int)
                    + self.stream.cursor_at(d as int));
            }
        }
        let mut i: usize = 0;
        while i <= d
            invariant
                0 <= i <= d + 1,
                *final(self.stream) == *final(old(self).stream),
                d == self.depth,
                d < old_stack.len(),
                old_stack.len() <= usize::MAX,
                self.len == old(self).len,
                self.stream.buffer == old(self).stream.buffer,
                self.stream.starts@ == starts,
                self.stream.idx_stack@.len() == old_stack.len(),
                forall|k: int| 0 <= k <= d ==> #[trigger] old_stack[k] + amount <= usize::MAX,
                forall|k: int| 0 <= k < i ==> #[trigger] self.stream.idx_stack@[k] == old_stack[k] + amount,
                forall|k: int| i <= k < old_stack.len() ==> #[trigger] self.stream.idx_stack@[k] == old_stack[k],
            decreases d + 1 - i,
        {
            let v = self.stream.idx_stack[i];
            self.stream.idx_stack.set(i, v + amount);
            i = i + 1;
        }
        proof {
            assert(self.window() =~= old(self).window());
            assert forall|k: int| 0 <= k < d implies #[trigger] self.stream.starts@[k] <= self.stream.starts@[k + 1]
                && self.stream.starts@[k] + self.stream.idx_stack@[k] <= self.stream.starts@[k + 1]
                + self.stream.idx_stack@[k + 1] by {
                assert(old(self).stream.starts@[k] <= old(self).stream.starts@[k + 1]);
                assert(old(self).stream.starts@[k] + old_stack[k] <= old(self).stream.starts@[k + 1] + old_stack[k + 1]);
            }
        }
    }

    /// Moves the cursors of this child and of all its owners back by
    /// `amount`, each to 0 at most.
    #[verifier::rlimit(50)]
    fn decrement_all(&mut self, amount: usize)
        requires
            old(self).wf(),
        ensures
            *final(final(self).stream) == *final(old(self).stream),
            final(self).root().spec_items() == old(self).root().spec_items(),
            final(self).root().frames() == old(self).root().frames(),
            final(self).len == old(self).len,
            final(self).wf(),
            final(self).depth == old(self).depth,
            final(self).len == old(self).len,
            final(self).window() == old(self).window(),
            forall|k: int|
                0 <= k <= old(self).spec_depth() ==> #[trigger] final(self).cursor_at_depth(k) == if old(
                    self,
                ).cursor_at_depth(k) >= amount {
                    old(self).cursor_at_depth(k) - amount
                } else {
                    0
                },
    {
        let d = self.depth;
        let _slen = self.stream.idx_stack.len();
        let ghost old_stack = self.stream.idx_stack@;
        let ghost starts = self.stream.starts@;
        let mut i: usize = 0;
        while i <= d
            invariant
                *final(self.stream) == *final(old(self).stream),
                0 <= i <= d + 1,
                d == self.depth,
                d < old_stack.len(),
                old_stack.len() <= usize::MAX,
                self.len == old(self).len,
                self.stream.buffer == old(self).stream.buffer,
                self.stream.starts@ == starts,
                self.stream.idx_stack@.len() == old_stack.len(),
                forall|k: int|
                    0 <= k < i ==> #[trigger] self.stream.idx_stack@[k] == if old_stack[k] >= amount {
                        old_stack[k] - amount
                    } else {
                        0
                    },
                forall|k: int| i <= k < old_stack.len() ==> #[trigger] self.stream.idx_stack@[k] == old_stack[k],
            decreases d + 1 - i,
        {
            let v = self.stream.idx_stack[i];
            let nv = if v >= amount {
                v - amount
            } else {
                0
            };
            self.stream.idx_stack.set(i, nv);
            i = i + 1;
        }
        proof {
            assert(self.window() =~= old(self).window());
            assert forall|k: int| 0 <= k < d implies #[trigger] self.stream.starts@[k] <= self.stream.starts@[k + 1]
                && self.stream.starts@[k] + self.stream.idx_stack@[k] <= self.stream.starts@[k + 1]
                + self.stream.idx_stack@[k + 1] by {
                assert(old(self).stream.starts@[k] <= old(self).stream.starts@[k + 1]);
                assert(old(self).stream.starts@[k] + old_stack[k] <= old(self).stream.starts@[k + 1] + old_stack[k + 1]);
            }
        }
    }

    /// The cursor of the stream this child was made from.
    pub fn owner_idx(&self) -> (r: usize)
        requires
            self.wf(),
        ensures
            r == self.cursor_at_depth(self.spec_depth() - 1),
    {
        if self.depth > 0 {
            self.stream.idx_stack[self.depth - 1]
        } else {
            self.stream.idx_stack[0]
        }
    }
}

impl<'owner, T> Streamable<T> for StreamChild<'owner, T> {
    open spec fn spec_items(&self) -> Seq<T> {
        self.window()
    }

    open spec fn spec_cursor(&self) -> int {
        self.cursor_at_depth(self.spec_depth())
    }

    open spec fn spec_valid(&self) -> bool {
        self.wf()
    }

    fn len(&self) -> (r: usize) {
        self.len
    }

    fn stream_idx(&self) -> (r: usize) {
        self.local_idx()
    }

    fn peek(&self, nth: isize) -> (r: Option<&T>) {
        let idx = self.local_idx();
        let len = self.len;
        let start = self.stream.starts[self.depth];
        if nth >= 0 {
            let n = nth as usize;
            if idx < len && n < len - idx {
                Some(&self.stream.buffer[start + idx + n])
            } else {
                None
            }
        } else {
            let back = (-(nth as i128)) as usize;
            if back <= idx && idx - back < len {
                Some(&self.stream.buffer[start + (idx - back)])
            } else {
                None
            }
        }
    }

    fn peek_next(&self) -> (r: Option<&T>) {
        let idx = self.local_idx();
        if idx < self.len {
            Some(&self.stream.buffer[self.stream.starts[self.depth] + idx])
        } else {
            None
        }
    }

    fn consume(&mut self) -> (r: Option<&T>)
        ensures
            (final(self).spec_cursor(), final(self).cursor_at_depth(old(self).spec_depth() - 1)) == child_consumes(
                old(self).spec_items().len() as int,
                old(self).spec_cursor(),
                old(self).cursor_at_depth(old(self).spec_depth() - 1),
                1,
            ),
            *final(final(self).stream) == *final(old(self).stream),
            final(self).spec_depth() == old(self).spec_depth(),
            final(self).root().spec_items() == old(self).root().spec_items(),
            final(self).root().frames() == old(self).root().frames(),
            final(self).len == old(self).len,
            forall|k: int|
                0 <= k <= old(self).spec_depth() ==> #[trigger] final(self).cursor_at_depth(k) == old(
                    self,
                ).cursor_at_depth(k) + if old(self).spec_cursor() < old(self).spec_items().len() {
                    1int
                } else {
                    0int
                },
    {
        let ghost d = self.spec_depth();
        let ghost n = self.spec_items().len() as int;
        let ghost c0 = self.spec_cursor();
        let ghost o0 = self.cursor_at_depth(d - 1);
        proof {
            assert(child_consumes(n, c0, o0, 0) == (c0, o0));
        }
        let idx = self.local_idx();
        if idx < self.len {
            self.increment_all(1);
            assert(self.cursor_at_depth(d) == c0 + 1 && self.cursor_at_depth(d - 1) == o0 + 1);
            Some(&self.stream.buffer[self.stream.starts[self.depth] + idx])
        } else {
            None
        }
    }

    fn try_consume_match<E, D>(&mut self, error: E, discriminant: &D) -> (r: Result<&T, E>) where
        T: Matches<D>,
        ensures
            *final(final(self).stream) == *final(old(self).stream),
            final(self).spec_depth() == old(self).spec_depth(),
            final(self).root().spec_items() == old(self).root().spec_items(),
            final(self).root().frames() == old(self).root().frames(),
            final(self).len == old(self).len,
            forall|k: int|
                0 <= k <= old(self).spec_depth() ==> #[trigger] final(self).cursor_at_depth(k) == old(
                    self,
                ).cursor_at_depth(k) + if old(self).spec_cursor() < old(self).spec_items().len() {
                    1int
                } else {
                    0int
                },
    {
        let idx = self.local_idx();
        if idx < self.len {
            self.increment_all(1);
            let query = &self.stream.buffer[self.stream.starts[self.depth] + idx];
            if query.matches(discriminant) {
                Ok(query)
            } else {
                Err(error)
            }
        } else {
            Err(error)
        }
    }

    fn try_match_pattern<D>(&self, pattern: &[D]) -> (r: bool) where T: Matches<D> {
        let idx = self.local_idx();
        let len = self.len;
        let start = self.stream.starts[self.depth];
        let plen = pattern.len();
        if plen == 0 {
            return true;
        }
        if !(idx <= len && plen <= len - idx) {
            return false;
        }
        let mut i: usize = 0;
        while i < plen
            invariant
                0 <= i <= plen,
                plen == pattern@.len(),
                idx == self.spec_cursor(),
                len == self.spec_items().len(),
                self.wf(),
                start == self.stream.starts@[self.depth as int],
                idx + plen <= len,
                forall|k: int| 0 <= k < i ==> #[trigger] self.spec_items()[idx + k].spec_matches(pattern@[k]),
            decreases plen - i,
        {
            if !self.stream.buffer[start + idx + i].matches(&pattern[i]) {
                assert(!self.spec_items()[idx + i].spec_matches(pattern@[i as int]));
                return false;
            }
            i = i + 1;
        }
        true
    }

    fn consume_bulk(&mut self, nth: usize) -> (r: Option<&[T]>)
        ensures
            *final(final(self).stream) == *final(old(self).stream),
            final(self).spec_depth() == old(self).spec_depth(),
            final(self).root().spec_items() == old(self).root().spec_items(),
            final(self).root().frames() == old(self).root().frames(),
            final(self).len == old(self).len,
            forall|k: int|
                0 <= k <= old(self).spec_depth() ==> #[trigger] final(self).cursor_at_depth(k) == old(
                    self,
                ).cursor_at_depth(k) + if old(self).spec_cursor() + nth <= old(self).spec_items().len() {
                    nth as int
                } else {
                    0int
                },
    {
        let idx = self.local_idx();
        let len = self.len;
        if idx <= len && nth <= len - idx {
            self.increment_all(nth);
            let start = self.stream.starts[self.depth];
            let r = vstd::slice::slice_subrange(self.stream.buffer.as_slice(), start + idx, start + idx + nth);
            assert(r@ =~= old(self).spec_items().subrange(idx as int, idx + nth));
            Some(r)
        } else {
            None
        }
    }

    fn peek_bulk(&self, nth: usize) -> (r: Option<&[T]>) {
        let idx = self.local_idx();
        let len = self.len;
        if idx <= len && nth <= len - idx {
            let start = self.stream.starts[self.depth];
            let r = vstd::slice::slice_subrange(self.stream.buffer.as_slice(), start + idx, start + idx + nth);
            assert(r@ =~= self.spec_items().subrange(idx as int, idx + nth));
            Some(r)
        } else {
            None
        }
    }

    fn decrement_cursor(&mut self, num: usize)
        ensures
            *final(final(self).stream) == *final(old(self).stream),
            final(self).spec_depth() == old(self).spec_depth(),
            final(self).root().spec_items() == old(self).root().spec_items(),
            final(self).root().frames() == old(self).root().frames(),
            final(self).len == old(self).len,
            forall|k: int|
                0 <= k <= old(self).spec_depth() ==> #[trigger] final(self).cursor_at_depth(k) == if old(
                    self,
                ).cursor_at_depth(k) >= num {
                    old(self).cursor_at_depth(k) - num
                } else {
                    0
                },
    {
        self.decrement_all(num);
    }

    fn peek_remainder(&self) -> (r: Option<&[T]>) {
        let idx = self.local_idx();
        let len = self.len;
        let start = self.stream.starts[self.depth];
        let r = vstd::slice::slice_subrange(self.stream.buffer.as_slice(), start + idx, start + len);
        assert(r@ =~= self.spec_items().subrange(idx as int, len as int));
        Some(r)
    }

    fn get_last_consumed(&self) -> (r: Option<&T>) {
        let idx = self.local_idx();
        if idx >= 1 && idx - 1 < self.len {
            Some(&self.stream.buffer[self.stream.starts[self.depth] + (idx - 1)])
        } else {
            None
        }
    }

    fn map_next_pos<F: Fn(&T) -> bool>(&self, check: F) -> (r: Option<usize>) {
        let idx = self.local_idx();
        let len = self.len;
        let start = self.stream.starts[self.depth];
        let mut i: usize = idx;
        while i < len
            invariant
                idx <= i <= len,
                idx == self.spec_cursor(),
                len == self.spec_items().len(),
                self.wf(),
                start == self.stream.starts@[self.depth as int],
                forall|x: &T| #[trigger] check.requires((x,)),
                forall|j: int| idx <= j < i ==> check.ensures((&#[trigger] self.spec_items()[j],), false),
            decreases len - i,
        {
            if check(&self.stream.buffer[start + i]) {
                return Some(i - idx);
            }
            i = i + 1;
        }
        None
    }

    #[verifier::rlimit(40)]
    fn child_iterator_bulk<'child>(&'child mut self, nth: usize) -> (r: Option<StreamChild<'child, T>>)
        ensures
            *final(final(self).stream) == *final(old(self).stream),
            r matches Some(c) ==> *final(self).stream == *final(c.stream),
            r matches Some(c) ==> final(self).spec_depth() == old(self).spec_depth(),
            r matches Some(c) ==> c.spec_depth() == old(self).spec_depth() + 1,
            r matches Some(c) ==> forall|k: int| 0 <= k <= old(self).spec_depth() ==> #[trigger] c.cursor_at_depth(k)
                    == old(self).cursor_at_depth(k),
            r matches Some(c) ==> c.root().spec_items() == old(self).root().spec_items(),
            r matches Some(c) ==> c.root().frames().len() == c.spec_depth() + 1,
            r matches Some(c) ==> final(self).len == old(self).len,
            r matches Some(c) ==> forall|k: int| #[trigger] final(self).cursor_at_depth(k) == (*final(c.stream)).cursor_at(k),
            r matches Some(c) ==> ({
                let st = *final(c.stream);
                (st.chain_ok(c.spec_depth()) && st.cursor_at(c.spec_depth()) <= c.len && st.frames()
                    == c.root().frames() && st.spec_buffer() == c.root().spec_buffer()) ==> final(self).wf()
            }),
    {
        let start = self.local_idx();
        let len = self.len;
        if start <= len && nth <= len - start {
            let d = self.depth;
            let _slen = self.stream.idx_stack.len();
            proof {
                lemma_chain_below(*self.stream, d as int);
            }
            let abs = self.stream.starts[d] + start;
            self.stream.idx_stack.truncate(d + 1);
            self.stream.starts.truncate(d + 1);
            self.stream.idx_stack.push(0);
            self.stream.starts.push(abs);
            let child = StreamChild { stream: &mut *self.stream, depth: d + 1, len: nth };
            proof {
                assert(child.window() =~= old(self).window().subrange(start as int, start + nth));
                let cur = *child.stream;
                let olen = self.len as int;
                assert forall|st: Stream<T>|
                    st.chain_ok(d + 1) && st.cursor_at(d + 1) <= nth && st.frames() == cur.frames() && st.spec_buffer()
                        == cur.spec_buffer() implies (#[trigger] st.chain_ok(d as int) && st.cursor_at(d as int) <= olen
                    && st.start_at(d as int) + olen <= st.spec_buffer().len()) by {
                    lemma_owner_ok_after(st, cur, d as int, olen, nth as int);
                }
            }
            Some(child)
        } else {
            None
        }
    }
}

/// Whether `states` (items and cursor) follow from `start` by `ops`, each as
/// the stream's contracts state of that operation: the items stay, and the
/// cursor moves as `cursor_after_op` says.
pub open spec fn moves_follow<T>(start: (Seq<T>, int), ops: Seq<CursorOp>, states: Seq<(Seq<T>, int)>) -> bool {
    &&& states.len() == ops.len()
    &&& forall|i: int|
        0 <= i < ops.len() ==> {
            let prev = if i == 0 {
                start
            } else {
                states[i - 1]
            };
            &&& (#[trigger] states[i]).0 == prev.0
            &&& states[i].1 == cursor_after_op(prev.0.len() as int, prev.1, ops[i])
        }
}

/// The first `k` states of a run of moves keep the items and the cursor among
/// them.
proof fn lemma_moves_keep<T>(start: (Seq<T>, int), ops: Seq<CursorOp>, states: Seq<(Seq<T>, int)>, k: int)
    requires
        0 <= start.1 <= start.0.len(),
        moves_follow(start, ops, states),
        0 <= k <= states.len(),
    ensures
        forall|i: int| 0 <= i < k ==> (#[trigger] states[i]).0 == start.0 && 0 <= states[i].1 <= start.0.len(),
    decreases k,
{
    if k > 0 {
        lemma_moves_keep(start, ops, states, k - 1);
        let st = states[k - 1];
        assert(st == states[k - 1]);
    }
}

/// A checkpoint taken at `start` and loaded after any moves gives back the
/// stream as it was: every move keeps the items and leaves the cursor among
/// them, and loading sets the cursor back to the saved position.
pub proof fn law_checkpoint_round_trip<T>(
    start: (Seq<T>, int),
    ops: Seq<CursorOp>,
    states: Seq<(Seq<T>, int)>,
    loaded: (Seq<T>, int),
)
    requires
        0 <= start.1 <= start.0.len(),
        moves_follow(start, ops, states),
        loaded.0 == (if states.len() == 0 {
            start
        } else {
            states.last()
        }).0,
        loaded.1 == start.1,
    ensures
        loaded == start,
        forall|i: int| 0 <= i < states.len() ==> (#[trigger] states[i]).0 == start.0 && 0 <= states[i].1 <= start.0.len(),
{
    lemma_moves_keep(start, ops, states, states.len() as int);
    if states.len() > 0 {
        assert(states.last() == states[states.len() - 1]);
    }
}

/// The cursors of a child over a window of `n` items and of its owner after
/// `k` calls of `consume` on the child: as the child's `consume` states, both
/// move by one while the child has items left.
pub open spec fn child_consumes(n: int, child: int, owner: int, k: nat) -> (int, int)
    decreases k,
{
    if k == 0 {
        (child, owner)
    } else {
        let prev = child_consumes(n, child, owner, (k - 1) as nat);
        if prev.0 < n {
            (prev.0 + 1, prev.1 + 1)
        } else {
            prev
        }
    }
}

/// Consuming `k` items through a fresh child, with that many in its window,
/// moves the child's cursor to `k` and its owner's by `k`: what a child
/// consumes is consumed from its owner.
pub proof fn law_child_consumes_move_owner(n: int, owner: int, k: nat)
    requires
        k <= n,
    ensures
        child_consumes(n, 0, owner, k) == (k as int, owner + k),
    decreases k,
{
    if k > 0 {
        law_child_consumes_move_owner(n, owner, (k - 1) as nat);
    }
}

/// Once a child at depth `d + 1` is done with the stack, with the frames and
/// items as they were when it was made, the frame at depth `d` that made it
/// is well formed again: its cursor is at most that of the child, which stays
/// within the child's window, which lies within the frame's own.
proof fn lemma_owner_ok_after<T>(st: Stream<T>, cur: Stream<T>, d: int, len: int, nth: int)
    requires
        st.chain_ok(d + 1),
        st.cursor_at(d + 1) <= nth,
        st.frames() == cur.frames(),
        st.spec_buffer() == cur.spec_buffer(),
        0 <= d,
        cur.start_at(d + 1) + nth <= cur.start_at(d) + len,
        cur.start_at(d) + len <= cur.spec_buffer().len(),
    ensures
        st.chain_ok(d),
        st.cursor_at(d) <= len,
        st.start_at(d) + len <= st.spec_buffer().len(),
{
    assert(st.start_at(d) + st.cursor_at(d) <= st.start_at(d + 1) + st.cursor_at(d + 1));
}

/// Stepping back one item after consuming one returns the cursor to where it
/// was.
pub proof fn law_consume_then_step_back(len: int, cursor: int)
    requires
        0 <= cursor < len,
    ensures
        cursor_after_decrement(cursor_after_consume(len, cursor), 1) == cursor,
{
}

/// Consuming `n` items at once moves the cursor as far as `n` single
/// consumes do, whenever `n` items are left.
pub proof fn law_consume_bulk_is_repeated_consume(len: int, cursor: int, n: nat)
    requires
        0 <= cursor,
        cursor + n <= len,
    ensures
        cursor_after_bulk(len, cursor, n as int) == cursor_after_consumes(len, cursor, n),
    decreases n,
{
    if n > 0 {
        law_consume_bulk_is_repeated_consume(len, cursor, (n - 1) as nat);
    }
}

/// After a successful `consume`, the last consumed item (the one just before
/// the cursor) is the item that `consume` returned.
pub proof fn law_last_consumed_is_consumed<T>(items: Seq<T>, cursor: int)
    requires
        0 <= cursor < items.len(),
    ensures
        1 <= cursor_after_consume(items.len() as int, cursor) <= items.len(),
        items[cursor_after_consume(items.len() as int, cursor) - 1] == items[cursor],
{
}

/// Consuming at the end of a stream changes nothing: the cursor stays put.
pub proof fn law_consume_at_end_is_noop(len: int, cursor: int)
    requires
        0 <= len <= cursor,
    ensures
        cursor_after_consume(len, cursor) == cursor,
        forall|n: nat| #[trigger] cursor_after_consumes(len, cursor, n) == cursor,
{
    assert forall|n: nat| #[trigger] cursor_after_consumes(len, cursor, n) == cursor by {
        lemma_consumes_at_end(len, cursor, n);
    }
}

proof fn lemma_consumes_at_end(len: int, cursor: int, n: nat)
    requires
        0 <= len <= cursor,
    ensures
        cursor_after_consumes(len, cursor, n) == cursor,
    decreases n,
{
    if n > 0 {
        lemma_consumes_at_end(len, cursor, (n - 1) as nat);
    }
}

/// An operation that moves a stream's cursor.
pub enum CursorOp {
    /// `consume`, or `try_consume_match`.
    Consume,
    /// `consume_bulk` of that many items.
    ConsumeBulk(usize),
    /// `decrement_cursor` by that many items.
    Decrement(usize),
}

/// Where the cursor of a stream of `len` items stands after one operation.
pub open spec fn cursor_after_op(len: int, cursor: int, op: CursorOp) -> int {
    match op {
        CursorOp::Consume => cursor_after_consume(len, cursor),
        CursorOp::ConsumeBulk(n) => cursor_after_bulk(len, cursor, n as int),
        CursorOp::Decrement(n) => cursor_after_decrement(cursor, n as int),
    }
}

/// Where the cursor stands after the operations, in order.
pub open spec fn cursor_after_ops(len: int, cursor: int, ops: Seq<CursorOp>) -> int
    decreases ops.len(),
{
    if ops.len() == 0 {
        cursor
    } else {
        cursor_after_op(len, cursor_after_ops(len, cursor, ops.drop_last()), ops.last())
    }
}

/// Whatever operations follow a checkpoint taken with the cursor among the
/// items, the cursor stays among the items (so every position it passes
/// through can be returned to), and loading the checkpoint, which sets the
/// cursor to the saved position, undoes them all.
pub proof fn law_checkpoint_restores(len: int, saved: int, ops: Seq<CursorOp>)
    requires
        0 <= saved <= len,
    ensures
        0 <= cursor_after_ops(len, saved, ops) <= len,
    decreases ops.len(),
{
    if ops.len() > 0 {
        law_checkpoint_restores(len, saved, ops.drop_last());
    }
}


/// What a child's well-formedness says of the stream it reads: the stack is
/// well formed up to the child, the child's cursor is within its window, and
/// the window is within the items.
pub proof fn law_child_frame<T>(c: &StreamChild<'_, T>)
    requires
        c.wf(),
    ensures
        c.root().chain_ok(c.spec_depth()),
        c.root().cursor_at(c.spec_depth()) <= c.len,
        c.root().frames()[c.spec_depth()] + c.len <= c.root().spec_buffer().len(),
{
}

/// What a child stream consumes is consumed from the stream it was made
/// from: the root stream's cursor is the bottom cursor of the child's stack,
/// which every operation of the child moves with the child's own cursor.
pub proof fn law_child_moves_root<T>(c: &StreamChild<'_, T>)
    requires
        c.wf(),
    ensures
        c.root().spec_cursor() == c.cursor_at_depth(0),
        c.root().spec_valid(),
        forall|k: int| #[trigger] c.root().cursor_at(k) == c.cursor_at_depth(k),
{
    lemma_chain_below(c.root(), c.depth as int);
}


} // verus!
