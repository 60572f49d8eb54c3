//! The editable input buffer: an ordered sequence of tokens and a cursor.
//!
//! The cursor's position is after the element it refers to. Its position is
//! kept both as an element count and as a count of display characters, so
//! the interactive loop can place the terminal cursor.

use vstd::prelude::*;

use crate::erasable::Erasable;
use crate::errors::{MutationOperationError, ParsingError, SpecParsingError};

verus! {

/// The canonical display string of a token sequence: the concatenation of
/// each token's display string.
pub open spec fn display_of(s: Seq<Erasable>) -> Seq<char>
    decreases s.len(),
{
    if s.len() == 0 {
        Seq::empty()
    } else {
        s[0].spec_display() + display_of(s.subrange(1, s.len() as int))
    }
}

/// Tokenizing a character sequence: the empty input is rejected, every
/// character must encode a token, and the first failure aborts.
pub open spec fn spec_tokenize(cs: Seq<char>) -> Result<Seq<Erasable>, SpecParsingError> {
    if cs.len() == 0 {
        Err(SpecParsingError::CannotParseEmptyString)
    } else {
        spec_tokenize_all(cs)
    }
}

/// Tokenizes every character of a (possibly empty) sequence.
pub open spec fn spec_tokenize_all(cs: Seq<char>) -> Result<Seq<Erasable>, SpecParsingError>
    decreases cs.len(),
{
    if cs.len() == 0 {
        Ok(Seq::empty())
    } else {
        match Erasable::spec_build(cs[0]) {
            Some(e) => match spec_tokenize_all(cs.subrange(1, cs.len() as int)) {
                Ok(rest) => Ok(seq![e] + rest),
                Err(pe) => Err(pe),
            },
            None => Err(SpecParsingError::NoSuchCharacterCode),
        }
    }
}

/// Where the cursor stands: nowhere (the buffer has never held anything),
/// before the first element, or after the element at a given index.
#[derive(Clone, Copy, Debug, PartialEq, Eq, Structural)]
pub enum CursorPosition {
    Empty,
    NotEmpty { position_in_chars: usize, position_in_erasable_count: usize },
    /// Before any element.
    Start,
}

/// The cursor of the editable buffer.
#[derive(Clone, Copy, Debug, PartialEq, Eq, Structural)]
pub struct Cursor {
    pub position: CursorPosition,
}

/// The unit in which a cursor position is reported.
#[derive(Clone, Copy, Debug, PartialEq, Eq, Structural)]
pub enum CursorPositionUnit {
    Chars,
    ErasableCount,
}

/// The editable buffer: tokens plus a cursor.
#[derive(Debug)]
pub struct ErasableCluster {
    erasables: Vec<Erasable>,
    cursor: Cursor,
}

impl View for ErasableCluster {
    type V = Seq<Erasable>;

    closed spec fn view(&self) -> Seq<Erasable> {
        self.erasables@
    }
}

impl ErasableCluster {
    /// The cursor's position, as a mathematical value.
    pub closed spec fn spec_cursor(self) -> CursorPosition {
        self.cursor.position
    }

    /// The buffer is well formed: a positioned cursor stands on a real
    /// element, and its character position is the display length of
    /// everything up to and including that element, less one.
    pub open spec fn wf(self) -> bool {
        match self.spec_cursor() {
            CursorPosition::Empty => self@.len() == 0,
            CursorPosition::Start => true,
            CursorPosition::NotEmpty { position_in_chars, position_in_erasable_count } => {
                &&& (position_in_erasable_count as int) < self@.len()
                &&& position_in_chars + 1 == display_of(
                    self@.subrange(0, position_in_erasable_count + 1),
                ).len()
            },
        }
    }

    /// A fresh, empty buffer; the cursor points nowhere.
    pub fn new() -> (c: ErasableCluster)
        ensures
            c@ == Seq::<Erasable>::empty(),
            c.spec_cursor() == CursorPosition::Empty,
            c.wf(),
    {
        ErasableCluster {
            erasables: Vec::new(),
            cursor: Cursor { position: CursorPosition::Empty },
        }
    }

    /// Builds a buffer from a string, one token per character; the cursor
    /// is placed after the last element. The empty string is rejected, as
    /// is any character outside the token alphabet.
    pub fn build(s: &str) -> (r: Result<ErasableCluster, ParsingError>)
        requires
            s@.len() * 7 + 7 < usize::MAX,
        ensures
            match spec_tokenize(s@) {
                Ok(ts) => r matches Ok(c) && c@ == ts && c.wf() && (c.spec_cursor() matches
                    CursorPosition::NotEmpty {
                    position_in_chars,
                    position_in_erasable_count,
                } && position_in_erasable_count as int == ts.len() - 1 && position_in_chars + 1
                    == display_of(ts).len()),
                Err(pe) => r matches Err(e) && e@ == pe,
            },
    {
        let n = s.unicode_len();
        if n == 0 {
            return Err(ParsingError::CannotParseEmptyString);
        }
        let mut erasables: Vec<Erasable> = Vec::new();
        let mut position_in_chars: usize = 0;
        let mut i: usize = 0;
        proof {
            assert(s@.subrange(0, 0) =~= Seq::<char>::empty());
            assert(erasables@.subrange(0, 0) =~= Seq::<Erasable>::empty());
        }
        while i < n
            invariant
                0 <= i <= n == s@.len(),
                s@.len() * 7 + 7 < usize::MAX,
                spec_tokenize_all(s@.subrange(0, i as int)) == Ok::<_, SpecParsingError>(
                    erasables@,
                ),
                erasables@.len() == i,
                position_in_chars == display_of(erasables@).len(),
                position_in_chars <= 7 * i,
            decreases n - i,
        {
            let c = s.get_char(i);
            match Erasable::build(c) {
                Ok(e) => {
                    let ghost old_seq = erasables@;
                    let len = e.length_in_chars();
                    erasables.push(e);
                    position_in_chars = position_in_chars + len;
                    proof {
                        lemma_tokenize_all_push(s@.subrange(0, i as int), old_seq, c, e);
                        assert(s@.subrange(0, i + 1) =~= s@.subrange(0, i as int).push(c));
                        lemma_display_of_push(old_seq, e);
                        assert(e.spec_display().len() <= 7);
                    }
                    i = i + 1;
                },
                Err(err) => {
                    proof {
                        lemma_tokenize_all_prefix_error(s@, i as int);
                    }
                    return Err(err);
                },
            }
        }
        proof {
            assert(s@.subrange(0, n as int) =~= s@);
            lemma_display_of_last(erasables@);
        }
        let count = erasables.len() - 1;
        let cursor = Cursor {
            position: CursorPosition::NotEmpty {
                position_in_chars: position_in_chars - 1,
                position_in_erasable_count: count,
            },
        };
        proof {
            assert(erasables@.subrange(0, erasables@.len() as int) =~= erasables@);
        }
        Ok(ErasableCluster { erasables, cursor })
    }

    /// The cursor's position in the requested unit; `None` when the cursor
    /// is nowhere or before the first element.
    pub fn get_cursor_position(&self, unit: CursorPositionUnit) -> (r: Option<usize>)
        ensures
            match self.spec_cursor() {
                CursorPosition::NotEmpty { position_in_chars, position_in_erasable_count } => r
                    == Some(
                    if unit is Chars {
                        position_in_chars
                    } else {
                        position_in_erasable_count
                    },
                ),
                _ => r is None,
            },
    {
        match &self.cursor.position {
            CursorPosition::Empty | CursorPosition::Start => None,
            CursorPosition::NotEmpty { position_in_chars, position_in_erasable_count } => match unit {
                CursorPositionUnit::Chars => Some(*position_in_chars),
                CursorPositionUnit::ErasableCount => Some(*position_in_erasable_count),
            },
        }
    }

    /// Whether the cursor stands after the last element.
    pub fn is_cursor_at_end(&self) -> (r: bool)
        ensures
            r == (self.spec_cursor() matches CursorPosition::NotEmpty {
                position_in_erasable_count,
                ..
            } && self@.len() > 0 && position_in_erasable_count as int == self@.len() - 1),
    {
        if let CursorPosition::NotEmpty { position_in_erasable_count, .. } = &self.cursor.position {
            if self.erasables.len() == 0 {
                false
            } else {
                *position_in_erasable_count == self.erasables.len() - 1
            }
        } else {
            false
        }
    }

    /// Moves the cursor to the next element and returns it; `None` when
    /// there is no next element.
    pub fn move_cursor_to_next_erasable(&mut self) -> (r: Option<Erasable>)
        requires
            old(self).wf(),
            display_of(old(self)@).len() + 7 < usize::MAX,
        ensures
            final(self).wf(),
            final(self)@ == old(self)@,
            match old(self).spec_cursor() {
                CursorPosition::Empty => r is None && final(self).spec_cursor() == old(
                    self,
                ).spec_cursor(),
                CursorPosition::Start => {
                    if old(self)@.len() == 0 {
                        r is None && final(self).spec_cursor() == old(self).spec_cursor()
                    } else {
                        r == Some(old(self)@[0]) && (final(self).spec_cursor() matches
                            CursorPosition::NotEmpty { position_in_erasable_count, .. }
                            && position_in_erasable_count == 0)
                    }
                },
                CursorPosition::NotEmpty { position_in_erasable_count, .. } => {
                    if position_in_erasable_count + 1 < old(self)@.len() {
                        r == Some(old(self)@[position_in_erasable_count + 1])
                            && (final(self).spec_cursor() matches CursorPosition::NotEmpty {
                            position_in_erasable_count: count2,
                            ..
                        } && count2 == position_in_erasable_count + 1)
                    } else {
                        r is None && final(self).spec_cursor() == old(self).spec_cursor()
                    }
                },
            },
    {
        if self.is_cursor_at_end() {
            return None;
        }
        match &self.cursor.position {
            CursorPosition::Empty => None,
            CursorPosition::NotEmpty { position_in_chars, position_in_erasable_count } => {
                let chars = *position_in_chars;
                let count = *position_in_erasable_count;
                let n = self.erasables.len();
                proof {
                    assert((count as int) < self@.len());
                }
                // not at the end, so an element exists at `count + 1`
                let e = self.erasables[count + 1];
                let len = e.length_in_chars();
                proof {
                    lemma_display_of_take_next(self@, count as int);
                    lemma_display_of_prefix(self@, count + 2);
                }
                self.cursor = Cursor {
                    position: CursorPosition::NotEmpty {
                        position_in_chars: chars + len,
                        position_in_erasable_count: count + 1,
                    },
                };
                Some(e)
            },
            CursorPosition::Start => {
                if self.erasables.len() == 0 {
                    return None;
                }
                let e = self.erasables[0];
                let len = e.length_in_chars();
                proof {
                    lemma_display_of_first(self@);
                }
                self.cursor = Cursor {
                    position: CursorPosition::NotEmpty {
                        position_in_chars: len - 1,
                        position_in_erasable_count: 0,
                    },
                };
                Some(e)
            },
        }
    }

    /// Moves the cursor to the previous element and returns the element it
    /// moved away from; `None` when the cursor is nowhere or already before
    /// the first element.
    pub fn move_cursor_to_prev_erasable(&mut self) -> (r: Option<Erasable>)
        requires
            old(self).wf(),
        ensures
            final(self).wf(),
            final(self)@ == old(self)@,
            match old(self).spec_cursor() {
                CursorPosition::NotEmpty { position_in_erasable_count, .. } => {
                    r == Some(old(self)@[position_in_erasable_count as int]) && (if
                        position_in_erasable_count == 0 {
                        final(self).spec_cursor() == CursorPosition::Start
                    } else {
                        final(self).spec_cursor() matches CursorPosition::NotEmpty {
                            position_in_erasable_count: count2,
                            ..
                        } && count2 + 1 == position_in_erasable_count
                    })
                },
                _ => r is None && final(self).spec_cursor() == old(self).spec_cursor(),
            },
    {
        match &self.cursor.position {
            CursorPosition::Empty | CursorPosition::Start => None,
            CursorPosition::NotEmpty { position_in_chars, position_in_erasable_count } => {
                let chars = *position_in_chars;
                let count = *position_in_erasable_count;
                let e = self.erasables[count];
                let len = e.length_in_chars();
                proof {
                    lemma_display_of_take_next(self@, count as int - 1);
                }
                if count == 0 {
                    self.cursor = Cursor { position: CursorPosition::Start };
                } else {
                    self.cursor = Cursor {
                        position: CursorPosition::NotEmpty {
                            position_in_chars: chars - len,
                            position_in_erasable_count: count - 1,
                        },
                    };
                }
                Some(e)
            },
        }
    }

    /// Decodes `c` and inserts it after the element the cursor points to
    /// (or first, when the cursor is nowhere or at the start); the cursor
    /// moves onto the inserted element.
    pub fn add_at_cursor_position(&mut self, c: char) -> (r: Result<Erasable, ParsingError>)
        requires
            old(self).wf(),
            display_of(old(self)@).len() + 7 < usize::MAX,
            old(self)@.len() + 1 < usize::MAX,
        ensures
            final(self).wf(),
            match Erasable::spec_build(c) {
                Some(e) => {
                    &&& r matches Ok(v) && v == e
                    &&& final(self)@ == old(self)@.insert(
                        match old(self).spec_cursor() {
                            CursorPosition::NotEmpty { position_in_erasable_count, .. } => (
                            position_in_erasable_count + 1) as int,
                            _ => 0,
                        },
                        e,
                    )
                    &&& final(self).spec_cursor() matches CursorPosition::NotEmpty {
                        position_in_erasable_count,
                        ..
                    } && position_in_erasable_count as int == (match old(self).spec_cursor() {
                        CursorPosition::NotEmpty { position_in_erasable_count: c0, .. } => c0 + 1,
                        _ => 0,
                    })
                },
                None => r matches Err(e) && e@ == SpecParsingError::NoSuchCharacterCode
                    && *final(self) == *old(self),
            },
    {
        let e = match Erasable::build(c) {
            Ok(e) => e,
            Err(err) => {
                return Err(err);
            },
        };
        let len = e.length_in_chars();
        match &self.cursor.position {
            CursorPosition::Empty | CursorPosition::Start => {
                self.cursor = Cursor {
                    position: CursorPosition::NotEmpty {
                        position_in_chars: len - 1,
                        position_in_erasable_count: 0,
                    },
                };
                self.erasables.insert(0, e);
                proof {
                    lemma_display_of_first(self@);
                }
                Ok(e)
            },
            CursorPosition::NotEmpty { position_in_chars, position_in_erasable_count } => {
                let chars = *position_in_chars;
                let count = *position_in_erasable_count;
                proof {
                    lemma_display_of_bounded(self@.subrange(0, count + 1));
                    assert(display_of(self@.subrange(0, count + 1)).len() <= display_of(self@).len())
                        by {
                        lemma_display_of_prefix(self@, count + 1);
                    }
                }
                self.cursor = Cursor {
                    position: CursorPosition::NotEmpty {
                        position_in_chars: chars + len,
                        position_in_erasable_count: count + 1,
                    },
                };
                let ghost old_seq = self.erasables@;
                self.erasables.insert(count + 1, e);
                proof {
                    assert(self.erasables@.subrange(0, count + 2) =~= old_seq.subrange(
                        0,
                        count + 1,
                    ).push(e));
                    lemma_display_of_push(old_seq.subrange(0, count + 1), e);
                }
                Ok(e)
            },
        }
    }

    /// Removes the element the cursor points to and returns it; the cursor
    /// moves to the previous element. Fails when the buffer holds nothing
    /// at the cursor.
    pub fn remove_at_cursor_position(&mut self) -> (r: Result<Erasable, MutationOperationError>)
        requires
            old(self).wf(),
        ensures
            final(self).wf(),
            match old(self).spec_cursor() {
                CursorPosition::NotEmpty { position_in_erasable_count, .. } => {
                    &&& r matches Ok(e) && e == old(self)@[position_in_erasable_count as int]
                    &&& final(self)@ == old(self)@.remove(position_in_erasable_count as int)
                    &&& (if position_in_erasable_count == 0 {
                        final(self).spec_cursor() == CursorPosition::Start
                    } else {
                        final(self).spec_cursor() matches CursorPosition::NotEmpty {
                            position_in_erasable_count: count2,
                            ..
                        } && count2 + 1 == position_in_erasable_count
                    })
                },
                _ => r matches Err(e) && e == MutationOperationError::RemovalError && *final(self)
                    == *old(self),
            },
    {
        match &self.cursor.position {
            CursorPosition::Empty | CursorPosition::Start => Err(
                MutationOperationError::RemovalError,
            ),
            CursorPosition::NotEmpty { position_in_chars, position_in_erasable_count } => {
                let chars = *position_in_chars;
                let count = *position_in_erasable_count;
                proof {
                    lemma_display_of_take_next(self@, count as int - 1);
                }
                let ghost old_seq = self.erasables@;
                let e = self.erasables.remove(count);
                if count == 0 {
                    self.cursor = Cursor { position: CursorPosition::Start };
                } else {
                    let len = e.length_in_chars();
                    self.cursor = Cursor {
                        position: CursorPosition::NotEmpty {
                            position_in_chars: chars - len,
                            position_in_erasable_count: count - 1,
                        },
                    };
                    proof {
                        assert(self.erasables@.subrange(0, count as int) =~= old_seq.subrange(
                            0,
                            count as int,
                        ));
                    }
                }
                Ok(e)
            },
        }
    }

    /// The tokens of the buffer, in order.
    pub fn iter(&self) -> (r: &Vec<Erasable>)
        ensures
            r@ == self@,
    {
        &self.erasables
    }

    /// Whether the buffer holds no tokens.
    pub fn is_empty(&self) -> (r: bool)
        ensures
            r == (self@.len() == 0),
    {
        self.erasables.len() == 0
    }

    /// The canonical display string of the buffer.
    pub fn to_string(&self) -> (r: String)
        ensures
            r@ == display_of(self@),
    {
        let mut result = String::new();
        let mut i: usize = 0;
        proof {
            assert(self@.subrange(0, 0) =~= Seq::<Erasable>::empty());
        }
        while i < self.erasables.len()
            invariant
                0 <= i <= self@.len(),
                result@ == display_of(self@.subrange(0, i as int)),
            decreases self@.len() - i,
        {
            let ghost prefix = self@.subrange(0, i as int);
            result.append(self.erasables[i].display_str());
            proof {
                assert(self@.subrange(0, i + 1) =~= prefix.push(self@[i as int]));
                lemma_display_of_push(prefix, self@[i as int]);
            }
            i = i + 1;
        }
        proof {
            assert(self@.subrange(0, self@.len() as int) =~= self@);
        }
        result
    }
}

/// Display length of any single token is at most seven characters.
proof fn lemma_display_len_bound(e: Erasable)
    ensures
        1 <= e.spec_display().len() <= 7,
{
}

/// The display of a sequence is never longer than seven characters per
/// token.
proof fn lemma_display_of_bounded(s: Seq<Erasable>)
    ensures
        display_of(s).len() <= 7 * s.len(),
        s.len() <= display_of(s).len(),
    decreases s.len(),
{
    if s.len() > 0 {
        lemma_display_len_bound(s[0]);
        lemma_display_of_bounded(s.subrange(1, s.len() as int));
    }
}

/// Appending a token appends its display string.
proof fn lemma_display_of_push(s: Seq<Erasable>, e: Erasable)
    ensures
        display_of(s.push(e)) == display_of(s) + e.spec_display(),
    decreases s.len(),
{
    reveal_with_fuel(display_of, 2);
    if s.len() == 0 {
        assert(s.push(e).subrange(1, 1) =~= Seq::<Erasable>::empty());
        assert(display_of(s.push(e)) =~= display_of(s) + e.spec_display());
    } else {
        let rest = s.subrange(1, s.len() as int);
        assert(s.push(e).subrange(1, s.len() as int + 1) =~= rest.push(e));
        lemma_display_of_push(rest, e);
        assert(display_of(s.push(e)) =~= display_of(s) + e.spec_display());
    }
}

/// The display of a one-longer prefix grows by exactly the next token's
/// display string.
proof fn lemma_display_of_take_next(s: Seq<Erasable>, k: int)
    requires
        -1 <= k < s.len(),
    ensures
        -1 <= k < s.len() - 1 ==> display_of(s.subrange(0, k + 2)).len() == display_of(
            s.subrange(0, k + 1),
        ).len() + s[k + 1].spec_display().len(),
{
    if -1 <= k < s.len() - 1 {
        assert(s.subrange(0, k + 2) =~= s.subrange(0, k + 1).push(s[k + 1]));
        lemma_display_of_push(s.subrange(0, k + 1), s[k + 1]);
    }
}

/// The one-element prefix displays as the first token alone.
proof fn lemma_display_of_first(s: Seq<Erasable>)
    requires
        s.len() > 0,
    ensures
        display_of(s.subrange(0, 1)).len() == s[0].spec_display().len(),
{
    reveal_with_fuel(display_of, 2);
    assert(s.subrange(0, 1).subrange(1, 1) =~= Seq::<Erasable>::empty());
    assert(s.subrange(0, 1)[0] == s[0]);
}

/// The whole sequence is its own full prefix.
proof fn lemma_display_of_last(s: Seq<Erasable>)
    requires
        s.len() > 0,
    ensures
        display_of(s.subrange(0, s.len() as int)) == display_of(s),
{
    assert(s.subrange(0, s.len() as int) =~= s);
}

/// A prefix displays no more characters than the whole.
proof fn lemma_display_of_prefix(s: Seq<Erasable>, k: int)
    requires
        0 <= k <= s.len(),
    ensures
        display_of(s.subrange(0, k)).len() <= display_of(s).len(),
    decreases s.len() - k,
{
    if k == s.len() {
        assert(s.subrange(0, k) =~= s);
    } else {
        assert(s.subrange(0, k + 1) =~= s.subrange(0, k).push(s[k]));
        lemma_display_of_push(s.subrange(0, k), s[k]);
        lemma_display_of_prefix(s, k + 1);
    }
}

/// Tokenizing one more character appends the token it encodes.
proof fn lemma_tokenize_all_push(cs: Seq<char>, ts: Seq<Erasable>, c: char, e: Erasable)
    requires
        spec_tokenize_all(cs) == Ok::<_, SpecParsingError>(ts),
        Erasable::spec_build(c) == Some(e),
    ensures
        spec_tokenize_all(cs.push(c)) == Ok::<_, SpecParsingError>(ts.push(e)),
    decreases cs.len(),
{
    reveal_with_fuel(spec_tokenize_all, 2);
    if cs.len() == 0 {
        assert(cs.push(c).subrange(1, 1) =~= Seq::<char>::empty());
        assert(spec_tokenize_all(cs.push(c)) == Ok::<_, SpecParsingError>(seq![e] + Seq::empty()));
        assert(seq![e] + Seq::<Erasable>::empty() =~= ts.push(e));
    } else {
        let rest = cs.subrange(1, cs.len() as int);
        let first = Erasable::spec_build(cs[0])->0;
        assert(spec_tokenize_all(rest) matches Ok(ts2) && ts == seq![first] + ts2);
        let ts2 = spec_tokenize_all(rest)->Ok_0;
        assert(cs.push(c).subrange(1, cs.len() as int + 1) =~= rest.push(c));
        lemma_tokenize_all_push(rest, ts2, c, e);
        assert(seq![first] + ts2.push(e) =~= (seq![first] + ts2).push(e));
    }
}

/// If a prefix tokenizes but the next character does not decode, the whole
/// input fails with `NoSuchCharacterCode`.
proof fn lemma_tokenize_all_prefix_error(cs: Seq<char>, i: int)
    requires
        0 <= i < cs.len(),
        spec_tokenize_all(cs.subrange(0, i)) is Ok,
        Erasable::spec_build(cs[i]) is None,
    ensures
        spec_tokenize_all(cs) == Err::<Seq<Erasable>, _>(SpecParsingError::NoSuchCharacterCode),
    decreases i,
{
    if i == 0 {
        assert(cs[0] == cs.subrange(0, cs.len() as int)[0]);
    } else {
        let rest = cs.subrange(1, cs.len() as int);
        assert(cs.subrange(0, i).subrange(1, i) =~= rest.subrange(0, i - 1));
        assert(spec_tokenize_all(cs.subrange(0, i)) is Ok);
        assert(Erasable::spec_build(cs.subrange(0, i)[0]) is Some);
        assert(spec_tokenize_all(rest.subrange(0, i - 1)) is Ok);
        assert(rest[i - 1] == cs[i]);
        lemma_tokenize_all_prefix_error(rest, i - 1);
    }
}

/// LAW — display/tokenize round trip: for a non-empty sequence of tokens
/// that all display exactly as their source character, re-tokenizing the
/// canonical display string gives the same token sequence back. The empty
/// sequence is excluded: its display string is empty, and tokenizing the
/// empty input is the empty-input error by design.
pub proof fn lemma_display_tokenize_round_trip(ts: Seq<Erasable>)
    requires
        ts.len() > 0,
        forall|i: int| 0 <= i < ts.len() ==> (#[trigger] ts[i]).has_stable_encoding(),
    ensures
        spec_tokenize(display_of(ts)) == Ok::<_, SpecParsingError>(ts),
{
    lemma_display_of_bounded(ts);
    lemma_tokenize_all_of_display(ts);
}

/// Tokenizing the display of stably encoded tokens yields them back.
proof fn lemma_tokenize_all_of_display(ts: Seq<Erasable>)
    requires
        forall|i: int| 0 <= i < ts.len() ==> (#[trigger] ts[i]).has_stable_encoding(),
    ensures
        spec_tokenize_all(display_of(ts)) == Ok::<_, SpecParsingError>(ts),
    decreases ts.len(),
{
    if ts.len() == 0 {
        assert(display_of(ts).len() == 0);
        assert(Seq::<Erasable>::empty() =~= ts);
    } else {
        let rest = ts.subrange(1, ts.len() as int);
        lemma_tokenize_all_of_display(rest);
        crate::erasable::lemma_build_inverts_char(ts[0]);
        let cs = display_of(ts);
        assert(ts[0].spec_display() == seq![ts[0].spec_char()]);
        assert(cs == seq![ts[0].spec_char()] + display_of(rest));
        assert(cs[0] == ts[0].spec_char());
        assert(Erasable::spec_build(cs[0]) == Some(ts[0]));
        assert(cs.subrange(1, cs.len() as int) =~= display_of(rest));
        assert(spec_tokenize_all(cs.subrange(1, cs.len() as int)) == Ok::<
            _,
            SpecParsingError,
        >(rest));
        assert(spec_tokenize_all(cs) == Ok::<_, SpecParsingError>(seq![ts[0]] + rest));
        assert(seq![ts[0]] + rest =~= ts);
        assert(spec_tokenize_all(cs) == Ok::<_, SpecParsingError>(ts));
    }
}

} // verus!
