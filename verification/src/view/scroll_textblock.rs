//! A line of text at a fixed height of the display that scrolls back and
//! forth when it is longer than the display is wide.

use vstd::prelude::*;
use vstd::string::StrSliceExecFns;
use vstd::utf8::{encode_utf8, is_ascii_chars, is_ascii_chars_encode_utf8};

verus! {

/// How many characters the display shows on one line.
pub const MAX_CHARACTERS: i32 = 20;

/// How many scroll steps the window rests at the start of the text before it
/// moves; at the end of the text it rests half as long.
pub const STARTUP_DELAY: usize = 20;

/// The position of the visible window of `MAX_CHARACTERS` characters within a
/// text of `length` characters, and the state of its back-and-forth motion.
#[derive(Debug)]
pub struct CharacterIndex {
    /// Index of the first visible character.
    pub current: i32,
    /// The last start position: `length - MAX_CHARACTERS`; zero or below
    /// when the whole text fits.
    pub end: i32,
    /// Length of the text.
    pub length: usize,
    /// Steps rested so far before moving again.
    pub delay: usize,
    /// `1` while moving towards the end, `-1` while moving back.
    pub direction: i32,
}

/// The index of a text of `length` characters, before any scrolling.
pub open spec fn initial_index(length: usize) -> CharacterIndex {
    CharacterIndex {
        current: 0,
        end: ((length as i32) - MAX_CHARACTERS) as i32,
        length,
        delay: 0,
        direction: 1,
    }
}

/// `CharacterIndex::new` panics on overflow exactly when this fails.
pub open spec fn index_length_ok(length: usize) -> bool {
    (length as i32) - MAX_CHARACTERS >= i32::MIN
}

impl CharacterIndex {
    /// The states that scrolling can reach from a new index.
    pub open spec fn wf(&self) -> bool {
        &&& self.direction == 1 || self.direction == -1
        &&& self.delay <= STARTUP_DELAY
        &&& self.end + MAX_CHARACTERS <= self.length
        &&& self.end + MAX_CHARACTERS <= i32::MAX
        &&& if self.end > 0 {
            &&& 0 <= self.current <= self.end
            &&& self.direction == 1 ==> self.current < self.end
            &&& self.direction == -1 ==> self.current > 0
        } else {
            self.current == 0 && self.direction == 1
        }
    }

    /// One scroll step: the new state, and whether the window moved.
    pub open spec fn scroll_step(self) -> (CharacterIndex, bool) {
        if self.end <= 0 {
            (self, false)
        } else if self.delay < STARTUP_DELAY {
            (CharacterIndex { delay: (self.delay + 1) as usize, ..self }, false)
        } else {
            let moved = self.current + self.direction;
            if moved == self.end {
                (
                    CharacterIndex {
                        current: moved as i32,
                        delay: STARTUP_DELAY / 2,
                        direction: -1i32,
                        ..self
                    },
                    true,
                )
            } else if moved == 0 {
                (CharacterIndex { current: 0, delay: 0, direction: 1, ..self }, true)
            } else {
                (CharacterIndex { current: moved as i32, ..self }, true)
            }
        }
    }

    /// The state after `n` scroll steps.
    pub open spec fn scrolled(self, n: nat) -> CharacterIndex
        decreases n,
    {
        if n == 0 {
            self
        } else {
            self.scroll_step().0.scrolled((n - 1) as nat)
        }
    }

    /// How many of the next `n` scroll steps move the window.
    pub open spec fn moves(self, n: nat) -> nat
        decreases n,
    {
        if n == 0 {
            0
        } else {
            (if self.scroll_step().1 { 1nat } else { 0nat }) + self.scroll_step().0.moves(
                (n - 1) as nat,
            )
        }
    }

    /// The visible range of character positions: from `current`, at most
    /// `MAX_CHARACTERS` characters, not past `length`.
    pub open spec fn window(self) -> (int, int) {
        let end = self.current + MAX_CHARACTERS;
        (self.current as int, if self.length < end { self.length as int } else { end })
    }

    /// The index of a text of `length` characters.
    pub fn new(length: usize) -> (index: Self)
        requires
            index_length_ok(length),
        ensures
            index == initial_index(length),
            index.wf(),
    {
        let index = CharacterIndex {
            current: 0,
            end: (length as i32) - MAX_CHARACTERS,
            length,
            delay: 0,
            direction: 1,
        };
        assert((length as i32) <= length) by (bit_vector);
        index
    }

    /// The visible range `(start, end)` of character positions.
    pub fn range(&self) -> (r: (usize, usize))
        requires
            self.wf(),
        ensures
            r.0 == self.window().0,
            r.1 == self.window().1,
            r.0 <= r.1 <= self.length,
            r.1 - r.0 <= MAX_CHARACTERS,
            self.end > 0 ==> r.1 - r.0 == MAX_CHARACTERS,
    {
        let end_of_window = (self.current + MAX_CHARACTERS) as usize;
        let end = if self.length < end_of_window { self.length } else { end_of_window };
        (self.current as usize, end)
    }

    /// Advances the window by one step; returns whether it moved.
    pub fn scroll(&mut self) -> (moved: bool)
        requires
            old(self).wf(),
        ensures
            (*final(self), moved) == old(self).scroll_step(),
            final(self).wf(),
        no_unwind
    {
        if self.end <= 0 {
            return false;
        }
        if self.delay < STARTUP_DELAY {
            self.delay += 1;
            return false;
        }
        self.current += self.direction;
        if self.current == self.end {
            self.delay = STARTUP_DELAY / 2;
            self.direction = -1;
        }
        if self.current == 0 {
            self.delay = 0;
            self.direction = 1;
        }
        true
    }
}

/// `x`, but at most `n`.
pub open spec fn at_most(x: int, n: int) -> int {
    if x < n {
        x
    } else {
        n
    }
}

/// A request to draw `text` with its top left corner at `(x, y)`.
#[derive(Debug, Clone, PartialEq, Eq)]
pub struct TextDraw {
    pub text: String,
    pub x: i32,
    pub y: i32,
}

/// What a `TextDraw` draws.
pub struct DrawView {
    pub text: Seq<char>,
    pub x: i32,
    pub y: i32,
}

impl View for TextDraw {
    type V = DrawView;

    open spec fn view(&self) -> DrawView {
        DrawView { text: self.text@, x: self.x, y: self.y }
    }
}

/// What a `TextBlock` holds: its text, its height on the display, whether
/// the display shows it out of date, and its scroll position.
pub struct TextBlockView {
    pub text: Seq<char>,
    pub y: i32,
    pub needs_update: bool,
    pub index: CharacterIndex,
}

impl TextBlockView {
    /// The part of the text inside the window: the characters from the
    /// window's start to its end, as far as the text has characters.
    pub open spec fn visible_text(self) -> Seq<char> {
        let n = self.text.len() as int;
        self.text.subrange(
            at_most(self.index.window().0, n),
            at_most(self.index.window().1, n),
        )
    }

    /// What an update draws: the visible text at the left edge, if the
    /// display shows the block out of date.
    pub open spec fn pending_draw(self) -> Option<DrawView> {
        if self.needs_update {
            Some(DrawView { text: self.visible_text(), x: 0, y: self.y })
        } else {
            None
        }
    }

    /// The block after an update: scrolled by one step, and out of date
    /// exactly when the window moved.
    pub open spec fn updated(self) -> TextBlockView {
        TextBlockView {
            needs_update: self.index.scroll_step().1,
            index: self.index.scroll_step().0,
            ..self
        }
    }
}

impl TextBlockView {
    /// The block showing `text` instead, drawn again on the next update with
    /// the window back at the start; the index measures `text` by the length
    /// in bytes of its UTF-8 encoding.
    pub open spec fn with_text(self, text: Seq<char>) -> TextBlockView {
        TextBlockView {
            text,
            needs_update: true,
            index: initial_index(encode_utf8(text).len() as usize),
            ..self
        }
    }
}

/// A new block showing `text` at height `y`; its window runs over the
/// characters of `text`.
pub open spec fn new_block(text: Seq<char>, y: i32) -> TextBlockView {
    TextBlockView { text, y, needs_update: true, index: initial_index(text.len() as usize) }
}

/// A line of text at height `y` that scrolls when it does not fit.
pub struct TextBlock {
    text: String,
    y: i32,
    needs_update: bool,
    index: CharacterIndex,
}

impl View for TextBlock {
    type V = TextBlockView;

    closed spec fn view(&self) -> TextBlockView {
        TextBlockView {
            text: self.text@,
            y: self.y,
            needs_update: self.needs_update,
            index: self.index,
        }
    }
}

impl TextBlock {
    #[verifier::type_invariant]
    spec fn index_reachable(self) -> bool {
        self.index.wf()
    }

    /// A block showing `text` at height `y`, to be drawn on the next update.
    pub fn new(text: &str, y: i32) -> (block: Self)
        requires
            index_length_ok(text@.len() as usize),
        ensures
            block@ == new_block(text@, y),
    {
        let length = text.unicode_len();
        TextBlock {
            text: text.to_owned(),
            y,
            needs_update: true,
            index: CharacterIndex::new(length),
        }
    }

    /// Replaces the text; the block is drawn again on the next update, with
    /// the window back at the start. The index measures `text` by the length
    /// in bytes of its UTF-8 encoding.
    pub fn set_text(&mut self, text: &str)
        requires
            index_length_ok(text.len()),
        ensures
            final(self)@ == old(self)@.with_text(text@),
    {
        self.index = CharacterIndex::new(text.len());
        self.text = text.to_owned();
        self.needs_update = true;
    }

    /// Draws the block if it is out of date, then scrolls it by one step.
    pub fn update(&mut self) -> (draw: Option<TextDraw>)
        ensures
            final(self)@ == old(self)@.updated(),
            draw is Some <==> old(self)@.pending_draw() is Some,
            draw matches Some(d) ==> old(self)@.pending_draw() == Some(d@),
    {
        proof {
            use_type_invariant(&*self);
        }
        let draw = if self.needs_update {
            Some(TextDraw { text: self.get_current_text_slice(), x: 0, y: self.y })
        } else {
            None
        };
        self.needs_update = self.index.scroll();
        draw
    }

    /// The characters of the text inside the window.
    pub fn get_current_text_slice(&self) -> (slice: String)
        ensures
            slice@ == self@.visible_text(),
    {
        proof {
            use_type_invariant(self);
        }
        let (start, end) = self.index.range();
        let n = self.text.as_str().unicode_len();
        let from = if start < n { start } else { n };
        let to = if end < n { end } else { n };
        self.text.as_str().substring_char(from, to).to_owned()
    }
}

/// Every scroll step keeps the index in a state that scrolling can reach.
pub proof fn lemma_scroll_keeps_wf(index: CharacterIndex)
    requires
        index.wf(),
    ensures
        index.scroll_step().0.wf(),
{
}

/// A step that reports a move shifts the window by exactly one character; a
/// step that reports none leaves it where it was. The text length never
/// changes.
pub proof fn lemma_scroll_moves_by_one(index: CharacterIndex)
    requires
        index.wf(),
    ensures
        index.scroll_step().1 ==> (index.scroll_step().0.current == index.current + 1
            || index.scroll_step().0.current == index.current - 1),
        !index.scroll_step().1 ==> index.scroll_step().0.current == index.current,
        index.scroll_step().0.length == index.length,
        index.scroll_step().0.end == index.end,
{
}

/// Scrolling `a + b` steps is scrolling `a` steps and then `b` more.
pub proof fn lemma_scrolled_add(index: CharacterIndex, a: nat, b: nat)
    ensures
        index.scrolled(a + b) == index.scrolled(a).scrolled(b),
        index.moves(a + b) == index.moves(a) + index.scrolled(a).moves(b),
    decreases a,
{
    if a > 0 {
        lemma_scrolled_add(index.scroll_step().0, (a - 1) as nat, b);
        assert((a + b - 1) as nat == ((a - 1) as nat + b) as nat);
    }
}

/// A text that fits on one line never scrolls: every step reports no move
/// and leaves the index as it was created.
pub proof fn lemma_fitting_text_never_scrolls(length: usize, n: nat)
    requires
        length <= MAX_CHARACTERS,
    ensures
        initial_index(length).scrolled(n) == initial_index(length),
        !initial_index(length).scrolled(n).scroll_step().1,
    decreases n,
{
    if n > 0 {
        lemma_fitting_text_never_scrolls(length, (n - 1) as nat);
    }
}

/// While the window rests, each step only counts the rest.
proof fn lemma_resting(index: CharacterIndex, k: nat)
    requires
        index.end > 0,
        index.delay + k <= STARTUP_DELAY,
    ensures
        index.scrolled(k) == (CharacterIndex { delay: (index.delay + k) as usize, ..index }),
        index.moves(k) == 0,
    decreases k,
{
    if k > 0 {
        let next = index.scroll_step().0;
        lemma_resting(next, (k - 1) as nat);
    }
}

/// Once rested, the window moves one character per step towards the end of
/// the text.
proof fn lemma_moving_forward(index: CharacterIndex, k: nat)
    requires
        index.end > 0,
        index.delay == STARTUP_DELAY,
        index.direction == 1,
        0 <= index.current,
        index.current + k < index.end,
    ensures
        index.scrolled(k) == (CharacterIndex { current: (index.current + k) as i32, ..index }),
        index.moves(k) == k,
    decreases k,
{
    if k > 0 {
        let next = index.scroll_step().0;
        lemma_moving_forward(next, (k - 1) as nat);
    }
}

/// Once rested, the window moves one character per step back towards the
/// start of the text.
proof fn lemma_moving_back(index: CharacterIndex, k: nat)
    requires
        index.end > 0,
        index.delay == STARTUP_DELAY,
        index.direction == -1,
        index.current <= index.end,
        index.current - k > 0,
    ensures
        index.scrolled(k) == (CharacterIndex { current: (index.current - k) as i32, ..index }),
        index.moves(k) == k,
    decreases k,
{
    if k > 0 {
        let next = index.scroll_step().0;
        lemma_moving_back(next, (k - 1) as nat);
    }
}

/// A text longer than one line scrolls periodically: the window rests at the
/// start for `STARTUP_DELAY` steps, moves to the end one character per step,
/// rests there for half as long, and moves back, after which the index is as
/// it was created: `2 * end + 30` steps in all, of which `2 * end` move the
/// window.
pub proof fn lemma_scrolling_is_periodic(length: usize)
    requires
        index_length_ok(length),
        initial_index(length).end > 0,
    ensures
        initial_index(length).scrolled((2 * initial_index(length).end + 30) as nat)
            == initial_index(length),
        initial_index(length).moves((2 * initial_index(length).end + 30) as nat) == 2
            * initial_index(length).end,
{
    let s0 = initial_index(length);
    let e = s0.end as nat;
    lemma_resting(s0, 20);
    let s1 = s0.scrolled(20);
    lemma_moving_forward(s1, (e - 1) as nat);
    let s2 = s1.scrolled((e - 1) as nat);
    let s3 = s2.scrolled(1);
    assert(s3 == s2.scroll_step().0.scrolled(0));
    assert(s2.scroll_step().1 && s2.scroll_step().0.moves(0) == 0);
    assert(s2.moves(1) == 1);
    assert(s3 == CharacterIndex { current: s0.end, delay: 10, direction: -1i32, ..s0 });
    lemma_resting(s3, 10);
    let s4 = s3.scrolled(10);
    lemma_moving_back(s4, (e - 1) as nat);
    let s5 = s4.scrolled((e - 1) as nat);
    let s6 = s5.scrolled(1);
    assert(s6 == s5.scroll_step().0.scrolled(0));
    assert(s5.scroll_step().1 && s5.scroll_step().0.moves(0) == 0);
    assert(s5.moves(1) == 1);
    assert(s6 == s0);
    lemma_scrolled_add(s0, 20, (e - 1) as nat);
    lemma_scrolled_add(s0, (20 + (e - 1)) as nat, 1);
    lemma_scrolled_add(s0, (20 + e) as nat, 10);
    lemma_scrolled_add(s0, (30 + e) as nat, (e - 1) as nat);
    lemma_scrolled_add(s0, (30 + e + (e - 1)) as nat, 1);
}

/// A text that fits on one line is drawn whole on the first update and never
/// again: after that first update the block no longer changes.
pub proof fn lemma_fitting_text_drawn_once(text: Seq<char>, y: i32)
    requires
        text.len() <= MAX_CHARACTERS,
    ensures
        new_block(text, y).pending_draw() == Some(DrawView { text, x: 0, y }),
        new_block(text, y).updated().pending_draw() is None,
        new_block(text, y).updated().updated() == new_block(text, y).updated(),
{
    assert(new_block(text, y).visible_text() =~= text);
}

/// For ASCII text, replacing the text of a block gives the block that a new
/// block with that text at the same height would be.
pub proof fn lemma_ascii_set_text_is_new_block(block: TextBlockView, text: Seq<char>)
    requires
        is_ascii_chars(text),
    ensures
        block.with_text(text) == new_block(text, block.y),
{
    is_ascii_chars_encode_utf8(text);
}

/// After an update the block is out of date exactly when its window moved,
/// towards the end of the text or back; its text and height stay.
pub proof fn lemma_redrawn_exactly_when_window_moves(block: TextBlockView)
    requires
        block.index.wf(),
    ensures
        block.updated().needs_update <==> block.updated().index.current != block.index.current,
        block.updated().index.current == block.index.current + 1 || block.updated().index.current
            == block.index.current - 1 || block.updated().index.current == block.index.current,
        block.updated().index.length == block.index.length,
        block.updated().text == block.text,
        block.updated().y == block.y,
{
}

/// The window of a text longer than one line, scrolled from the start, comes
/// to its last `MAX_CHARACTERS` characters after `length` steps: `STARTUP_DELAY`
/// steps of rest and one step per character beyond the first line.
pub proof fn lemma_window_reaches_text_end(length: usize)
    requires
        MAX_CHARACTERS < length <= i32::MAX,
    ensures
        initial_index(length).length == length,
        initial_index(length).end + MAX_CHARACTERS == length,
        initial_index(length).scrolled(length as nat).window() == (
            length - MAX_CHARACTERS,
            length as int,
        ),
{
    let s0 = initial_index(length);
    let e = s0.end as nat;
    lemma_resting(s0, 20);
    let s1 = s0.scrolled(20);
    lemma_moving_forward(s1, (e - 1) as nat);
    let s2 = s1.scrolled((e - 1) as nat);
    let s3 = s2.scrolled(1);
    assert(s3 == s2.scroll_step().0.scrolled(0));
    lemma_scrolled_add(s0, 20, (e - 1) as nat);
    lemma_scrolled_add(s0, (20 + (e - 1)) as nat, 1);
    assert((20 + (e - 1)) as nat + 1 == length as nat);
}

/// A new block holds its text, is to be drawn, and measures the text by its
/// characters, with the window at the start and a full rest ahead; a text
/// longer than a line scrolls until its last character is shown.
pub proof fn lemma_new_block_measures_characters(text: Seq<char>, y: i32)
    requires
        text.len() <= i32::MAX,
    ensures
        new_block(text, y).text == text,
        new_block(text, y).y == y,
        new_block(text, y).needs_update,
        new_block(text, y).index.length == text.len(),
        new_block(text, y).index.end + MAX_CHARACTERS == text.len(),
        new_block(text, y).index.current == 0,
        new_block(text, y).index.delay == 0,
        new_block(text, y).index.direction == 1,
        text.len() > MAX_CHARACTERS ==> new_block(text, y).index.scrolled(text.len()).window() == (
            text.len() - MAX_CHARACTERS,
            text.len() as int,
        ),
{
    if text.len() > MAX_CHARACTERS {
        lemma_window_reaches_text_end(text.len() as usize);
    }
}

/// Replacing a block's text keeps its height, marks it to be drawn, and
/// measures the new text by the bytes of its UTF-8 encoding, with the window
/// at the start and a full rest ahead.
pub proof fn lemma_with_text_measures_bytes(block: TextBlockView, text: Seq<char>)
    requires
        encode_utf8(text).len() <= i32::MAX,
    ensures
        block.with_text(text).text == text,
        block.with_text(text).y == block.y,
        block.with_text(text).needs_update,
        block.with_text(text).index.length == encode_utf8(text).len(),
        block.with_text(text).index.end + MAX_CHARACTERS == encode_utf8(text).len(),
        block.with_text(text).index.current == 0,
        block.with_text(text).index.delay == 0,
        block.with_text(text).index.direction == 1,
        encode_utf8(text).len() > MAX_CHARACTERS ==> block.with_text(text).index.scrolled(
            encode_utf8(text).len(),
        ).window() == (encode_utf8(text).len() - MAX_CHARACTERS, encode_utf8(text).len() as int),
{
    if encode_utf8(text).len() > MAX_CHARACTERS {
        lemma_window_reaches_text_end(encode_utf8(text).len() as usize);
    }
}

/// A UTF-8 encoding has at least one byte per character.
pub proof fn lemma_utf8_at_least_one_byte_per_char(text: Seq<char>)
    ensures
        encode_utf8(text).len() >= text.len(),
    decreases text.len(),
{
    if text.len() > 0 {
        lemma_utf8_at_least_one_byte_per_char(text.drop_first());
    }
}

} // verus!
