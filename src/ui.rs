use vstd::prelude::*;
use vstd::string::StringExecFns;
use vstd::utf8::encode_utf8;

verus! {

/// Control sequence introducer that starts every escape code below.
pub const CSI: &'static str = "\x1B[";

/// Cursor and screen control codes, each written after `CSI`.
pub const CURSOR_INVISIBLE: &'static str = "?25l";
pub const CURSOR_VISIBLE: &'static str = "?25h";
pub const CURSOR_SAVE_POSITION: &'static str = "s";
pub const CURSOR_RESTORE_POSITION: &'static str = "u";
pub const CURSOR_HOME: &'static str = "H";
pub const CURSOR_UP: &'static str = "1A";
pub const LINE_CLEAR: &'static str = "2K";
pub const SCREEN_CLEAR: &'static str = "2J";

/// Style of the selected line, and the code that ends it.
pub const HIGHLIGHT: &'static str = "\x1B[36m";
pub const RESET: &'static str = "\x1B[0m";

/// Scroll indicators shown on the top and bottom visible lines.
pub const UP_ARROW: &'static str = "\x1B[38;2;226;44;44m\u{25B2}\x1B[0m";
pub const DOWN_ARROW: &'static str = "\x1B[38;2;226;44;44m\u{25BC}\x1B[0m";

/// Logical event decoded from one chunk of raw terminal input.
#[derive(Clone, Copy, Debug, PartialEq, Eq, Structural)]
pub enum Event {
    MoveUp,
    MoveDown,
    Confirm,
    Ignore,
}

/// Maps up to three raw input bytes to a logical event.
pub open spec fn decode_spec(b0: u8, b2: u8) -> Event {
    if b0 == 10 {
        Event::Confirm
    } else if b0 == 27 {
        if b2 == 65 {
            Event::MoveUp
        } else if b2 == 66 {
            Event::MoveDown
        } else {
            Event::Ignore
        }
    } else if b0 == 106 {
        Event::MoveDown
    } else if b0 == 107 {
        Event::MoveUp
    } else {
        Event::Ignore
    }
}

/// Decodes one chunk read from the terminal: Enter confirms, the arrow keys'
/// escape sequences and `j` / `k` move, anything else is ignored.
pub fn decode(bytes: [u8; 3]) -> (e: Event)
    ensures
        e == decode_spec(bytes@[0], bytes@[2]),
{
    match bytes[0] {
        10 => Event::Confirm,
        27 => match bytes[2] {
            65 => Event::MoveUp,
            66 => Event::MoveDown,
            _ => Event::Ignore,
        },
        106 => Event::MoveDown,
        107 => Event::MoveUp,
        _ => Event::Ignore,
    }
}

/// What the session does after one read.
#[derive(Clone, Debug, PartialEq, Eq)]
pub enum Action {
    /// Hand this item to the confirmation callback.
    Confirm(String),
    /// Write this repaint of the window.
    Repaint(String),
}

/// The event of one read: a failed read is ignored.
pub open spec fn chunk_event(chunk: Option<[u8; 3]>) -> Event {
    match chunk {
        Some(b) => decode_spec(b@[0], b@[2]),
        None => Event::Ignore,
    }
}

/// Visible half-open range `[start, end)` of item indices.
#[derive(Clone, Copy, Debug, PartialEq, Eq, Structural)]
pub struct Frame {
    pub start: usize,
    pub end: usize,
}

/// Construction or runtime failure of the list selector.
#[derive(Clone, Copy, Debug, PartialEq, Eq, Structural)]
pub enum Error {
    InvalidHeight,
    EmptyItems,
    SelectedOutsideRange,
    CmdError,
}

/// Text that explains each failure to the user.
pub const INVALID_HEIGHT_MESSAGE: &'static str = "Height can't be less than 1, greater than length of items, nor greater than the window height.";
pub const EMPTY_ITEMS_MESSAGE: &'static str = "Items can't be empty.";
pub const SELECTED_OUTSIDE_RANGE_MESSAGE: &'static str = "Selected index is outside the index range of items.";
pub const CMD_ERROR_MESSAGE: &'static str = "There was an error executing command on selection.";

impl Error {
    /// The failure described for the user.
    pub fn message(&self) -> (r: String)
        ensures
            r@ == match *self {
                Error::InvalidHeight => INVALID_HEIGHT_MESSAGE@,
                Error::EmptyItems => EMPTY_ITEMS_MESSAGE@,
                Error::SelectedOutsideRange => SELECTED_OUTSIDE_RANGE_MESSAGE@,
                Error::CmdError => CMD_ERROR_MESSAGE@,
            },
    {
        match self {
            Error::InvalidHeight => String::from_str(INVALID_HEIGHT_MESSAGE),
            Error::EmptyItems => String::from_str(EMPTY_ITEMS_MESSAGE),
            Error::SelectedOutsideRange => String::from_str(SELECTED_OUTSIDE_RANGE_MESSAGE),
            Error::CmdError => String::from_str(CMD_ERROR_MESSAGE),
        }
    }
}

/// A fixed-height scrollable window onto a list of text items.
pub struct ScrollableList {
    pub height: usize,
    pub selected: usize,
    pub arrow_offset: usize,
    pub items: Vec<String>,
    pub frame: Frame,
}

/// Length of `s` in bytes, as `str::len` reports it.
pub open spec fn byte_len(s: Seq<char>) -> usize {
    encode_utf8(s).len() as usize
}

/// Largest byte length among the first `n` items.
pub open spec fn max_byte_len(items: Seq<String>, n: nat) -> nat
    decreases n,
{
    if n == 0 {
        0
    } else {
        let rest = max_byte_len(items, (n - 1) as nat);
        let here = byte_len(items[n - 1]@) as nat;
        if here > rest {
            here
        } else {
            rest
        }
    }
}

/// Width used to align the scroll indicators: the longest item's byte length.
pub open spec fn arrow_offset_of(items: Seq<String>) -> nat {
    max_byte_len(items, items.len())
}

/// Height after clamping the requested one to the terminal's row count.
pub open spec fn clamp_height(height: usize, rows: usize) -> usize {
    if height > rows {
        rows
    } else {
        height
    }
}

/// Initial frame for a list of `total` items.
pub open spec fn init_frame(total: int, height: int, selected: int) -> (int, int) {
    if selected + height > total - 1 {
        (total - height, total)
    } else {
        (selected, selected + height)
    }
}

/// Frame after the selection moved to `selected`, from frame `[start, end)`.
pub open spec fn recompute_frame(
    start: int,
    end: int,
    total: int,
    height: int,
    selected: int,
) -> (int, int) {
    if height == total {
        (0, total)
    } else if start <= selected <= end - 1 {
        (start, end)
    } else if selected > end - 1 {
        (start + 1, end + 1)
    } else {
        let head = if selected + height - 1 < total - 1 {
            selected
        } else {
            total - height - 2
        };
        (head, head + height - 1 + 1)
    }
}

/// `n` blank characters.
pub open spec fn spaces(n: nat) -> Seq<char> {
    Seq::new(n, |i: int| ' ')
}

/// `s` in the selected line's style.
pub open spec fn highlighted(s: Seq<char>) -> Seq<char> {
    HIGHLIGHT@ + s + RESET@
}

/// The escape sequence that performs `code`.
pub open spec fn esc(code: Seq<char>) -> Seq<char> {
    CSI@ + code
}

/// `s` written `n` times.
pub open spec fn repeated(s: Seq<char>, n: nat) -> Seq<char>
    decreases n,
{
    if n == 0 {
        Seq::empty()
    } else {
        repeated(s, (n - 1) as nat) + s
    }
}

proof fn lemma_max_byte_len_bounds(items: Seq<String>, n: nat, i: int)
    requires
        0 <= i < n,
    ensures
        byte_len(items[i]@) <= max_byte_len(items, n),
    decreases n,
{
    if i < n - 1 {
        lemma_max_byte_len_bounds(items, (n - 1) as nat, i);
    }
}

/// Appends `n` blanks to `s`.
fn push_spaces(s: &mut String, n: usize)
    ensures
        final(s)@ == old(s)@ + spaces(n as nat),
{
    let mut i: usize = 0;
    while i < n
        invariant
            i <= n,
            s@ == old(s)@ + spaces(i as nat),
        decreases n - i,
    {
        proof {
            reveal_strlit(" ");
        }
        s.append(" ");
        assert(s@ =~= old(s)@ + spaces((i + 1) as nat));
        i = i + 1;
    }
}

/// `func` may return `r` when handed a string that reads `item`.
pub open spec fn returned_for<F: FnMut(&str) -> Result<(), Error>>(
    func: F,
    item: Seq<char>,
    r: Result<(), Error>,
) -> bool {
    exists|s: &str| s@ == item && call_ensures(func, (s,), r)
}

impl Frame {
    /// The frame's bounds as mathematical integers.
    pub open spec fn pair(self) -> (int, int) {
        (self.start as int, self.end as int)
    }
}

/// Whatever the moves, the frame holds the selection and spans
/// `min(height, len(items))` items.
pub proof fn lemma_frame_holds_selection(list: &ScrollableList)
    requires
        list.wf(),
    ensures
        list.frame.start <= list.selected < list.frame.end,
        list.frame.end - list.frame.start == if list.height <= list.items.len() {
            list.height as int
        } else {
            list.items.len() as int
        },
{
}

impl ScrollableList {
    /// The list's invariant: a valid selection inside a full-height frame.
    pub open spec fn wf(&self) -> bool {
        &&& self.frame_fits()
        &&& self.arrow_offset == arrow_offset_of(self.items@)
    }

    /// A valid selection inside a frame of `height` items within the list.
    pub open spec fn frame_fits(&self) -> bool {
        &&& 1 <= self.height <= self.items.len()
        &&& self.selected < self.items.len()
        &&& self.frame.start <= self.selected < self.frame.end
        &&& self.frame.end <= self.items.len()
        &&& self.frame.end - self.frame.start == self.height
    }

    /// `after` is `self` with the selection moved to `selected` and the
    /// frame recomputed for it.
    pub open spec fn moved_to(&self, after: ScrollableList, selected: int) -> bool {
        &&& after.selected == selected
        &&& after.items == self.items
        &&& after.height == self.height
        &&& after.arrow_offset == self.arrow_offset
        &&& after.frame.pair() == recompute_frame(
            self.frame.start as int,
            self.frame.end as int,
            self.items.len() as int,
            self.height as int,
            selected,
        )
    }

    /// `self` with the selection at `selected` and the frame recomputed for it.
    pub open spec fn with_selection(self, selected: int) -> ScrollableList {
        let f = recompute_frame(
            self.frame.start as int,
            self.frame.end as int,
            self.items.len() as int,
            self.height as int,
            selected,
        );
        ScrollableList {
            selected: selected as usize,
            frame: Frame { start: f.0 as usize, end: f.1 as usize },
            ..self
        }
    }

    /// The state after the event `e` has been handled.
    pub open spec fn after_event(self, e: Event) -> ScrollableList {
        match e {
            Event::MoveDown => if self.selected + 1 >= self.items.len() {
                self
            } else {
                self.with_selection(self.selected + 1)
            },
            Event::MoveUp => if self.selected == 0 {
                self
            } else {
                self.with_selection(self.selected - 1)
            },
            _ => self,
        }
    }

    /// The state after the reads `chunks` have been handled in order.
    pub open spec fn replay(self, chunks: Seq<Option<[u8; 3]>>) -> ScrollableList
        decreases chunks.len(),
    {
        if chunks.len() == 0 {
            self
        } else {
            self.replay(chunks.drop_last()).after_event(chunk_event(chunks.last()))
        }
    }

    /// The text of the selected item.
    pub open spec fn selected_item(self) -> Seq<char> {
        self.items[self.selected as int]@
    }

    /// Each confirming read among `chunks`, replayed from `self`, handed the
    /// then selected item to `func`, which returned `Ok`.
    pub open spec fn confirmed_ok<F: FnMut(&str) -> Result<(), Error>>(
        self,
        func: F,
        chunks: Seq<Option<[u8; 3]>>,
    ) -> bool {
        forall|i: int|
            0 <= i < chunks.len() && chunk_event(chunks[i]) == Event::Confirm ==> returned_for(
                func,
                #[trigger] self.replay(chunks.take(i + 1)).selected_item(),
                Ok(()),
            )
    }

    /// The effect of one move down: none on the last item.
    pub open spec fn stepped_down(&self, after: ScrollableList) -> bool {
        if self.selected + 1 >= self.items.len() {
            after == *self
        } else {
            self.moved_to(after, self.selected + 1)
        }
    }

    /// The effect of one move up: none on the first item.
    pub open spec fn stepped_up(&self, after: ScrollableList) -> bool {
        if self.selected == 0 {
            after == *self
        } else {
            self.moved_to(after, self.selected - 1)
        }
    }

    /// Blank space that aligns the scroll indicator after item `i`.
    pub open spec fn pad(&self, i: int) -> nat {
        (self.arrow_offset - byte_len(self.items[i]@) + 1) as nat
    }

    /// Text of the top visible line.
    pub open spec fn first_line(&self) -> Seq<char> {
        let i = self.frame.start as int;
        let item = self.items[i]@;
        if self.selected == self.frame.start {
            highlighted(item + spaces(self.pad(i))) + if self.selected == 0 {
                seq![' ']
            } else {
                UP_ARROW@
            }
        } else if self.frame.start > 0 {
            item + spaces(self.pad(i)) + UP_ARROW@
        } else {
            item + spaces(self.pad(i) + 1)
        }
    }

    /// Text of the bottom visible line.
    pub open spec fn last_line(&self) -> Seq<char> {
        let i = self.frame.end - 1;
        let item = self.items[i]@;
        if self.selected + 1 == self.frame.end {
            highlighted(item + spaces(self.pad(i))) + if self.selected + 1 < self.items.len() {
                DOWN_ARROW@
            } else {
                seq![' ']
            }
        } else if self.frame.end < self.items.len() {
            item + spaces(self.pad(i)) + DOWN_ARROW@
        } else {
            item + spaces(self.pad(i) + 1)
        }
    }

    /// Text of visible line `i`; the bottom line's form wins over the top's.
    pub open spec fn line(&self, i: int) -> Seq<char> {
        if i == self.frame.end - 1 {
            self.last_line()
        } else if i == self.frame.start {
            self.first_line()
        } else if i == self.selected {
            highlighted(self.items[i]@)
        } else {
            self.items[i]@
        }
    }

    /// Cleared and printed visible lines from the frame's start up to `upto`.
    pub open spec fn painted_lines(&self, upto: int) -> Seq<char>
        decreases upto - self.frame.start,
    {
        if upto <= self.frame.start {
            Seq::empty()
        } else {
            self.painted_lines(upto - 1) + esc(LINE_CLEAR@) + self.line(upto - 1) + seq!['\n']
        }
    }

    /// One repaint of the window in place.
    pub open spec fn paint(&self) -> Seq<char> {
        esc(CURSOR_SAVE_POSITION@) + self.painted_lines(self.frame.end as int) + esc(
            CURSOR_RESTORE_POSITION@,
        )
    }

    /// Builds a list over `items` with `selected` highlighted and a window of
    /// `height` lines, clamped to the terminal's `rows`.
    pub fn new(items: Vec<String>, selected: usize, height: usize, rows: usize) -> (r: Result<
        ScrollableList,
        Error,
    >)
        ensures
            ({
                let h = clamp_height(height, rows);
                &&& (h < 1 || h > items.len()) <==> r == Err::<ScrollableList, Error>(
                    Error::InvalidHeight,
                )
                &&& r != Err::<ScrollableList, Error>(Error::EmptyItems)
                &&& (1 <= h <= items.len() && selected >= items.len()) <==> r == Err::<
                    ScrollableList,
                    Error,
                >(Error::SelectedOutsideRange)
                &&& r is Ok <==> (1 <= h <= items.len() && selected < items.len())
                &&& r matches Ok(list) ==> {
                    &&& list.wf()
                    &&& list.items@ == items@
                    &&& list.selected == selected
                    &&& list.height == h
                    &&& list.frame.pair() == init_frame(items.len() as int, h as int, selected as int)
                }
            }),
    {
        let mut height = height;
        if height > rows {
            height = rows;
        }
        if height < 1 || height > items.len() {
            return Err(Error::InvalidHeight);
        }
        if items.len() == 0 {
            return Err(Error::EmptyItems);
        }
        if selected >= items.len() {
            return Err(Error::SelectedOutsideRange);
        }
        let mut arrow_offset: usize = 0;
        let mut i: usize = 0;
        while i < items.len()
            invariant
                i <= items.len(),
                arrow_offset == max_byte_len(items@, i as nat),
            decreases items.len() - i,
        {
            let n = items[i].as_str().len();
            if n > arrow_offset {
                arrow_offset = n;
            }
            i = i + 1;
        }
        let total = items.len();
        let frame = if height >= total || selected > total - 1 - height {
            Frame { start: total - height, end: total }
        } else {
            Frame { start: selected, end: selected + height }
        };
        let mut list = ScrollableList { height, selected, arrow_offset, items, frame };
        list.set_frame();
        Ok(list)
    }

    /// Moves the frame so that it follows the selection.
    pub fn set_frame(&mut self)
        requires
            1 <= old(self).height <= old(self).items.len(),
            old(self).selected < old(self).items.len(),
            old(self).frame.start < old(self).frame.end <= old(self).items.len(),
            old(self).selected < old(self).frame.start && old(self).selected + old(self).height
                >= old(self).items.len() ==> old(self).items.len() >= old(self).height + 2,
        ensures
            old(self).frame.start <= old(self).selected + 1 && old(self).selected
                <= old(self).frame.end && old(self).frame.end - old(self).frame.start
                == old(self).height ==> final(self).frame_fits(),
            final(self).items == old(self).items,
            final(self).selected == old(self).selected,
            final(self).height == old(self).height,
            final(self).arrow_offset == old(self).arrow_offset,
            final(self).frame.pair() == recompute_frame(
                old(self).frame.start as int,
                old(self).frame.end as int,
                old(self).items.len() as int,
                old(self).height as int,
                old(self).selected as int,
            ),
    {
        if self.height == self.items.len() {
            self.frame = Frame { start: 0, end: self.items.len() };
            return ;
        }
        if self.frame.start <= self.selected && self.selected <= self.frame.end - 1 {
            return ;
        }
        if self.selected > self.frame.end - 1 {
            self.frame = Frame { start: self.frame.start + 1, end: self.frame.end + 1 };
            return ;
        }
        let head = if self.selected < self.items.len() - self.height {
            self.selected
        } else {
            self.items.len() - self.height - 2
        };
        let tail = head + self.height - 1;
        self.frame = Frame { start: head, end: tail + 1 };
    }

    /// Formats the top visible line.
    pub fn fmt_first_item_in_frame(&self) -> (r: String)
        requires
            self.wf(),
        ensures
            r@ == self.first_line(),
    {
        let start = self.frame.start;
        let item = &self.items[start];
        proof {
            lemma_max_byte_len_bounds(self.items@, self.items.len() as nat, start as int);
            reveal_strlit(" ");
        }
        let gap = self.arrow_offset - item.as_str().len();
        let mut first = item.clone();
        if self.selected == start {
            push_spaces(&mut first, gap);
            first.append(" ");
            let mut styled = String::from_str(HIGHLIGHT);
            styled.append(first.as_str());
            styled.append(RESET);
            if self.selected == 0 {
                styled.append(" ");
            } else {
                styled.append(UP_ARROW);
            }
            assert(spaces(gap as nat) + seq![' '] =~= spaces(self.pad(start as int)));
            assert(styled@ =~= self.first_line());
            styled
        } else if start > 0 {
            push_spaces(&mut first, gap);
            first.append(" ");
            first.append(UP_ARROW);
            assert(spaces(gap as nat) + seq![' '] =~= spaces(self.pad(start as int)));
            assert(first@ =~= self.first_line());
            first
        } else {
            push_spaces(&mut first, gap);
            first.append(" ");
            first.append(" ");
            assert(spaces(gap as nat) + seq![' '] + seq![' '] =~= spaces(self.pad(start as int) + 1));
            assert(first@ =~= self.first_line());
            first
        }
    }

    /// Formats the bottom visible line.
    pub fn fmt_last_item_in_frame(&self) -> (r: String)
        requires
            self.wf(),
        ensures
            r@ == self.last_line(),
    {
        let end = self.frame.end;
        let item = &self.items[end - 1];
        proof {
            lemma_max_byte_len_bounds(self.items@, self.items.len() as nat, end - 1);
            reveal_strlit(" ");
        }
        let gap = self.arrow_offset - item.as_str().len();
        let mut last = item.clone();
        if self.selected + 1 == end {
            push_spaces(&mut last, gap);
            last.append(" ");
            let mut styled = String::from_str(HIGHLIGHT);
            styled.append(last.as_str());
            styled.append(RESET);
            if self.selected + 1 < self.items.len() {
                styled.append(DOWN_ARROW);
            } else {
                styled.append(" ");
            }
            assert(spaces(gap as nat) + seq![' '] =~= spaces(self.pad(end - 1)));
            assert(styled@ =~= self.last_line());
            styled
        } else if end < self.items.len() {
            push_spaces(&mut last, gap);
            last.append(" ");
            last.append(DOWN_ARROW);
            assert(spaces(gap as nat) + seq![' '] =~= spaces(self.pad(end - 1)));
            assert(last@ =~= self.last_line());
            last
        } else {
            push_spaces(&mut last, gap);
            last.append(" ");
            last.append(" ");
            assert(spaces(gap as nat) + seq![' '] + seq![' '] =~= spaces(self.pad(end - 1) + 1));
            assert(last@ =~= self.last_line());
            last
        }
    }

    /// Composes one in-place repaint of the visible lines: save the cursor,
    /// clear and print each line, restore the cursor.
    pub fn render(&self) -> (r: String)
        requires
            self.wf(),
        ensures
            r@ == self.paint(),
    {
        let first = self.fmt_first_item_in_frame();
        let last = self.fmt_last_item_in_frame();
        let mut out = String::from_str(CSI);
        out.append(CURSOR_SAVE_POSITION);
        let mut i: usize = self.frame.start;
        while i < self.frame.end
            invariant
                self.wf(),
                self.frame.start <= i <= self.frame.end,
                first@ == self.first_line(),
                last@ == self.last_line(),
                out@ == esc(CURSOR_SAVE_POSITION@) + self.painted_lines(i as int),
            decreases self.frame.end - i,
        {
            out.append(CSI);
            out.append(LINE_CLEAR);
            if i == self.frame.end - 1 {
                out.append(last.as_str());
            } else if i == self.frame.start {
                out.append(first.as_str());
            } else if i == self.selected {
                out.append(HIGHLIGHT);
                out.append(self.items[i].as_str());
                out.append(RESET);
            } else {
                out.append(self.items[i].as_str());
            }
            proof {
                reveal_strlit("\n");
            }
            out.append("\n");
            assert(out@ =~= esc(CURSOR_SAVE_POSITION@) + self.painted_lines(i + 1));
            i = i + 1;
        }
        out.append(CSI);
        out.append(CURSOR_RESTORE_POSITION);
        out
    }

    /// Composes the text printed before the first repaint: `height` blank
    /// lines, then the cursor moved back up over them.
    pub fn buffer_window(&self) -> (r: String)
        ensures
            r@ == repeated(seq!['\n'], self.height as nat) + repeated(
                esc(CURSOR_UP@),
                self.height as nat,
            ),
    {
        let mut out = String::new();
        let mut i: usize = 0;
        while i < self.height
            invariant
                i <= self.height,
                out@ == repeated(seq!['\n'], i as nat),
            decreases self.height - i,
        {
            proof {
                reveal_strlit("\n");
            }
            out.append("\n");
            assert(out@ =~= repeated(seq!['\n'], (i + 1) as nat));
            i = i + 1;
        }
        let mut j: usize = 0;
        while j < self.height
            invariant
                j <= self.height,
                out@ == repeated(seq!['\n'], self.height as nat) + repeated(
                    esc(CURSOR_UP@),
                    j as nat,
                ),
            decreases self.height - j,
        {
            out.append(CSI);
            out.append(CURSOR_UP);
            assert(out@ =~= repeated(seq!['\n'], self.height as nat) + repeated(
                esc(CURSOR_UP@),
                (j + 1) as nat,
            ));
            j = j + 1;
        }
        out
    }

    /// Hands the selected item to `func` and passes on its failure.
    pub fn act_on_selection<F>(&self, func: &mut F) -> (r: Result<(), Error>) where
        F: FnMut(&str) -> Result<(), Error>,

        requires
            self.wf(),
            forall|s: &str| call_requires(*old(func), (s,)),
        ensures
            *final(func) == *old(func),
            returned_for(*old(func), self.items[self.selected as int]@, r),
    {
        let item = self.items[self.selected].as_str();
        let res = func(item);
        assert(call_ensures(*old(func), (item,), res));
        res
    }

    /// Runs the interactive session for at most `limit` input reads.
    ///
    /// Paints the window once, then hands each chunk that `read` yields to
    /// `step` and carries out its action: a repaint goes to `paint`, a
    /// confirmation to `func` followed by a repaint. Callers that must know
    /// exactly what is painted and confirmed drive `step` themselves. On return the state
    /// is the replay of the chunks read, each of them a possible result of
    /// `read`, and every earlier confirmation's callback returned `Ok`. A confirmed
    /// selection goes to `func`; its failure ends the session at once, without
    /// a further repaint, and is returned. A failed read (`None`) is ignored.
    pub fn event_loop<R, P, F>(&mut self, read: &mut R, paint: P, func: &mut F, limit: usize) -> (r:
        Result<(), Error>) where
        R: FnMut() -> Option<[u8; 3]>,
        P: FnMut(&str),
        F: FnMut(&str) -> Result<(), Error>,

        requires
            old(self).wf(),
            call_requires(*old(read), ()),
            forall|s: &str| call_requires(paint, (s,)),
            forall|s: &str| call_requires(*old(func), (s,)),
        ensures
            final(self).wf(),
            final(self).items == old(self).items,
            final(self).height == old(self).height,
            final(self).arrow_offset == old(self).arrow_offset,
            *final(func) == *old(func),
            *final(read) == *old(read),
            limit == 0 ==> r == Ok::<(), Error>(()) && *final(self) == *old(self),
            r is Ok ==> exists|chunks: Seq<Option<[u8; 3]>>|
                #![trigger old(self).replay(chunks)]
                chunks.len() == limit && (forall|i: int|
                    0 <= i < chunks.len() ==> call_ensures(*old(read), (), #[trigger] chunks[i]))
                    && *final(self) == old(self).replay(chunks) && old(self).confirmed_ok(
                    *old(func),
                    chunks,
                ),
            r is Err ==> exists|chunks: Seq<Option<[u8; 3]>>|
                #![trigger old(self).replay(chunks)]
                0 < chunks.len() <= limit && (forall|i: int|
                    0 <= i < chunks.len() ==> call_ensures(*old(read), (), #[trigger] chunks[i]))
                    && chunk_event(chunks.last()) == Event::Confirm && *final(self)
                    == old(self).replay(chunks) && old(self).confirmed_ok(
                    *old(func),
                    chunks.drop_last(),
                ),
            r is Err ==> returned_for(*old(func), final(self).items[final(self).selected as int]@, r),
    {
        let mut paint = paint;
        let ghost mut chunks: Seq<Option<[u8; 3]>> = Seq::empty();
        let window = self.buffer_window();
        paint(window.as_str());
        let screen = self.render();
        paint(screen.as_str());
        let mut n: usize = 0;
        while n < limit
            invariant
                self.wf(),
                self.items == old(self).items,
                self.height == old(self).height,
                self.arrow_offset == old(self).arrow_offset,
                *func == *old(func),
                n <= limit,
                n == 0 ==> *self == *old(self),
                *read == *old(read),
                chunks.len() == n,
                forall|i: int| 0 <= i < chunks.len() ==> call_ensures(*old(read), (), #[trigger] chunks[i]),
                *self == old(self).replay(chunks),
                old(self).confirmed_ok(*old(func), chunks),
                call_requires(*read, ()),
                forall|s: &str| call_requires(paint, (s,)),
                forall|s: &str| call_requires(*func, (s,)),
            decreases limit - n,
        {
            let chunk = read();
            let ghost prev = chunks;
            let action = self.step(chunk);
            proof {
                chunks = prev.push(chunk);
                assert(chunks.drop_last() =~= prev);
            }
            match action {
                Action::Confirm(_) => {
                    let res = self.act_on_selection(func);
                    if res.is_err() {
                        assert(chunk_event(chunks.last()) == Event::Confirm);
                        assert(*self == old(self).replay(chunks));
                        assert(old(self).confirmed_ok(*old(func), chunks.drop_last()));
                        return res;
                    }
                    assert(res->Ok_0 == ());
                    assert(res == Ok::<(), Error>(()));
                    let screen = self.render();
                    paint(screen.as_str());
                },
                Action::Repaint(screen) => paint(screen.as_str()),
            }
            proof {
                assert forall|i: int|
                    0 <= i < chunks.len() && chunk_event(chunks[i]) == Event::Confirm implies returned_for(
                    *old(func),
                    #[trigger] old(self).replay(chunks.take(i + 1)).selected_item(),
                    Ok(()),
                ) by {
                    if i < prev.len() {
                        assert(chunks.take(i + 1) =~= prev.take(i + 1));
                        assert(chunks[i] == prev[i]);
                        assert(returned_for(
                            *old(func),
                            old(self).replay(prev.take(i + 1)).selected_item(),
                            Ok(()),
                        ));
                    } else {
                        assert(chunks.take(i + 1) =~= chunks);
                    }
                }
            }
            n = n + 1;
        }
        Ok(())
    }

    /// One turn of the session: handles the read `chunk` and says what to do
    /// next. A confirmation hands on the selected item and changes nothing;
    /// any other chunk applies its move, if any, and asks for a repaint.
    pub fn step(&mut self, chunk: Option<[u8; 3]>) -> (a: Action)
        requires
            old(self).wf(),
        ensures
            final(self).wf(),
            *final(self) == old(self).after_event(chunk_event(chunk)),
            chunk_event(chunk) == Event::Confirm ==> (a matches Action::Confirm(item) && item@
                == old(self).selected_item() && *final(self) == *old(self)),
            chunk_event(chunk) != Event::Confirm ==> (a matches Action::Repaint(text) && text@
                == final(self).paint()),
    {
        let e = self.handle(chunk);
        if e == Event::Confirm {
            Action::Confirm(self.items[self.selected].clone())
        } else {
            Action::Repaint(self.render())
        }
    }

    /// Handles one read of the session: decodes the chunk and applies a move.
    /// A confirmation and an ignored chunk change nothing here; the caller
    /// hands the selection on for a confirmation.
    pub fn handle(&mut self, chunk: Option<[u8; 3]>) -> (e: Event)
        requires
            old(self).wf(),
        ensures
            final(self).wf(),
            e == chunk_event(chunk),
            *final(self) == old(self).after_event(e),
            (e == Event::Confirm || e == Event::Ignore) ==> *final(self) == *old(self),
            e == Event::MoveDown ==> old(self).stepped_down(*final(self)),
            e == Event::MoveUp ==> old(self).stepped_up(*final(self)),
    {
        let e = match chunk {
            Some(bytes) => decode(bytes),
            None => Event::Ignore,
        };
        let ghost before = *self;
        match e {
            Event::MoveUp => self.decrement_selected(),
            Event::MoveDown => self.increment_selected(),
            _ => {},
        }
        proof {
            if e == Event::MoveUp && before.selected > 0 {
                assert(*self == before.with_selection(before.selected - 1));
            }
            if e == Event::MoveDown && before.selected + 1 < before.items.len() {
                assert(*self == before.with_selection(before.selected + 1));
            }
        }
        e
    }

    /// Moves the selection one item down, unless it is on the last item.
    pub fn increment_selected(&mut self)
        requires
            old(self).wf(),
        ensures
            final(self).wf(),
            old(self).stepped_down(*final(self)),
            old(self).selected + 1 >= old(self).items.len() ==> *final(self) == *old(self),
    {
        if self.selected + 1 >= self.items.len() {
            return ;
        }
        self.selected = self.selected + 1;
        self.set_frame();
    }

    /// Moves the selection one item up, unless it is on the first item.
    pub fn decrement_selected(&mut self)
        requires
            old(self).wf(),
        ensures
            final(self).wf(),
            old(self).stepped_up(*final(self)),
            old(self).selected == 0 ==> *final(self) == *old(self),
    {
        if self.selected == 0 {
            return ;
        }
        self.selected = self.selected - 1;
        self.set_frame();
    }
}

} // verus!
