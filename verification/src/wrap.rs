//! Breaking a message into lines that fit a cell, one character at a time.
//!
//! The width of a trial line is measured by the caller (it depends on the
//! font of a drawing surface); the wrapper decides where lines end.
use vstd::prelude::*;

verus! {

/// Lines finished so far, and the line being filled.
pub type WrapState = (Seq<Seq<char>>, Seq<char>);

/// One character fed to the wrapper. A line break ends the current line (it
/// may be empty). Any other character starts a new line when the current line
/// holds something and the current line with the character would be too wide;
/// otherwise it extends the current line.
pub open spec fn wrap_step(state: WrapState, ch: char, too_wide: bool) -> WrapState {
    if ch == '\n' {
        (state.0.push(state.1), seq![])
    } else if too_wide && state.1.len() > 0 {
        (state.0.push(state.1), seq![ch])
    } else {
        (state.0, state.1.push(ch))
    }
}

/// The finished lines: the current line is kept when it holds something.
pub open spec fn wrap_finish(state: WrapState) -> Seq<Seq<char>> {
    if state.1.len() > 0 {
        state.0.push(state.1)
    } else {
        state.0
    }
}

/// The state after feeding `text`, where `too_wide[i]` is the width verdict
/// given with `text[i]`.
pub open spec fn wrap_run(text: Seq<char>, too_wide: Seq<bool>) -> WrapState
    decreases text.len(),
{
    if text.len() == 0 {
        (seq![], seq![])
    } else {
        wrap_step(
            wrap_run(text.drop_last(), too_wide),
            text.last(),
            too_wide[text.len() - 1],
        )
    }
}

/// The lines that `text` is broken into under the given width verdicts.
pub open spec fn wrapped_lines(text: Seq<char>, too_wide: Seq<bool>) -> Seq<Seq<char>> {
    wrap_finish(wrap_run(text, too_wide))
}

/// `text` with its line breaks removed.
pub open spec fn without_line_breaks(text: Seq<char>) -> Seq<char>
    decreases text.len(),
{
    if text.len() == 0 {
        seq![]
    } else if text.last() == '\n' {
        without_line_breaks(text.drop_last())
    } else {
        without_line_breaks(text.drop_last()).push(text.last())
    }
}

proof fn lemma_run_keeps_text(text: Seq<char>, too_wide: Seq<bool>)
    ensures
        wrap_run(text, too_wide).0.flatten() + wrap_run(text, too_wide).1 == without_line_breaks(text),
    decreases text.len(),
{
    broadcast use Seq::lemma_flatten_push;

    if text.len() > 0 {
        lemma_run_keeps_text(text.drop_last(), too_wide);
        let prev = wrap_run(text.drop_last(), too_wide);
        let ch = text.last();
        if ch == '\n' {
            assert(prev.0.push(prev.1).flatten() + seq![] =~= prev.0.flatten() + prev.1);
        } else if too_wide[text.len() - 1] && prev.1.len() > 0 {
            assert(prev.0.push(prev.1).flatten() + seq![ch] =~= (prev.0.flatten() + prev.1).push(ch));
        } else {
            assert(prev.0.flatten() + prev.1.push(ch) =~= (prev.0.flatten() + prev.1).push(ch));
        }
    } else {
        assert(Seq::<Seq<char>>::empty().flatten() + Seq::<char>::empty() =~= Seq::<char>::empty());
    }
}

/// Wrapping loses and adds no character: joined together, the lines are the
/// text without its line breaks, whatever the width verdicts were.
pub proof fn lemma_wrap_keeps_every_character(text: Seq<char>, too_wide: Seq<bool>)
    ensures
        wrapped_lines(text, too_wide).flatten() == without_line_breaks(text),
{
    broadcast use Seq::lemma_flatten_push;

    lemma_run_keeps_text(text, too_wide);
    let s = wrap_run(text, too_wide);
    if s.1.len() == 0 {
        assert(s.0.flatten() + s.1 =~= s.0.flatten());
    }
}

proof fn lemma_run_has_no_line_break(text: Seq<char>, too_wide: Seq<bool>)
    ensures
        forall|i: int, j: int|
            0 <= i < wrap_run(text, too_wide).0.len() && 0 <= j < wrap_run(text, too_wide).0[i].len()
                ==> wrap_run(text, too_wide).0[i][j] != '\n',
        forall|j: int| 0 <= j < wrap_run(text, too_wide).1.len() ==> wrap_run(text, too_wide).1[j] != '\n',
    decreases text.len(),
{
    if text.len() > 0 {
        lemma_run_has_no_line_break(text.drop_last(), too_wide);
        let prev = wrap_run(text.drop_last(), too_wide);
        let next = wrap_run(text, too_wide);
        assert forall|i: int, j: int| 0 <= i < next.0.len() && 0 <= j < next.0[i].len() implies next.0[i][j]
            != '\n' by {
            if i < prev.0.len() {
                assert(next.0[i] == prev.0[i]);
            } else {
                assert(next.0[i] == prev.1);
            }
        }
    }
}

/// No wrapped line holds a line break.
pub proof fn lemma_wrapped_lines_hold_no_line_break(text: Seq<char>, too_wide: Seq<bool>)
    ensures
        forall|i: int, j: int|
            0 <= i < wrapped_lines(text, too_wide).len() && 0 <= j < wrapped_lines(text, too_wide)[i].len()
                ==> wrapped_lines(text, too_wide)[i][j] != '\n',
{
    lemma_run_has_no_line_break(text, too_wide);
    let s = wrap_run(text, too_wide);
    let lines = wrapped_lines(text, too_wide);
    assert forall|i: int, j: int| 0 <= i < lines.len() && 0 <= j < lines[i].len() implies lines[i][j] != '\n' by {
        if i < s.0.len() {
            assert(lines[i] == s.0[i]);
        } else {
            assert(lines[i] == s.1);
        }
    }
}

/// How many characters of `text` are line breaks.
pub open spec fn line_break_count(text: Seq<char>) -> nat
    decreases text.len(),
{
    if text.len() == 0 {
        0
    } else {
        line_break_count(text.drop_last()) + if text.last() == '\n' {
            1nat
        } else {
            0nat
        }
    }
}

/// How many characters of `text` are line breaks or were judged too wide.
pub open spec fn break_chance_count(text: Seq<char>, too_wide: Seq<bool>) -> nat
    decreases text.len(),
{
    if text.len() == 0 {
        0
    } else {
        break_chance_count(text.drop_last(), too_wide) + if text.last() == '\n' || too_wide[text.len()
            - 1] {
            1nat
        } else {
            0nat
        }
    }
}

/// Every line break ends a line, and a line ends nowhere else than at a line
/// break or a character judged too wide.
pub proof fn lemma_lines_end_only_where_allowed(text: Seq<char>, too_wide: Seq<bool>)
    ensures
        line_break_count(text) <= wrap_run(text, too_wide).0.len() <= break_chance_count(text, too_wide),
    decreases text.len(),
{
    if text.len() > 0 {
        lemma_lines_end_only_where_allowed(text.drop_last(), too_wide);
    }
}

proof fn lemma_run_without_breaks(text: Seq<char>, too_wide: Seq<bool>)
    requires
        forall|i: int| 0 <= i < text.len() ==> text[i] != '\n' && !too_wide[i],
    ensures
        wrap_run(text, too_wide) == (Seq::<Seq<char>>::empty(), text),
    decreases text.len(),
{
    if text.len() > 0 {
        lemma_run_without_breaks(text.drop_last(), too_wide);
        assert(text.drop_last().push(text.last()) =~= text);
    } else {
        assert(text =~= Seq::<char>::empty());
    }
}

/// Lines end only at line breaks and where a character would not fit: a text
/// without line breaks, none of whose characters was judged too wide, stays
/// one line, however long it is.
pub proof fn lemma_fitting_text_stays_one_line(text: Seq<char>, too_wide: Seq<bool>)
    requires
        text.len() > 0,
        forall|i: int| 0 <= i < text.len() ==> text[i] != '\n' && !too_wide[i],
    ensures
        wrapped_lines(text, too_wide) == seq![text],
{
    lemma_run_without_breaks(text, too_wide);
    assert(Seq::<Seq<char>>::empty().push(text) =~= seq![text]);
}

/// Breaks text into lines as it is fed character by character.
pub struct LineWrapper {
    lines: Vec<String>,
    current: String,
}

impl View for LineWrapper {
    type V = WrapState;

    closed spec fn view(&self) -> WrapState {
        (self.lines.deep_view(), self.current@)
    }
}

impl LineWrapper {
    /// A wrapper that has seen nothing yet.
    pub fn new() -> (w: LineWrapper)
        ensures
            w@ == (Seq::<Seq<char>>::empty(), Seq::<char>::empty()),
    {
        let w = LineWrapper { lines: Vec::new(), current: String::new() };
        assert(w.lines.deep_view() =~= Seq::<Seq<char>>::empty());
        w
    }

    /// Whether `ch` ends a line whatever its width (the caller measures no trial for it).
    pub fn is_line_break(ch: char) -> (r: bool)
        ensures
            r == (ch == '\n'),
    {
        ch == '\n'
    }

    /// The current line extended by `ch`: the text whose width decides `too_wide`.
    pub fn trial(&self, ch: char) -> (t: String)
        ensures
            t@ == self@.1.push(ch),
    {
        let mut t = self.current.clone();
        crate::text::push_char(&mut t, ch);
        t
    }

    fn close_line(&mut self)
        ensures
            final(self)@ == (old(self)@.0.push(old(self)@.1), Seq::<char>::empty()),
    {
        let mut line = String::new();
        std::mem::swap(&mut line, &mut self.current);
        let ghost before = self.lines.deep_view();
        self.lines.push(line);
        assert(self.lines.deep_view() =~= before.push(line@));
    }

    /// Feeds one character with the verdict on its trial line (ignored for a line break).
    pub fn feed(&mut self, ch: char, too_wide: bool)
        ensures
            final(self)@ == wrap_step(old(self)@, ch, too_wide),
    {
        if ch == '\n' {
            self.close_line();
        } else if too_wide && self.current.as_str().unicode_len() > 0 {
            self.close_line();
            crate::text::push_char(&mut self.current, ch);
            assert(self.current@ =~= seq![ch]);
        } else {
            crate::text::push_char(&mut self.current, ch);
        }
    }

    /// The finished lines.
    pub fn finish(self) -> (lines: Vec<String>)
        ensures
            lines.deep_view() == wrap_finish(self@),
    {
        let mut w = self;
        if w.current.as_str().unicode_len() > 0 {
            w.close_line();
        }
        w.lines
    }
}

} // verus!
