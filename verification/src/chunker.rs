//! The document chunker: a state machine that is fed one line at a time and
//! hands out the sections of the document.
//!
//! Lines gather in a buffer. A blank line closes the buffer as a section,
//! unless it stands inside a code block or the buffer holds nothing but
//! whitespace yet: then it is kept as content. A fence line opens or closes
//! a code block. At the end of the input the buffer is flushed.
use crate::text::{
    blank, fence, is_blank, is_fence, lemma_blank_concat, lemma_fence_is_not_blank, lines_of,
    split_lines, string_views,
};
use vstd::prelude::*;
use vstd::string::StringExecFns;

verus! {

/// A section as the contracts see it.
pub struct SectionView {
    pub text: Seq<char>,
    pub in_code_block: bool,
}

/// A run of lines between two boundaries, each line with its line feed.
pub struct Section {
    /// The lines of the section, each followed by a line feed.
    pub text: String,
    /// Whether a code block was open when the section was closed. It can be
    /// only for a section that the end of the input closed.
    pub in_code_block: bool,
}

impl View for Section {
    type V = SectionView;

    open spec fn view(&self) -> SectionView {
        SectionView { text: self.text@, in_code_block: self.in_code_block }
    }
}

/// The views of a sequence of sections.
pub open spec fn section_views(v: Seq<Section>) -> Seq<SectionView> {
    v.map_values(|s: Section| s@)
}

/// The state of the chunker: what has gathered since the last boundary, and
/// whether a code block is open.
pub struct ChunkState {
    pub buffer: Seq<char>,
    pub in_code_block: bool,
}

impl ChunkState {
    /// The state before the first line: an empty buffer outside any code
    /// block.
    pub open spec fn initial() -> ChunkState {
        ChunkState { buffer: Seq::empty(), in_code_block: false }
    }

    /// Whether `line` closes the buffer as a section.
    pub open spec fn closes(self, line: Seq<char>) -> bool {
        is_blank(line) && !self.in_code_block && !is_blank(self.buffer)
    }

    /// The state after `line`.
    pub open spec fn step(self, line: Seq<char>) -> ChunkState {
        if self.closes(line) {
            ChunkState { buffer: Seq::empty(), in_code_block: self.in_code_block }
        } else {
            ChunkState {
                buffer: self.buffer + line + seq!['\n'],
                in_code_block: if is_fence(line) {
                    !self.in_code_block
                } else {
                    self.in_code_block
                },
            }
        }
    }

    /// The section that `line` closes, if it closes one.
    pub open spec fn emitted(self, line: Seq<char>) -> Option<SectionView> {
        if self.closes(line) {
            Some(SectionView { text: self.buffer, in_code_block: self.in_code_block })
        } else {
            None
        }
    }

    /// The section that the end of the input closes: the buffer, unless it
    /// holds nothing but whitespace.
    pub open spec fn flushed(self) -> Option<SectionView> {
        if is_blank(self.buffer) {
            None
        } else {
            Some(SectionView { text: self.buffer, in_code_block: self.in_code_block })
        }
    }
}

/// The state after all of `lines`, starting from `state`.
pub open spec fn run(state: ChunkState, lines: Seq<Seq<char>>) -> ChunkState
    decreases lines.len(),
{
    if lines.len() == 0 {
        state
    } else {
        run(state, lines.drop_last()).step(lines.last())
    }
}

/// The sections that the blank lines among `lines` close, in order.
pub open spec fn closed_sections(lines: Seq<Seq<char>>) -> Seq<SectionView>
    decreases lines.len(),
{
    if lines.len() == 0 {
        Seq::empty()
    } else {
        let before = lines.drop_last();
        match run(ChunkState::initial(), before).emitted(lines.last()) {
            Some(section) => closed_sections(before).push(section),
            None => closed_sections(before),
        }
    }
}

/// All sections of a document given by its lines: those that blank lines
/// close, then the one that the end of the input closes.
pub open spec fn sections_of(lines: Seq<Seq<char>>) -> Seq<SectionView> {
    match run(ChunkState::initial(), lines).flushed() {
        Some(section) => closed_sections(lines).push(section),
        None => closed_sections(lines),
    }
}

/// How many of `lines` are fence lines.
pub open spec fn fence_count(lines: Seq<Seq<char>>) -> nat
    decreases lines.len(),
{
    if lines.len() == 0 {
        0
    } else if is_fence(lines.last()) {
        fence_count(lines.drop_last()) + 1
    } else {
        fence_count(lines.drop_last())
    }
}

/// The texts of `sections`, one after the other.
pub open spec fn joined(sections: Seq<SectionView>) -> Seq<char>
    decreases sections.len(),
{
    if sections.len() == 0 {
        Seq::empty()
    } else {
        joined(sections.drop_last()) + sections.last().text
    }
}

/// The lines that closed no section, each with its line feed, one after the
/// other.
pub open spec fn kept_text(lines: Seq<Seq<char>>) -> Seq<char>
    decreases lines.len(),
{
    if lines.len() == 0 {
        Seq::empty()
    } else {
        let before = lines.drop_last();
        if run(ChunkState::initial(), before).closes(lines.last()) {
            kept_text(before)
        } else {
            kept_text(before) + lines.last() + seq!['\n']
        }
    }
}

/// A section is closed only outside a code block, so a section that a blank
/// line closes never carries the code-block flag, and its text is never
/// blank.
pub proof fn lemma_closed_section_is_outside_code_block(state: ChunkState, line: Seq<char>)
    ensures
        state.emitted(line) matches Some(section) ==> !section.in_code_block && !is_blank(
            section.text,
        ) && section.text == state.buffer,
        state.closes(line) ==> state.step(line) == ChunkState::initial(),
{
}

/// A fence line never closes a section: it joins the buffer and flips the
/// code-block state.
pub proof fn lemma_fence_line_toggles(state: ChunkState, line: Seq<char>)
    requires
        is_fence(line),
    ensures
        state.emitted(line) is None,
        state.step(line).in_code_block == !state.in_code_block,
        state.step(line).buffer == state.buffer + line + seq!['\n'],
{
    lemma_fence_is_not_blank(line);
}

/// A blank line inside a code block makes no boundary, wherever it stands in
/// the input: no section is closed by it, the line joins the buffer, and the
/// code block stays open.
pub proof fn lemma_blank_line_in_code_block_is_kept(lines: Seq<Seq<char>>, i: int)
    requires
        0 <= i < lines.len(),
        is_blank(lines[i]),
        run(ChunkState::initial(), lines.take(i)).in_code_block,
    ensures
        closed_sections(lines.take(i + 1)) == closed_sections(lines.take(i)),
        run(ChunkState::initial(), lines.take(i + 1)).buffer == run(
            ChunkState::initial(),
            lines.take(i),
        ).buffer + lines[i] + seq!['\n'],
        run(ChunkState::initial(), lines.take(i + 1)).in_code_block,
{
    let upto = lines.take(i + 1);
    assert(upto.drop_last() == lines.take(i));
    assert(upto.last() == lines[i]);
    if is_fence(lines[i]) {
        lemma_fence_is_not_blank(lines[i]);
    }
}

/// A code block is open exactly after an odd number of fence lines.
pub proof fn lemma_code_block_parity(lines: Seq<Seq<char>>)
    ensures
        run(ChunkState::initial(), lines).in_code_block == (fence_count(lines) % 2 == 1),
    decreases lines.len(),
{
    if lines.len() > 0 {
        lemma_code_block_parity(lines.drop_last());
        if is_fence(lines.last()) {
            lemma_fence_is_not_blank(lines.last());
        }
    }
}

/// No line is lost and none is doubled: the sections closed so far and the
/// buffer, put together, are the lines that closed no section.
pub proof fn lemma_content_is_conserved(lines: Seq<Seq<char>>)
    ensures
        joined(closed_sections(lines)) + run(ChunkState::initial(), lines).buffer == kept_text(
            lines,
        ),
    decreases lines.len(),
{
    if lines.len() > 0 {
        let before = lines.drop_last();
        let state = run(ChunkState::initial(), before);
        lemma_content_is_conserved(before);
        if state.closes(lines.last()) {
            let closed = closed_sections(lines);
            assert(closed.drop_last() == closed_sections(before));
            assert(joined(closed) + Seq::<char>::empty() == joined(closed));
        } else {
            assert(joined(closed_sections(before)) + (state.buffer + lines.last() + seq!['\n'])
                == joined(closed_sections(before)) + state.buffer + lines.last() + seq!['\n']);
        }
    } else {
        assert(joined(closed_sections(lines)) + Seq::<char>::empty() == Seq::<char>::empty());
    }
}

/// What is left in the buffer at the end of the input becomes exactly one
/// more section, the last one, unless it is blank: then it becomes none. In
/// the first case the sections together hold every line that closed no
/// section, once and in order. After the end of the input nothing is left
/// that could become a section a second time.
pub proof fn lemma_trailing_section_is_flushed_once(lines: Seq<Seq<char>>)
    ensures
        ChunkState::initial().flushed() is None,
        ({
            let last = run(ChunkState::initial(), lines);
            let closed = closed_sections(lines);
            let all = sections_of(lines);
            if is_blank(last.buffer) {
                all == closed
            } else {
                &&& all.len() == closed.len() + 1
                &&& all.drop_last() == closed
                &&& all.last().text == last.buffer
                &&& all.last().in_code_block == last.in_code_block
                &&& joined(all) == kept_text(lines)
            }
        }),
{
    let last = run(ChunkState::initial(), lines);
    let closed = closed_sections(lines);
    if !is_blank(last.buffer) {
        assert(sections_of(lines).drop_last() == closed);
        lemma_content_is_conserved(lines);
    }
}

/// The chunker. It holds the buffer and the code-block state, and knows at
/// any time whether the buffer holds more than whitespace.
pub struct Chunker {
    buffer: String,
    in_code_block: bool,
    has_content: bool,
}

impl View for Chunker {
    type V = ChunkState;

    closed spec fn view(&self) -> ChunkState {
        ChunkState { buffer: self.buffer@, in_code_block: self.in_code_block }
    }
}

impl Chunker {
    /// The chunker's invariant: its note of whether the buffer holds more
    /// than whitespace is right.
    pub closed spec fn wf(&self) -> bool {
        self.has_content == !is_blank(self.buffer@)
    }

    /// A chunker before the first line.
    pub fn new() -> (chunker: Chunker)
        ensures
            chunker.wf(),
            chunker@ == ChunkState::initial(),
    {
        Chunker { buffer: String::new(), in_code_block: false, has_content: false }
    }

    /// Whether a code block is open.
    pub fn in_code_block(&self) -> (r: bool)
        ensures
            r == self@.in_code_block,
    {
        self.in_code_block
    }

    /// Whether the buffer holds more than whitespace, so that a blank line
    /// outside a code block, or the end of the input, would close it as a
    /// section.
    pub fn has_content(&self) -> (r: bool)
        requires
            self.wf(),
        ensures
            r == !is_blank(self@.buffer),
    {
        self.has_content
    }

    /// Takes one line, without its line feed. Returns the section that the
    /// line closes, if it closes one; else the line joins the buffer.
    pub fn feed(&mut self, line: &str) -> (r: Option<Section>)
        requires
            old(self).wf(),
        ensures
            final(self).wf(),
            final(self)@ == old(self)@.step(line@),
            match r {
                Some(section) => old(self)@.emitted(line@) == Some(section@),
                None => old(self)@.emitted(line@) is None,
            },
    {
        let line_is_blank = blank(line);
        if line_is_blank && !self.in_code_block && self.has_content {
            let mut text = String::new();
            std::mem::swap(&mut self.buffer, &mut text);
            self.has_content = false;
            Some(Section { text, in_code_block: false })
        } else {
            if !line_is_blank {
                if fence(line) {
                    self.in_code_block = !self.in_code_block;
                }
                self.has_content = true;
            }
            self.buffer.append(line);
            self.buffer.append("\n");
            proof {
                reveal_strlit("\n");
                if is_fence(line@) {
                    lemma_fence_is_not_blank(line@);
                }
                let tail = seq!['\n'];
                assert("\n"@ == tail);
                assert(is_blank(tail));
                lemma_blank_concat(old(self).buffer@, line@);
                lemma_blank_concat(old(self).buffer@ + line@, tail);
            }
            None
        }
    }

    /// Ends the input. Returns what is left in the buffer as the last
    /// section, unless it is blank, and starts over: the chunker is then as
    /// it was before the first line, so a second call returns nothing.
    pub fn flush(&mut self) -> (r: Option<Section>)
        requires
            old(self).wf(),
        ensures
            final(self).wf(),
            final(self)@ == ChunkState::initial(),
            match r {
                Some(section) => old(self)@.flushed() == Some(section@),
                None => old(self)@.flushed() is None,
            },
    {
        let mut text = String::new();
        std::mem::swap(&mut self.buffer, &mut text);
        let in_code_block = self.in_code_block;
        let had_content = self.has_content;
        self.in_code_block = false;
        self.has_content = false;
        if had_content {
            Some(Section { text, in_code_block })
        } else {
            None
        }
    }
}

/// Cuts a document, given by its lines, into its sections.
pub fn chunk_lines(lines: &Vec<String>) -> (sections: Vec<Section>)
    ensures
        section_views(sections@) == sections_of(string_views(lines@)),
{
    let mut chunker = Chunker::new();
    let mut sections: Vec<Section> = Vec::new();
    let ghost all = string_views(lines@);
    let mut i: usize = 0;
    proof {
        assert(all.take(0) == Seq::<Seq<char>>::empty());
        assert(section_views(sections@) == closed_sections(all.take(0)));
    }
    while i < lines.len()
        invariant
            0 <= i <= lines.len(),
            all == string_views(lines@),
            chunker.wf(),
            chunker@ == run(ChunkState::initial(), all.take(i as int)),
            section_views(sections@) == closed_sections(all.take(i as int)),
        decreases lines.len() - i,
    {
        let ghost before = all.take(i as int);
        let ghost upto = all.take(i + 1);
        proof {
            assert(upto.drop_last() == before);
            assert(upto.last() == lines@[i as int]@);
        }
        match chunker.feed(lines[i].as_str()) {
            Some(section) => {
                proof {
                    assert(section_views(sections@.push(section)) == section_views(
                        sections@,
                    ).push(section@));
                }
                sections.push(section);
            },
            None => {},
        }
        i = i + 1;
    }
    proof {
        assert(all.take(i as int) == all);
    }
    match chunker.flush() {
        Some(section) => {
            proof {
                assert(section_views(sections@.push(section)) == section_views(sections@).push(
                    section@,
                ));
            }
            sections.push(section);
        },
        None => {},
    }
    sections
}

/// Cuts a document, given as one text, into its sections.
pub fn chunk_text(text: &str) -> (sections: Vec<Section>)
    ensures
        section_views(sections@) == sections_of(lines_of(text@)),
{
    let lines = split_lines(text);
    chunk_lines(&lines)
}

} // verus!
