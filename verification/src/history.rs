//! Earlier conversations and the selection among them.

use vstd::prelude::*;
use vstd::string::*;
use crate::chat::texts_of;

verus! {

/// The conversations of the history as they are shown in full. `D` is the
/// type of a styled document.
#[derive(Debug)]
pub struct Preview<D> {
    pub text: Vec<D>,
    pub scroll: usize,
}

/// The list of earlier conversations.
#[derive(Debug)]
pub struct History<D> {
    pub selected: Option<usize>,
    pub text: Vec<Vec<String>>,
    pub preview: Preview<D>,
}

/// The selection after a step down in a list of `len` entries: the next
/// entry, the last entry staying put, the first entry where none was
/// selected, and no change in an empty list.
pub open spec fn stepped_down(selected: Option<usize>, len: int) -> Option<usize> {
    if len == 0 {
        selected
    } else {
        match selected {
            Some(i) => if i < len - 1 {
                Some((i + 1) as usize)
            } else {
                Some(i)
            },
            None => Some(0usize),
        }
    }
}

/// The selection after a step up: the entry before, the first entry staying
/// put, the first entry where none was selected, and no change in an empty
/// list.
pub open spec fn stepped_up(selected: Option<usize>, len: int) -> Option<usize> {
    if len == 0 {
        selected
    } else {
        match selected {
            Some(i) => if i > 0 {
                Some((i - 1) as usize)
            } else {
                Some(0usize)
            },
            None => Some(0usize),
        }
    }
}

/// The first line of `text`: what stands before the first line break,
/// without the carriage return that may precede that line break. A text
/// without any line break is its own first line.
pub open spec fn first_line(text: Seq<char>) -> Seq<char> {
    let line = text.subrange(0, line_end(text));
    if line_end(text) < text.len() && line.len() > 0 && line.last() == '\r' {
        line.drop_last()
    } else {
        line
    }
}

/// The position of the first line break in `text`, or its length where it
/// has none.
pub open spec fn line_end(text: Seq<char>) -> int
    decreases text.len(),
{
    if text.len() == 0 {
        0
    } else if text[0] == '\n' {
        0
    } else {
        1 + line_end(text.drop_first())
    }
}

/// A position is the first line break exactly if it holds one and nothing
/// before it does.
pub proof fn lemma_line_end(text: Seq<char>, at: int)
    requires
        0 <= at <= text.len(),
        forall|j: int| 0 <= j < at ==> text[j] != '\n',
        at < text.len() ==> text[at] == '\n',
    ensures
        line_end(text) == at,
    decreases text.len(),
{
    if text.len() > 0 && at > 0 {
        let rest = text.drop_first();
        assert forall|j: int| 0 <= j < at - 1 implies rest[j] != '\n' by {
            assert(rest[j] == text[j + 1]);
        }
        lemma_line_end(rest, at - 1);
    }
}

/// The strings of a list run together.
pub open spec fn concatenated(lines: Seq<Seq<char>>) -> Seq<char>
    decreases lines.len(),
{
    if lines.len() == 0 {
        Seq::empty()
    } else {
        concatenated(lines.drop_last()) + lines.last()
    }
}

/// Extracts the first line of `text`.
pub fn first_line_of(text: &str) -> (line: String)
    ensures
        line@ == first_line(text@),
{
    let len = text.unicode_len();
    let mut at: usize = 0;
    while at < len && text.get_char(at) != '\n'
        invariant
            0 <= at <= len,
            len == text@.len(),
            forall|j: int| 0 <= j < at ==> text@[j] != '\n',
        decreases len - at,
    {
        at = at + 1;
    }
    proof {
        lemma_line_end(text@, at as int);
    }
    let end = if at < len && at > 0 && text.get_char(at - 1) == '\r' {
        at - 1
    } else {
        at
    };
    let line = text.substring_char(0, end);
    assert(line@ =~= first_line(text@));
    String::from_str(line)
}

impl<D> History<D> {
    /// An empty history with nothing selected.
    pub fn new() -> (history: History<D>)
        ensures
            history.selected is None,
            history.text@.len() == 0,
            history.preview.text@.len() == 0,
            history.preview.scroll == 0,
    {
        History {
            selected: None,
            text: Vec::new(),
            preview: Preview { text: Vec::new(), scroll: 0 },
        }
    }

    /// Selects the last entry. An empty history stays as it is.
    pub fn move_to_bottom(&mut self)
        ensures
            final(self).selected == if old(self).text@.len() > 0 {
                Some((old(self).text@.len() - 1) as usize)
            } else {
                old(self).selected
            },
            final(self).text == old(self).text,
            final(self).preview == old(self).preview,
    {
        if self.text.len() > 0 {
            self.selected = Some(self.text.len() - 1);
        }
    }

    /// Selects the first entry. An empty history stays as it is.
    pub fn move_to_top(&mut self)
        ensures
            final(self).selected == if old(self).text@.len() > 0 {
                Some(0usize)
            } else {
                old(self).selected
            },
            final(self).text == old(self).text,
            final(self).preview == old(self).preview,
    {
        if self.text.len() > 0 {
            self.selected = Some(0);
        }
    }

    /// Moves the selection one entry down.
    pub fn scroll_down(&mut self)
        ensures
            final(self).selected == stepped_down(
                old(self).selected,
                old(self).text@.len() as int,
            ),
            final(self).text == old(self).text,
            final(self).preview == old(self).preview,
    {
        if self.text.len() == 0 {
            return ;
        }
        let next = match self.selected {
            Some(i) => if i < self.text.len() - 1 {
                i + 1
            } else {
                i
            },
            None => 0,
        };
        self.selected = Some(next);
    }

    /// Moves the selection one entry up.
    pub fn scroll_up(&mut self)
        ensures
            final(self).selected == stepped_up(
                old(self).selected,
                old(self).text@.len() as int,
            ),
            final(self).text == old(self).text,
            final(self).preview == old(self).preview,
    {
        if self.text.len() == 0 {
            return ;
        }
        let next = match self.selected {
            Some(i) => if i > 0 {
                i - 1
            } else {
                0
            },
            None => 0,
        };
        self.selected = Some(next);
    }

    /// Selects the first entry where there are entries and none is selected,
    /// as is done before the history is drawn.
    pub fn ensure_selection(&mut self)
        ensures
            final(self).selected == if old(self).text@.len() > 0 && old(self).selected is None {
                Some(0usize)
            } else {
                old(self).selected
            },
            final(self).text == old(self).text,
            final(self).preview == old(self).preview,
    {
        if self.text.len() > 0 && self.selected.is_none() {
            self.selected = Some(0);
        }
    }

    /// Adds an archived conversation: its document to the previews, its
    /// first line to the list.
    pub fn load_chat(&mut self, text: &str, document: D)
        ensures
            final(self).preview.text@ == old(self).preview.text@.push(document),
            final(self).preview.scroll == old(self).preview.scroll,
            final(self).text@.len() == old(self).text@.len() + 1,
            forall|i: int| 0 <= i < old(self).text@.len() ==> final(self).text@[i] == old(
                self,
            ).text@[i],
            texts_of(final(self).text@.last()@) == seq![first_line(text@)],
            final(self).selected == old(self).selected,
    {
        self.preview.text.push(document);
        let mut entry: Vec<String> = Vec::new();
        entry.push(first_line_of(text));
        assert(texts_of(entry@) =~= seq![first_line(text@)]);
        self.text.push(entry);
    }

    /// The text under which conversation `index` is archived: its entries
    /// run together. Where the history holds no such conversation there is
    /// nothing to archive.
    pub fn archive_text(&self, index: usize) -> (contents: Option<String>)
        ensures
            match contents {
                Some(contents) => index < self.text@.len() && contents@ == concatenated(
                    texts_of(self.text@[index as int]@),
                ),
                None => index >= self.text@.len(),
            },
    {
        if index >= self.text.len() {
            return None;
        }
        let entries = &self.text[index];
        let ghost lines = texts_of(entries@);
        let mut contents = String::new();
        let mut i: usize = 0;
        assert(lines.take(0) =~= Seq::<Seq<char>>::empty());
        while i < entries.len()
            invariant
                0 <= i <= entries.len(),
                lines == texts_of(entries@),
                contents@ == concatenated(lines.take(i as int)),
            decreases entries.len() - i,
        {
            proof {
                assert(lines.take(i + 1).drop_last() =~= lines.take(i as int));
                assert(lines.take(i + 1).last() == entries@[i as int]@);
            }
            contents.append(entries[i].as_str());
            i = i + 1;
        }
        assert(lines.take(i as int) =~= lines);
        Some(contents)
    }
}

} // verus!
