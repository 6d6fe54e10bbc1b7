//! A conversation: a fixed run of lines that is read one line at a time.

use vstd::prelude::*;
use vstd::string::*;

verus! {

/// One line of a conversation.
pub enum ConversationLine {
    Text(String),
}

impl ConversationLine {
    /// The words of the line.
    pub open spec fn text(&self) -> Seq<char> {
        match self {
            ConversationLine::Text(txt) => txt@,
        }
    }

    /// A line that says `string`.
    pub fn from_str(string: &str) -> (r: Self)
        ensures
            r.text() == string@,
    {
        ConversationLine::Text(string.to_owned())
    }
}

/// The lines of `lines`, each after the first on a new line.
pub open spec fn joined(lines: Seq<Seq<char>>) -> Seq<char>
    decreases lines.len(),
{
    if lines.len() == 0 {
        Seq::empty()
    } else if lines.len() == 1 {
        lines[0]
    } else {
        joined(lines.drop_last()) + "\n"@ + lines.last()
    }
}

/// A conversation and the place the reader has reached in it.
pub struct Conversation {
    lines: Vec<ConversationLine>,
    line_index: usize,
}

/// What a conversation holds: its lines, and the index of the current one.
pub struct ConversationView {
    pub lines: Seq<Seq<char>>,
    pub index: nat,
}

impl ConversationView {
    /// The lines that were already read: those before the current one.
    pub open spec fn read_so_far(&self) -> Seq<Seq<char>> {
        if self.index <= self.lines.len() {
            self.lines.take(self.index as int)
        } else {
            self.lines
        }
    }

    /// The current line, or nothing once the reader is past the end.
    pub open spec fn current(&self) -> Seq<char> {
        if self.index < self.lines.len() {
            self.lines[self.index as int]
        } else {
            Seq::empty()
        }
    }

    /// The reader is at the last line, or past it.
    pub open spec fn at_end(&self) -> bool {
        self.index + 1 >= self.lines.len()
    }
}

impl View for Conversation {
    type V = ConversationView;

    closed spec fn view(&self) -> ConversationView {
        ConversationView {
            lines: Seq::new(self.lines@.len(), |i: int| self.lines@[i].text()),
            index: self.line_index as nat,
        }
    }
}

impl Conversation {
    /// The conversation of two lines, `Hello` and `World`, at its first
    /// line.
    pub fn new() -> (r: Self)
        ensures
            r@.lines == seq!["Hello"@, "World"@],
            r@.index == 0,
    {
        let mut lines: Vec<ConversationLine> = Vec::new();
        lines.push(ConversationLine::from_str("Hello"));
        lines.push(ConversationLine::from_str("World"));
        let r = Conversation { lines, line_index: 0 };
        proof {
            assert(r@.lines =~= seq!["Hello"@, "World"@]);
        }
        r
    }

    /// Every line before the current one, joined by line breaks.
    pub fn show_lines_before(&self) -> (r: String)
        ensures
            r@ == joined(self@.read_so_far()),
    {
        let mut total_string = String::new();
        let end: usize = if self.line_index <= self.lines.len() {
            self.line_index
        } else {
            self.lines.len()
        };
        let mut index: usize = 0;
        while index < end
            invariant
                index <= end <= self.lines@.len(),
                end as int == self@.read_so_far().len(),
                total_string@ == joined(self@.read_so_far().take(index as int)),
            decreases end - index,
        {
            let ghost before = self@.read_so_far().take(index as int);
            let ghost after = self@.read_so_far().take(index + 1);
            proof {
                assert(after.drop_last() =~= before);
                assert(after.last() == self.lines@[index as int].text());
            }
            if index > 0 {
                total_string.append("\n");
            }
            match &self.lines[index] {
                ConversationLine::Text(txt) => {
                    total_string.append(txt.as_str());
                },
            }
            proof {
                if index == 0 {
                    assert(before =~= Seq::<Seq<char>>::empty());
                    assert(total_string@ =~= after[0]);
                }
            }
            index = index + 1;
        }
        proof {
            assert(self@.read_so_far().take(end as int) =~= self@.read_so_far());
        }
        total_string
    }

    /// The current line; empty once the reader is past the last line.
    pub fn show_line(&self) -> (r: String)
        ensures
            r@ == self@.current(),
    {
        if self.line_index < self.lines.len() {
            match &self.lines[self.line_index] {
                ConversationLine::Text(txt) => txt.clone(),
            }
        } else {
            String::new()
        }
    }

    /// Moves on to the next line.
    pub fn next_line(&mut self)
        requires
            old(self)@.index < usize::MAX,
        ensures
            final(self)@.lines == old(self)@.lines,
            final(self)@.index == old(self)@.index + 1,
    {
        self.line_index = self.line_index + 1;
    }

    /// Whether the reader is at the last line (or past it). While it is
    /// not, there is a next line to move on to.
    pub fn done(&self) -> (r: bool)
        ensures
            r == self@.at_end(),
            !r ==> self@.index < usize::MAX,
    {
        self.line_index >= self.lines.len() || self.line_index + 1 >= self.lines.len()
    }
}

} // verus!
