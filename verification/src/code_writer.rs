//! An indentation-aware text builder.

use vstd::prelude::*;
use vstd::string::StringExecFns;
use crate::text::{repeat, repeated};

verus! {

/// How generated text is laid out: the line terminator and one level of indent.
pub struct CodeFileOptions {
    pub line_break: String,
    pub indent: String,
}

/// Text under construction, with the current indentation depth.
pub struct CodeFile {
    line_break: String,
    indent_sign: String,
    indent_level: usize,
    content: String,
}

/// The text of one line of `code` at `depth`: indentation, code, terminator.
pub open spec fn line_text(
    indent: Seq<char>,
    line_break: Seq<char>,
    depth: nat,
    code: Seq<char>,
) -> Seq<char> {
    repeated(indent, depth) + code + line_break
}

/// One line of a file, before layout is applied.
pub ghost enum Line {
    /// `code` at indentation `depth`.
    Code { depth: nat, code: Seq<char> },
    /// An empty line.
    Blank,
}

/// The text of one line under a layout.
pub open spec fn rendered_line(line: Line, indent: Seq<char>, line_break: Seq<char>) -> Seq<char> {
    match line {
        Line::Code { depth, code } => line_text(indent, line_break, depth, code),
        Line::Blank => line_break,
    }
}

/// The text of a file: its lines under a layout, in a row.
pub open spec fn rendered(lines: Seq<Line>, indent: Seq<char>, line_break: Seq<char>) -> Seq<char>
    decreases lines.len(),
{
    if lines.len() == 0 {
        Seq::empty()
    } else {
        rendered(lines.drop_last(), indent, line_break) + rendered_line(
            lines.last(),
            indent,
            line_break,
        )
    }
}

/// Appending a line to a file appends its text.
pub proof fn lemma_rendered_push(
    lines: Seq<Line>,
    line: Line,
    indent: Seq<char>,
    line_break: Seq<char>,
)
    ensures
        rendered(lines.push(line), indent, line_break) == rendered(lines, indent, line_break)
            + rendered_line(line, indent, line_break),
{
    assert(lines.push(line).drop_last() =~= lines);
}

impl CodeFile {
    /// The text written so far.
    pub closed spec fn content(&self) -> Seq<char> {
        self.content@
    }

    /// How many blocks are open.
    pub closed spec fn depth(&self) -> nat {
        self.indent_level as nat
    }

    /// The text that one level of indentation adds in front of a line.
    pub closed spec fn indent_unit(&self) -> Seq<char> {
        self.indent_sign@
    }

    /// The text that ends every line.
    pub closed spec fn terminator(&self) -> Seq<char> {
        self.line_break@
    }

    /// The same layout as `before`.
    pub open spec fn same_layout(&self, before: &CodeFile) -> bool {
        &&& self.indent_unit() == before.indent_unit()
        &&& self.terminator() == before.terminator()
    }

    /// An empty file at depth zero with the layout of `options`.
    pub fn new(options: &CodeFileOptions) -> (file: CodeFile)
        ensures
            file.content() == Seq::<char>::empty(),
            file.depth() == 0,
            file.indent_unit() == options.indent@,
            file.terminator() == options.line_break@,
    {
        CodeFile {
            line_break: options.line_break.clone(),
            indent_sign: options.indent.clone(),
            indent_level: 0,
            content: String::new(),
        }
    }

    fn indent(&mut self)
        requires
            old(self).depth() < usize::MAX,
        ensures
            final(self).depth() == old(self).depth() + 1,
            final(self).content() == old(self).content(),
            final(self).same_layout(old(self)),
    {
        self.indent_level += 1;
    }

    fn deindent(&mut self)
        requires
            old(self).depth() > 0,
        ensures
            final(self).depth() == old(self).depth() - 1,
            final(self).content() == old(self).content(),
            final(self).same_layout(old(self)),
    {
        self.indent_level -= 1;
    }

    /// Appends `code` as one line at the current depth.
    pub fn line(&mut self, code: &str)
        ensures
            final(self).content() == old(self).content() + line_text(
                old(self).indent_unit(),
                old(self).terminator(),
                old(self).depth(),
                code@,
            ),
            final(self).depth() == old(self).depth(),
            final(self).same_layout(old(self)),
    {
        let indent = repeat(self.indent_sign.as_str(), self.indent_level);
        self.content.append(indent.as_str());
        self.content.append(code);
        self.content.append(self.line_break.as_str());
    }

    /// Appends an empty line: the terminator alone, without indentation.
    pub fn blank_line(&mut self)
        ensures
            final(self).content() == old(self).content() + old(self).terminator(),
            final(self).depth() == old(self).depth(),
            final(self).same_layout(old(self)),
    {
        self.content.append(self.line_break.as_str());
    }

    /// Appends `code` as a line, then opens a block: later lines are one level
    /// deeper.
    pub fn begin_indent(&mut self, code: &str)
        requires
            old(self).depth() < usize::MAX,
        ensures
            final(self).content() == old(self).content() + line_text(
                old(self).indent_unit(),
                old(self).terminator(),
                old(self).depth(),
                code@,
            ),
            final(self).depth() == old(self).depth() + 1,
            final(self).same_layout(old(self)),
    {
        self.line(code);
        self.indent();
    }

    /// Closes the innermost block, then appends `code` as a line at the depth
    /// of the line that opened it. There must be an open block.
    pub fn end_indent(&mut self, code: &str)
        requires
            old(self).depth() > 0,
        ensures
            final(self).content() == old(self).content() + line_text(
                old(self).indent_unit(),
                old(self).terminator(),
                (old(self).depth() - 1) as nat,
                code@,
            ),
            final(self).depth() == old(self).depth() - 1,
            final(self).same_layout(old(self)),
    {
        self.deindent();
        self.line(code);
    }

    /// How many blocks are open.
    pub fn open_blocks(&self) -> (count: usize)
        ensures
            count == self.depth(),
    {
        self.indent_level
    }

    /// The text written so far.
    pub fn build_string(self) -> (text: String)
        ensures
            text@ == self.content(),
    {
        self.content
    }
}

} // verus!
