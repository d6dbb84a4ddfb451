//! Deciding which generated files have to be written.
//!
//! A generated file starts with a header line that holds the checksum of the
//! content below it. A file whose header holds the checksum of the new content
//! is left alone. Reading and writing files is the caller's part: it hands in
//! the first line of what exists and gets back what to write.

use vstd::prelude::*;
use vstd::string::StrSliceExecFns;
use vstd::string::StringExecFns;
use crate::code_generator::{
    are_inputs, codec_text, have_encodable_arguments, schema_text, write_codec_ts,
    write_schema_ts,
};
use crate::code_writer::CodeFileOptions;
use crate::schema::{DocumentModel, GqlDocument};
use crate::text::{
    all_zeros, chars_of, concat2, decimal, has_prefix, is_blank, is_whitespace, lemma_decimal_digits, lemma_trimmed_end_of_concat,
    lemma_zeros_value, parse_u32, parsed_u32, replace, replaced, starts_with_at, trim_end,
    trimmed_end, u32_to_decimal,
};

verus! {

/// The CRC-32 checksum (IEEE 802.3) of a sequence of bytes, as the crate
/// `crc32fast` computes it.
pub uninterp spec fn crc32(bytes: Seq<u8>) -> u32;

/// `crc32fast::hash`: the CRC-32 checksum of `bytes`. The result depends on
/// the bytes alone, whichever implementation the crate selects on a machine.
#[verifier::external_body]
fn crc32_hash(bytes: &[u8]) -> (hash: u32)
    ensures
        hash == crc32(bytes@),
{
    crc32fast::hash(bytes)
}

/// The checksum of a text: that of its UTF-8 encoding.
pub open spec fn checksum(content: Seq<char>) -> u32 {
    crc32(vstd::utf8::encode_utf8(content))
}

/// Computes the checksum of a text.
pub fn content_hash(content: &str) -> (hash: u32)
    ensures
        hash == checksum(content@),
{
    crc32_hash(content.as_bytes())
}

/// What the header line starts with; the checksum in decimal follows.
pub open spec fn hash_prefix() -> Seq<char> {
    "// hash:"@
}

/// The first line of a text, with its line feed if it has one: what reading
/// one line from the start of a file gives.
pub open spec fn first_line(text: Seq<char>) -> Seq<char>
    decreases text.len(),
{
    if text.len() == 0 {
        text
    } else if text[0] == '\n' {
        seq!['\n']
    } else {
        seq![text[0]] + first_line(text.skip(1))
    }
}

/// The checksum that a first line holds: the line starts with the header
/// prefix, and what follows is, up to white space at the end, a number.
pub open spec fn embedded_hash(line: Seq<char>) -> Option<u32> {
    if has_prefix(line, hash_prefix()) {
        parsed_u32(trimmed_end(line.skip(hash_prefix().len() as int)))
    } else {
        None
    }
}

/// Reads the checksum out of the first line of an existing file.
pub fn read_embedded_hash(first_line: &str) -> (hash: Option<u32>)
    ensures
        hash == embedded_hash(first_line@),
{
    let line = chars_of(first_line);
    let prefix = chars_of("// hash:");
    assert(line@.skip(0) =~= line@);
    if starts_with_at(&line, 0, &prefix) {
        let offset = prefix.len();
        let end = trim_end(&line, offset, line.len());
        parse_u32(&line, offset, end)
    } else {
        None
    }
}

/// What happened, or is to happen, to one generated file.
#[derive(Debug, Clone, Copy, PartialEq, Eq, Structural)]
pub enum FileWriteResult {
    Overwritten,
    NoChange,
    Created,
}

/// What is to happen to a file, given the first line of what exists (`None`
/// where nothing exists) and the checksum of the new content.
pub open spec fn write_result(existing_first_line: Option<Seq<char>>, new_hash: u32)
    -> FileWriteResult {
    match existing_first_line {
        None => FileWriteResult::Created,
        Some(line) => if embedded_hash(line) == Some(new_hash) {
            FileWriteResult::NoChange
        } else {
            FileWriteResult::Overwritten
        },
    }
}

/// The view of a line that may be absent.
pub open spec fn line_view(line: Option<&str>) -> Option<Seq<char>> {
    match line {
        None => None,
        Some(text) => Some(text@),
    }
}

/// Decides what is to happen to a file: it is created if it does not exist,
/// left alone if its header holds the checksum of the new content, and
/// overwritten otherwise.
pub fn decide_write(existing_first_line: Option<&str>, new_content_hash: u32) -> (result:
    FileWriteResult)
    ensures
        result == write_result(line_view(existing_first_line), new_content_hash),
{
    match existing_first_line {
        None => FileWriteResult::Created,
        Some(line) => {
            let skip = match read_embedded_hash(line) {
                Some(hash) => hash == new_content_hash,
                None => false,
            };
            if skip {
                FileWriteResult::NoChange
            } else {
                FileWriteResult::Overwritten
            }
        },
    }
}

/// The text of a generated file: the header line, then the content.
pub open spec fn with_hash(content: Seq<char>, hash: u32, line_break: Seq<char>) -> Seq<char> {
    hash_prefix() + decimal(hash as nat) + line_break + content
}

/// Puts the header line in front of the content.
pub fn content_with_hash(new_content: &str, hash: u32, options: &CodeFileOptions) -> (text:
    String)
    ensures
        text@ == with_hash(new_content@, hash, options.line_break@),
{
    let number = u32_to_decimal(hash);
    let mut text = String::new();
    text.append("// hash:");
    text.append(number.as_str());
    text.append(options.line_break.as_str());
    text.append(new_content);
    text
}

/// What is to happen to one file, and the text to write if it is to be
/// written.
#[derive(Debug, PartialEq, Eq)]
pub struct WritePlan {
    pub result: FileWriteResult,
    pub text: Option<String>,
}

impl WritePlan {
    /// This is the plan for new content, given the first line of what exists:
    /// the result is the one decided, and the text, present unless the file is
    /// left alone, is the content under its header.
    pub open spec fn is_plan_for(
        &self,
        existing_first_line: Option<Seq<char>>,
        new_content: Seq<char>,
        line_break: Seq<char>,
    ) -> bool {
        &&& self.result == write_result(existing_first_line, checksum(new_content))
        &&& match self.text {
            None => self.result == FileWriteResult::NoChange,
            Some(text) => {
                &&& self.result != FileWriteResult::NoChange
                &&& text@ == with_hash(new_content, checksum(new_content), line_break)
            },
        }
    }
}

/// Plans the write of `new_content`, given the decision on it.
pub fn plan_write(result: FileWriteResult, new_content: &str, hash: u32, options: &CodeFileOptions)
    -> (plan: WritePlan)
    ensures
        plan.result == result,
        result == FileWriteResult::NoChange ==> plan.text is None,
        result != FileWriteResult::NoChange ==> plan.text is Some && plan.text->0@ == with_hash(
            new_content@,
            hash,
            options.line_break@,
        ),
{
    match result {
        FileWriteResult::NoChange => WritePlan { result, text: None },
        _ => WritePlan { result, text: Some(content_with_hash(new_content, hash, options)) },
    }
}

/// Plans the write of a hash-gated file: computes the checksum of the new
/// content and compares it with the one in the first line of what exists.
pub fn overwrite_on_diff(
    existing_first_line: Option<&str>,
    new_content: &str,
    options: &CodeFileOptions,
) -> (plan: WritePlan)
    ensures
        plan.is_plan_for(line_view(existing_first_line), new_content@, options.line_break@),
{
    let new_content_hash = content_hash(new_content);
    let result = decide_write(existing_first_line, new_content_hash);
    plan_write(result, new_content, new_content_hash, options)
}

impl FileWriteResult {
    /// The report on a file: its name, a dash, and what happened.
    pub open spec fn log_text(self, file_name: Seq<char>) -> Seq<char> {
        match self {
            FileWriteResult::Created => file_name + " - created"@,
            FileWriteResult::NoChange => file_name + " - skipped (no change)"@,
            FileWriteResult::Overwritten => file_name + " - overwritten"@,
        }
    }

    /// Writes the report on a file.
    pub fn log(&self, file_name: &str) -> (message: String)
        ensures
            message@ == self.log_text(file_name@),
    {
        match self {
            FileWriteResult::Created => concat2(file_name, " - created"),
            FileWriteResult::NoChange => concat2(file_name, " - skipped (no change)"),
            FileWriteResult::Overwritten => concat2(file_name, " - overwritten"),
        }
    }
}

/// The bootstrap file: the template with the runtime package's name in place
/// of its placeholder, then the indent in place of every tab, then the line
/// terminator in place of every line feed.
pub open spec fn index_text(
    template: Seq<char>,
    indent: Seq<char>,
    line_break: Seq<char>,
    runtime: Seq<char>,
) -> Seq<char> {
    replaced(
        replaced(replaced(template, "__RUNTIME_PACKAGE__"@, runtime), "\t"@, indent),
        "\n"@,
        line_break,
    )
}

/// The text of the bootstrap file.
pub fn write_index_ts(template: &str, options: &CodeFileOptions, runtime: &str) -> (text: String)
    ensures
        text@ == index_text(template@, options.indent@, options.line_break@, runtime@),
{
    let with_runtime = replace(template, "__RUNTIME_PACKAGE__", runtime);
    let with_indent = replace(with_runtime.as_str(), "\t", options.indent.as_str());
    replace(with_indent.as_str(), "\n", options.line_break.as_str())
}

/// What the output directory holds before a run.
#[derive(Debug, PartialEq, Eq)]
pub struct ExistingFiles {
    /// Whether the bootstrap file exists.
    pub index_exists: bool,
    /// The first line of the type-definitions file, if the file exists.
    pub schema_first_line: Option<String>,
    /// The first line of the codec file, if the file exists.
    pub codec_first_line: Option<String>,
}

/// What a run does to the three files.
#[derive(Debug, PartialEq, Eq)]
pub struct FilePlan {
    /// The text of the bootstrap file, if it is to be created.
    pub index: Option<String>,
    /// The plan for the type-definitions file.
    pub schema: WritePlan,
    /// The plan for the codec file.
    pub codec: WritePlan,
}

/// The view of a stored text that may be absent.
pub open spec fn stored_line_view(line: Option<String>) -> Option<Seq<char>> {
    match line {
        None => None,
        Some(text) => Some(text@),
    }
}

fn stored_line(line: &Option<String>) -> (borrowed: Option<&str>)
    ensures
        line_view(borrowed) == stored_line_view(*line),
{
    match line {
        None => None,
        Some(text) => Some(text.as_str()),
    }
}

/// What the output directory holds, as a value.
pub ghost struct ExistingModel {
    pub index_exists: bool,
    pub schema_first_line: Option<Seq<char>>,
    pub codec_first_line: Option<Seq<char>>,
}

impl View for ExistingFiles {
    type V = ExistingModel;

    open spec fn view(&self) -> ExistingModel {
        ExistingModel {
            index_exists: self.index_exists,
            schema_first_line: stored_line_view(self.schema_first_line),
            codec_first_line: stored_line_view(self.codec_first_line),
        }
    }
}

impl FilePlan {
    /// This is the plan of a run on `document`: the bootstrap file is created
    /// from the template iff it does not exist, whatever the template is; each
    /// of the other two is planned from its own text and its own first line.
    pub open spec fn is_plan_for(
        &self,
        document: DocumentModel,
        existing: ExistingModel,
        template: Seq<char>,
        indent: Seq<char>,
        line_break: Seq<char>,
        runtime: Seq<char>,
    ) -> bool {
        &&& match self.index {
            None => existing.index_exists,
            Some(text) => !existing.index_exists && text@ == index_text(
                template,
                indent,
                line_break,
                runtime,
            ),
        }
        &&& self.schema.is_plan_for(
            existing.schema_first_line,
            schema_text(document, indent, line_break, runtime),
            line_break,
        )
        &&& self.codec.is_plan_for(
            existing.codec_first_line,
            codec_text(document.inputs, document.outputs, indent, line_break, runtime),
            line_break,
        )
    }
}

/// What the output directory holds once a plan was carried out.
pub open spec fn files_after(existing: ExistingModel, plan: FilePlan) -> ExistingModel {
    ExistingModel {
        index_exists: true,
        schema_first_line: first_line_after(existing.schema_first_line, plan.schema),
        codec_first_line: first_line_after(existing.codec_first_line, plan.codec),
    }
}

/// Plans a run: emits the two modules for `document` and decides, from what
/// the output directory holds, which of the three files to write. The
/// document's input objects, and the arguments of its output fields, must hold
/// values only.
pub fn write_files(
    document: &GqlDocument,
    existing: &ExistingFiles,
    template: &str,
    options: &CodeFileOptions,
    runtime: &str,
) -> (plan: FilePlan)
    requires
        are_inputs(document@.inputs),
        have_encodable_arguments(document@.outputs),
    ensures
        plan.is_plan_for(
            document@,
            existing@,
            template@,
            options.indent@,
            options.line_break@,
            runtime@,
        ),
{
    let index = if existing.index_exists {
        None
    } else {
        Some(write_index_ts(template, options, runtime))
    };
    let schema_content = write_schema_ts(
        &document.inputs,
        &document.outputs,
        &document.scalars,
        &document.enums,
        options,
        runtime,
    );
    let schema = overwrite_on_diff(
        stored_line(&existing.schema_first_line),
        schema_content.as_str(),
        options,
    );
    let codec_content = write_codec_ts(&document.inputs, &document.outputs, options, runtime);
    let codec = overwrite_on_diff(
        stored_line(&existing.codec_first_line),
        codec_content.as_str(),
        options,
    );
    FilePlan { index, schema, codec }
}

/// The first line of a text that starts with text without a line feed is that
/// text and the first line of the rest.
pub proof fn lemma_first_line_behind(front: Seq<char>, rest: Seq<char>)
    requires
        forall|i: int| 0 <= i < front.len() ==> front[i] != '\n',
    ensures
        first_line(front + rest) == front + first_line(rest),
    decreases front.len(),
{
    if front.len() > 0 {
        let text = front + rest;
        assert(text.skip(1) =~= front.skip(1) + rest);
        lemma_first_line_behind(front.skip(1), rest);
    }
}

/// Takes the first line of a text, with its line feed if it has one.
pub fn read_first_line(text: &str) -> (line: String)
    ensures
        line@ == first_line(text@),
{
    let chars = chars_of(text);
    let mut end: usize = 0;
    while end < chars.len() && chars[end] != '\n'
        invariant
            end <= chars.len(),
            forall|i: int| 0 <= i < end ==> chars@[i] != '\n',
        decreases chars.len() - end,
    {
        end = end + 1;
    }
    proof {
        let front = chars@.take(end as int);
        let rest = chars@.skip(end as int);
        assert(front + rest =~= chars@);
        lemma_first_line_behind(front, rest);
    }
    let length = if end < chars.len() {
        end + 1
    } else {
        end
    };
    text.substring_char(0, length).to_string()
}

/// Whether the header line of a written file can be read back: what the first
/// line holds behind the checksum is, up to white space at the end, nothing
/// or, if the checksum is zero, only zeros. The line is ended by the first
/// line feed of the line terminator or, if that has none, of the content.
pub open spec fn header_survives(hash: u32, line_break: Seq<char>, content: Seq<char>) -> bool {
    let rest = trimmed_end(first_line(line_break + content));
    all_zeros(rest) && (rest.len() > 0 ==> hash == 0)
}

/// All that is left of white space, once white space is trimmed, is nothing.
pub proof fn lemma_blank_is_trimmed_away(text: Seq<char>)
    requires
        is_blank(text),
    ensures
        trimmed_end(text).len() == 0,
    decreases text.len(),
{
    if text.len() > 0 {
        lemma_blank_is_trimmed_away(text.drop_last());
    }
}

/// Where the line terminator is white space that holds a line feed, the first
/// line of terminator and content is white space.
pub proof fn lemma_first_line_is_blank(line_break: Seq<char>, content: Seq<char>)
    requires
        is_blank(line_break),
        line_break.contains('\n'),
    ensures
        is_blank(first_line(line_break + content)),
    decreases line_break.len(),
{
    let text = line_break + content;
    if line_break[0] != '\n' {
        let rest = line_break.skip(1);
        assert(text.skip(1) =~= rest + content);
        let at = choose|i: int| 0 <= i < line_break.len() && line_break[i] == '\n';
        assert(rest[at - 1] == '\n');
        lemma_first_line_is_blank(rest, content);
    }
}

/// A line terminator of white space that holds a line feed (such as the usual
/// two) keeps the header line readable, whatever the content is.
pub proof fn lemma_usual_line_break_survives(hash: u32, line_break: Seq<char>, content: Seq<char>)
    requires
        is_blank(line_break),
        line_break.contains('\n'),
    ensures
        header_survives(hash, line_break, content),
{
    lemma_first_line_is_blank(line_break, content);
    lemma_blank_is_trimmed_away(first_line(line_break + content));
}

/// The header line of a written file holds the checksum it was written with,
/// provided the line can be read back.
pub proof fn lemma_header_holds_checksum(content: Seq<char>, hash: u32, line_break: Seq<char>)
    requires
        header_survives(hash, line_break, content),
    ensures
        embedded_hash(first_line(with_hash(content, hash, line_break))) == Some(hash),
{
    reveal_strlit("// hash:");
    let prefix = hash_prefix();
    let number = decimal(hash as nat);
    let tail = first_line(line_break + content);
    lemma_decimal_digits(hash as nat);
    assert(with_hash(content, hash, line_break) =~= (prefix + number) + (line_break + content));
    lemma_first_line_behind(prefix + number, line_break + content);
    let line = first_line(with_hash(content, hash, line_break));
    assert(line.take(prefix.len() as int) =~= prefix);
    assert(line.skip(prefix.len() as int) =~= number + tail);
    lemma_trimmed_end_of_concat(number, tail);
    let rest = trimmed_end(tail);
    if rest.len() > 0 {
        lemma_zeros_value(number, rest);
    }
}

/// The first line of a file once a plan was carried out: the one that was
/// there if the file is left alone, else the first line of the text written.
pub open spec fn first_line_after(existing_first_line: Option<Seq<char>>, plan: WritePlan)
    -> Option<Seq<char>> {
    match plan.text {
        None => existing_first_line,
        Some(text) => Some(first_line(text@)),
    }
}

/// Writing the same content again changes nothing: once a plan for some
/// content was carried out, the decision on that content is to leave the file
/// alone, provided its header line can be read back.
pub proof fn lemma_second_write_is_skipped(
    existing_first_line: Option<Seq<char>>,
    content: Seq<char>,
    line_break: Seq<char>,
    plan: WritePlan,
)
    requires
        plan.is_plan_for(existing_first_line, content, line_break),
        header_survives(checksum(content), line_break, content),
    ensures
        write_result(first_line_after(existing_first_line, plan), checksum(content))
            == FileWriteResult::NoChange,
{
    lemma_header_holds_checksum(content, checksum(content), line_break);
}

/// A file is overwritten exactly when it exists and its first line does not
/// hold the checksum of the new content; what the first line of any other
/// file holds plays no part.
pub proof fn lemma_overwritten_iff_checksum_differs(
    existing_first_line: Option<Seq<char>>,
    content: Seq<char>,
    line_break: Seq<char>,
    plan: WritePlan,
)
    requires
        plan.is_plan_for(existing_first_line, content, line_break),
    ensures
        plan.result == FileWriteResult::Overwritten <==> existing_first_line is Some
            && embedded_hash(existing_first_line->0) != Some(checksum(content)),
        plan.result == FileWriteResult::Created <==> existing_first_line is None,
{
}

/// A second run on an unchanged document under an unchanged layout writes
/// nothing: the bootstrap file is left alone, even under another template, and
/// so are the two modules, provided their header lines can be read back.
pub proof fn lemma_second_run_writes_nothing(
    document: DocumentModel,
    existing: ExistingModel,
    template: Seq<char>,
    later_template: Seq<char>,
    indent: Seq<char>,
    line_break: Seq<char>,
    runtime: Seq<char>,
    first: FilePlan,
    second: FilePlan,
)
    requires
        first.is_plan_for(document, existing, template, indent, line_break, runtime),
        second.is_plan_for(
            document,
            files_after(existing, first),
            later_template,
            indent,
            line_break,
            runtime,
        ),
        header_survives(
            checksum(schema_text(document, indent, line_break, runtime)),
            line_break,
            schema_text(document, indent, line_break, runtime),
        ),
        header_survives(
            checksum(codec_text(document.inputs, document.outputs, indent, line_break, runtime)),
            line_break,
            codec_text(document.inputs, document.outputs, indent, line_break, runtime),
        ),
    ensures
        second.index is None,
        second.schema.result == FileWriteResult::NoChange,
        second.schema.text is None,
        second.codec.result == FileWriteResult::NoChange,
        second.codec.text is None,
{
    lemma_second_write_is_skipped(
        existing.schema_first_line,
        schema_text(document, indent, line_break, runtime),
        line_break,
        first.schema,
    );
    lemma_second_write_is_skipped(
        existing.codec_first_line,
        codec_text(document.inputs, document.outputs, indent, line_break, runtime),
        line_break,
        first.codec,
    );
}

/// A change of the document reaches a file only through the file's own text:
/// where the codec module has the same text for two documents, its plan is the
/// same, whatever became of the type-definitions module; and the
/// type-definitions module is overwritten exactly when it exists and its
/// header does not hold the checksum of its new text.
pub proof fn lemma_change_reaches_its_own_file(
    before: DocumentModel,
    after: DocumentModel,
    existing: ExistingModel,
    template: Seq<char>,
    indent: Seq<char>,
    line_break: Seq<char>,
    runtime: Seq<char>,
    old_plan: FilePlan,
    new_plan: FilePlan,
)
    requires
        old_plan.is_plan_for(before, existing, template, indent, line_break, runtime),
        new_plan.is_plan_for(after, existing, template, indent, line_break, runtime),
        codec_text(before.inputs, before.outputs, indent, line_break, runtime) == codec_text(
            after.inputs,
            after.outputs,
            indent,
            line_break,
            runtime,
        ),
    ensures
        new_plan.codec.result == old_plan.codec.result,
        new_plan.schema.result == FileWriteResult::Overwritten <==> existing.schema_first_line
            is Some && embedded_hash(existing.schema_first_line->0) != Some(
            checksum(schema_text(after, indent, line_break, runtime)),
        ),
{
}

/// Two runs on one document, under one layout and on the same output
/// directory, plan the same: the same results and, character for character,
/// the same texts, header lines included.
pub proof fn lemma_same_run_same_files(
    document: DocumentModel,
    existing: ExistingModel,
    template: Seq<char>,
    indent: Seq<char>,
    line_break: Seq<char>,
    runtime: Seq<char>,
    one: FilePlan,
    other: FilePlan,
)
    requires
        one.is_plan_for(document, existing, template, indent, line_break, runtime),
        other.is_plan_for(document, existing, template, indent, line_break, runtime),
    ensures
        stored_line_view(one.index) == stored_line_view(other.index),
        one.schema.result == other.schema.result,
        stored_line_view(one.schema.text) == stored_line_view(other.schema.text),
        one.codec.result == other.codec.result,
        stored_line_view(one.codec.text) == stored_line_view(other.codec.text),
{
}

} // verus!
