//! The run over the selected files: the text that is written, the Markdown
//! index, the count of characters and the estimate of tokens.

use crate::chars::{from_chars, to_chars};
use crate::config::{Config, ConfigView};
use crate::format::{
    block, body, header, index_entry, index_head, render_body, render_header,
    render_index_entry, render_index_head, views, SourceFile, SourceFileView, SEPARATOR,
};
use crate::text::push_all;
use vstd::prelude::*;
use vstd::string::StringExecFns;

verus! {

/// The text of the output: the blocks of the files, in order.
pub open spec fn output_text(files: Seq<SourceFileView>, strip: bool) -> Seq<char> {
    files.map_values(|f: SourceFileView| block(f, strip)).flatten()
}

/// The Markdown index: its head, then one heading for each file, in order.
pub open spec fn output_index(files: Seq<SourceFileView>, extensions: Seq<Seq<char>>) -> Seq<
    char,
> {
    index_head(extensions) + files.map_values(|f: SourceFileView| index_entry(f)).flatten()
}

/// The number of characters in the bodies of the files as they are written:
/// the length of all bodies together. Separators and headers are not
/// counted.
pub open spec fn total_chars(files: Seq<SourceFileView>, strip: bool) -> nat {
    files.map_values(|f: SourceFileView| body(f, strip)).flatten().len()
}

/// The estimate of tokens for a number of characters: a quarter of it,
/// rounded down.
pub open spec fn tokens_for(chars: nat) -> nat {
    chars / 4
}

/// What a run over no files says.
pub const NO_MATCHING_FILES: &'static str = "No matching files found in the specified path";

/// Why a run ends without output.
#[derive(Clone, Copy, Debug, PartialEq, Eq, Structural)]
pub enum ConcatError {
    /// No file was selected.
    NoMatchingFiles,
}

impl ConcatError {
    /// What the error says to the user.
    pub open spec fn text(self) -> Seq<char> {
        NO_MATCHING_FILES@
    }

    /// Words the error for the user.
    pub fn message(&self) -> (out: String)
        ensures
            out@ == self.text(),
    {
        String::from_str(NO_MATCHING_FILES)
    }
}

/// What a run over the selected files gives.
#[derive(Clone, Debug)]
pub struct Report {
    /// The text of the primary output.
    pub text: String,
    /// The text of the Markdown index.
    pub markdown: String,
    /// The number of characters in the bodies that were written.
    pub total_chars: usize,
    /// The estimate of tokens, where one was asked for.
    pub estimated_tokens: Option<usize>,
}

/// The directory that the output is written to, relative to the working
/// directory.
pub const OUTPUT_DIR: &'static str = "tmp";

/// What the name of the primary output ends with.
pub const TEXT_SUFFIX: &'static str = ".txt";

/// What the name of the Markdown index ends with.
pub const INDEX_SUFFIX: &'static str = ".md";

/// The path of the primary output for an output name.
pub open spec fn text_path(name: Seq<char>) -> Seq<char> {
    OUTPUT_DIR@ + "/"@ + name + TEXT_SUFFIX@
}

/// The path of the Markdown index for an output name.
pub open spec fn index_path(name: Seq<char>) -> Seq<char> {
    OUTPUT_DIR@ + "/"@ + name + INDEX_SUFFIX@
}

/// Whether `report` is what a run over `files` under `cfg` gives.
pub open spec fn is_report_of(report: Report, files: Seq<SourceFileView>, cfg: ConfigView) -> bool {
    &&& report.text@ == output_text(files, cfg.strip_spaces)
    &&& report.markdown@ == output_index(files, cfg.extensions)
    &&& report.total_chars == total_chars(files, cfg.strip_spaces)
    &&& report.estimated_tokens == if cfg.estimate_tokens {
        Some(tokens_for(total_chars(files, cfg.strip_spaces)) as usize)
    } else {
        None
    }
}

/// Names the two output files for an output name.
pub fn output_paths(name: &str) -> (paths: (String, String))
    ensures
        paths.0@ == text_path(name@),
        paths.1@ == index_path(name@),
{
    let mut text = String::from_str(OUTPUT_DIR);
    text.append("/");
    text.append(name);
    let mut index = text.clone();
    text.append(TEXT_SUFFIX);
    index.append(INDEX_SUFFIX);
    (text, index)
}

/// Estimates the number of tokens in `chars` characters.
pub fn estimate_tokens(chars: usize) -> (tokens: usize)
    ensures
        tokens == tokens_for(chars as nat),
{
    chars / 4
}

/// How the text of the output grows with one more file.
proof fn lemma_output_text_push(files: Seq<SourceFileView>, file: SourceFileView, strip: bool)
    ensures
        output_text(files.push(file), strip) == output_text(files, strip) + block(file, strip),
{
    let blocks = files.map_values(|f: SourceFileView| block(f, strip));
    assert(files.push(file).map_values(|f: SourceFileView| block(f, strip)) == blocks.push(
        block(file, strip),
    ));
    blocks.lemma_flatten_push(block(file, strip));
}

/// How the Markdown index grows with one more file.
proof fn lemma_output_index_push(
    files: Seq<SourceFileView>,
    file: SourceFileView,
    extensions: Seq<Seq<char>>,
)
    ensures
        output_index(files.push(file), extensions) == output_index(files, extensions)
            + index_entry(file),
{
    let entries = files.map_values(|f: SourceFileView| index_entry(f));
    assert(files.push(file).map_values(|f: SourceFileView| index_entry(f)) == entries.push(
        index_entry(file),
    ));
    entries.lemma_flatten_push(index_entry(file));
}

/// How the count of characters grows with one more file.
proof fn lemma_total_chars_push(files: Seq<SourceFileView>, file: SourceFileView, strip: bool)
    ensures
        total_chars(files.push(file), strip) == total_chars(files, strip) + body(file, strip).len(),
{
    let bodies = files.map_values(|f: SourceFileView| body(f, strip));
    assert(files.push(file).map_values(|f: SourceFileView| body(f, strip)) == bodies.push(
        body(file, strip),
    ));
    bodies.lemma_flatten_push(body(file, strip));
}

/// The text of the output holds the block of every file at its place: what
/// was written for the files before it, then the separator, the header of
/// the file and its body, then what was written for the files after it.
pub proof fn lemma_block_in_place(files: Seq<SourceFileView>, strip: bool, i: int)
    requires
        0 <= i < files.len(),
    ensures
        output_text(files, strip) == output_text(files.take(i), strip) + (SEPARATOR@ + header(
            files[i],
        ) + body(files[i], strip)) + output_text(files.skip(i + 1), strip),
{
    let blocks = files.map_values(|f: SourceFileView| block(f, strip));
    let before = files.take(i).map_values(|f: SourceFileView| block(f, strip));
    let after = files.skip(i + 1).map_values(|f: SourceFileView| block(f, strip));
    assert(blocks == before.push(block(files[i], strip)) + after);
    vstd::seq_lib::lemma_flatten_concat(before.push(block(files[i], strip)), after);
    before.lemma_flatten_push(block(files[i], strip));
}

/// A run is fixed by what it is given: two reports of runs over the same
/// files under the same configuration agree in every part.
pub proof fn lemma_report_is_fixed(
    first: Report,
    second: Report,
    files: Seq<SourceFileView>,
    cfg: ConfigView,
)
    requires
        is_report_of(first, files, cfg),
        is_report_of(second, files, cfg),
    ensures
        first.text@ == second.text@,
        first.markdown@ == second.markdown@,
        first.total_chars == second.total_chars,
        first.estimated_tokens == second.estimated_tokens,
{
}

/// Runs over the selected files: writes the block of each to the text,
/// its heading to the Markdown index, and counts the characters of the
/// bodies. A run over no files fails.
pub fn concatenate(files: &Vec<SourceFile>, cfg: &Config) -> (result: Result<Report, ConcatError>)
    ensures
        result is Err <==> files.len() == 0,
        result is Err ==> result->Err_0 == ConcatError::NoMatchingFiles,
        result is Ok ==> is_report_of(result->Ok_0, views(files@), cfg@),
{
    if files.len() == 0 {
        return Err(ConcatError::NoMatchingFiles);
    }
    let strip = cfg.strip_spaces;
    let separator = to_chars(SEPARATOR);
    let mut text: Vec<char> = Vec::new();
    let mut markdown = render_index_head(&cfg.extensions);
    let mut total: usize = 0;
    let mut i: usize = 0;
    while i < files.len()
        invariant
            i <= files.len(),
            strip == cfg.strip_spaces,
            separator@ == SEPARATOR@,
            text@ == output_text(views(files@).take(i as int), strip),
            markdown@ == output_index(views(files@).take(i as int), cfg@.extensions),
            total == total_chars(views(files@).take(i as int), strip),
            total <= text@.len(),
        decreases files.len() - i,
    {
        let file = &files[i];
        let head = to_chars(render_header(file).as_str());
        let content = to_chars(render_body(file, strip).as_str());
        proof {
            let done = views(files@).take(i as int);
            assert(views(files@).take(i + 1) == done.push(file@));
            lemma_total_chars_push(done, file@, strip);
            lemma_output_text_push(done, file@, strip);
            lemma_output_index_push(done, file@, cfg@.extensions);
        }
        push_all(&mut text, &separator);
        push_all(&mut text, &head);
        push_all(&mut text, &content);
        assert(total + content@.len() <= text@.len() <= usize::MAX) by {
            assert(text@.len() == text.len());
        }
        total = total + content.len();
        markdown.append(render_index_entry(file).as_str());
        i += 1;
    }
    proof {
        assert(views(files@).take(i as int) == views(files@));
    }
    let estimated_tokens = if cfg.estimate_tokens {
        Some(estimate_tokens(total))
    } else {
        None
    };
    Ok(Report { text: from_chars(&text), markdown, total_chars: total, estimated_tokens })
}

} // verus!
