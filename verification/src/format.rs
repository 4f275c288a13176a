//! The text of the output: the block of each file, and the Markdown index.

use crate::paths::{extension, lowered, lowered_extension, text_of};
use crate::strip::{strip_spaces, stripped};
use crate::text::{join, texts};
use vstd::prelude::*;
use vstd::string::StringExecFns;

verus! {

/// The line that separates one block from what was written before it.
pub const SEPARATOR: &'static str = "\n\n// ===========================================\n";

/// What a header begins with, before the path.
pub const HEADER_OPEN: &'static str = "// File: ";

/// What stands between the path and the extension in a header or heading.
pub const LABEL_OPEN: &'static str = " (";

/// What a header ends with, behind the extension: the end of the line, a
/// rule, and an empty line.
pub const HEADER_CLOSE: &'static str = ")\n// ===========================================\n\n";

/// What stands for the extension of a file that has none.
pub const NO_EXTENSION: &'static str = "no extension";

/// The first lines of the Markdown index, up to the list of extensions.
pub const INDEX_OPEN: &'static str = "# Combined Files Structure\n\nIncluded extensions: ";

/// What separates two extensions in the head of the Markdown index.
pub const LIST_SEPARATOR: &'static str = ", ";

/// What ends the head of the Markdown index: the end of the line, and an
/// empty line.
pub const INDEX_CLOSE: &'static str = "\n\n";

/// What a heading of the Markdown index begins with, before the path.
pub const ENTRY_OPEN: &'static str = "## ";

/// What a heading of the Markdown index ends with, behind the extension.
pub const ENTRY_CLOSE: &'static str = ")\n";

/// One file that was selected: its path, its text, and its extension in
/// lowercase where it has one.
#[derive(Clone, Debug)]
pub struct SourceFile {
    /// The path of the file, as it is shown in headers.
    pub path: String,
    /// The whole text of the file.
    pub content: String,
    /// The extension of the file in lowercase, where it has one.
    pub extension: Option<String>,
}

/// The mathematical form of a `SourceFile`.
pub struct SourceFileView {
    pub path: Seq<char>,
    pub content: Seq<char>,
    pub extension: Option<Seq<char>>,
}

impl View for SourceFile {
    type V = SourceFileView;

    open spec fn view(&self) -> SourceFileView {
        SourceFileView {
            path: self.path@,
            content: self.content@,
            extension: text_of(self.extension),
        }
    }
}

impl SourceFile {
    /// Whether the extension that the file carries is the lowercase form of
    /// the extension of its path.
    pub open spec fn wf(&self) -> bool {
        self@.extension == lowered(extension(self@.path))
    }

    /// Makes the record of a file from its path and its text.
    pub fn new(path: String, content: String) -> (file: SourceFile)
        ensures
            file@.path == path@,
            file@.content == content@,
            file.wf(),
    {
        let extension = lowered_extension(path.as_str());
        SourceFile { path, content, extension }
    }
}

/// The views of a vector of files.
pub open spec fn views(files: Seq<SourceFile>) -> Seq<SourceFileView> {
    files.map_values(|f: SourceFile| f@)
}

/// How an extension is shown in a header.
pub open spec fn extension_label(ext: Option<Seq<char>>) -> Seq<char> {
    match ext {
        Some(e) => e,
        None => NO_EXTENSION@,
    }
}

/// The header of a file: a line that names its path and its extension, a
/// rule, and an empty line.
pub open spec fn header(file: SourceFileView) -> Seq<char> {
    HEADER_OPEN@ + file.path + LABEL_OPEN@ + extension_label(file.extension) + HEADER_CLOSE@
}

/// The text of a file as it is written: stripped where that was asked for,
/// unchanged otherwise.
pub open spec fn body(file: SourceFileView, strip: bool) -> Seq<char> {
    if strip {
        stripped(file.content)
    } else {
        file.content
    }
}

/// The block of a file: the separator, the header, the body.
pub open spec fn block(file: SourceFileView, strip: bool) -> Seq<char> {
    SEPARATOR@ + header(file) + body(file, strip)
}

/// The head of the Markdown index: its title and the list of extensions.
pub open spec fn index_head(extensions: Seq<Seq<char>>) -> Seq<char> {
    INDEX_OPEN@ + join(extensions, LIST_SEPARATOR@) + INDEX_CLOSE@
}

/// The heading of a file in the Markdown index. The index names the files
/// and repeats nothing of their text.
pub open spec fn index_entry(file: SourceFileView) -> Seq<char> {
    ENTRY_OPEN@ + file.path + LABEL_OPEN@ + extension_label(file.extension) + ENTRY_CLOSE@
}

/// Shows the extension of `file` as a header does.
pub fn label_of(file: &SourceFile) -> (label: &str)
    ensures
        label@ == extension_label(file@.extension),
{
    match &file.extension {
        Some(e) => e.as_str(),
        None => NO_EXTENSION,
    }
}

/// Writes the header of `file`.
pub fn render_header(file: &SourceFile) -> (out: String)
    ensures
        out@ == header(file@),
{
    let mut out = String::from_str(HEADER_OPEN);
    out.append(file.path.as_str());
    out.append(LABEL_OPEN);
    out.append(label_of(file));
    out.append(HEADER_CLOSE);
    out
}

/// Formats the text of `file`: stripped where `strip` is set, unchanged
/// otherwise.
pub fn render_body(file: &SourceFile, strip: bool) -> (out: String)
    ensures
        out@ == body(file@, strip),
{
    if strip {
        strip_spaces(file.content.as_str())
    } else {
        file.content.clone()
    }
}

/// Writes the block of `file`.
pub fn render_block(file: &SourceFile, strip: bool) -> (out: String)
    ensures
        out@ == block(file@, strip),
{
    let mut out = String::from_str(SEPARATOR);
    out.append(render_header(file).as_str());
    out.append(render_body(file, strip).as_str());
    out
}

/// Joins `parts` with `sep` between each two neighbours.
pub fn join_strings(parts: &Vec<String>, sep: &str) -> (out: String)
    ensures
        out@ == join(texts(parts@), sep@),
{
    let mut out = String::new();
    let mut i: usize = 0;
    while i < parts.len()
        invariant
            i <= parts.len(),
            out@ == join(texts(parts@).take(i as int), sep@),
        decreases parts.len() - i,
    {
        proof {
            assert(texts(parts@).take(i + 1).drop_last() == texts(parts@).take(i as int));
        }
        if i > 0 {
            out.append(sep);
        }
        out.append(parts[i].as_str());
        i += 1;
    }
    proof {
        assert(texts(parts@).take(i as int) == texts(parts@));
    }
    out
}

/// Writes the head of the Markdown index.
pub fn render_index_head(extensions: &Vec<String>) -> (out: String)
    ensures
        out@ == index_head(texts(extensions@)),
{
    let mut out = String::from_str(INDEX_OPEN);
    out.append(join_strings(extensions, LIST_SEPARATOR).as_str());
    out.append(INDEX_CLOSE);
    out
}

/// Writes the heading of `file` in the Markdown index.
pub fn render_index_entry(file: &SourceFile) -> (out: String)
    ensures
        out@ == index_entry(file@),
{
    let mut out = String::from_str(ENTRY_OPEN);
    out.append(file.path.as_str());
    out.append(LABEL_OPEN);
    out.append(label_of(file));
    out.append(ENTRY_CLOSE);
    out
}

} // verus!
