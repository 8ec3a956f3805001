//! Document parsing pipeline: choosing a parser by file extension and
//! assembling parsed documents from what the readers return.
//!
//! Paths are carried as strings; reading files and running the PDF tools is
//! done by the caller, which hands the results to the functions here.
use vstd::prelude::*;

use crate::asr_catalog::{join_path, path_join};
use crate::project::{extension_of, path_extension};
use crate::text::{ascii_lower_str, ascii_lowercase, chars_eq, chars_of, trim, trimmed};

verus! {

/// The kind of document a parser handles.
#[derive(Debug, Clone, Copy, PartialEq, Eq, Structural)]
pub enum DocKind {
    Markdown,
    Text,
    Pdf,
    Image,
    Other,
}

/// A parsed document: its pages, its blocks, a title and the page count.
#[derive(Debug, Clone, Default)]
pub struct ParsedDoc {
    pub pages: Vec<ParsedPage>,
    pub blocks: Vec<ParsedBlock>,
    pub title: Option<String>,
    pub page_count: usize,
}

/// One page: its number (from 1), its text and, for rendered pages, the path
/// of the page image.
#[derive(Debug, Clone)]
pub struct ParsedPage {
    pub page_no: u32,
    pub text: String,
    pub image_path: Option<String>,
}

/// A block that may span pages.
#[derive(Debug, Clone)]
pub enum ParsedBlock {
    Table { text: String, table_json: Option<String> },
    Image { path: String, caption: Option<String> },
    Text { text: String },
}

/// A parser of one kind of document.
pub trait DocumentParser {
    /// The kind of document this parser handles.
    fn kind(&self) -> DocKind;
}

/// Parser for plain text and text-like formats.
#[derive(Debug, Clone, Copy)]
pub struct TextParser;

/// Parser for PDF files (text layer first, rendered pages as fallback).
#[derive(Debug, Clone, Copy)]
pub struct PdfParser;

impl DocumentParser for TextParser {
    fn kind(&self) -> (k: DocKind)
        ensures
            k == DocKind::Text,
    {
        DocKind::Text
    }
}

impl DocumentParser for PdfParser {
    fn kind(&self) -> (k: DocKind)
        ensures
            k == DocKind::Pdf,
    {
        DocKind::Pdf
    }
}

/// The parser chosen for a file.
#[derive(Debug, Clone, Copy)]
pub enum SelectedParser {
    Text(TextParser),
    Pdf(PdfParser),
}

impl DocumentParser for SelectedParser {
    fn kind(&self) -> (k: DocKind)
        ensures
            k == match self {
                SelectedParser::Text(_) => DocKind::Text,
                SelectedParser::Pdf(_) => DocKind::Pdf,
            },
    {
        match self {
            SelectedParser::Text(p) => p.kind(),
            SelectedParser::Pdf(p) => p.kind(),
        }
    }
}

/// A file goes to the PDF parser when its extension, ASCII-lowercased, is
/// `pdf`; every other file is tried as text.
pub open spec fn is_pdf_path(path: Seq<char>) -> bool {
    match path_extension(path) {
        Some(e) => ascii_lower_str(e) == "pdf"@,
        None => false,
    }
}

/// The parser for an extension (as found): PDF for `pdf` in any ASCII case,
/// text otherwise.
pub fn parser_for_extension(ext: Option<&str>) -> (r: SelectedParser)
    ensures
        (r is Pdf) == match ext {
            Some(e) => ascii_lower_str(e@) == "pdf"@,
            None => false,
        },
{
    match ext {
        None => SelectedParser::Text(TextParser),
        Some(e) => {
            let lower = ascii_lowercase(e);
            let pdf = chars_of("pdf");
            if chars_eq(&lower, &pdf) {
                SelectedParser::Pdf(PdfParser)
            } else {
                SelectedParser::Text(TextParser)
            }
        },
    }
}

/// Chooses the parser for the file at `path` by its extension.
pub fn parser_for(path: &str) -> (r: SelectedParser)
    ensures
        (r is Pdf) == is_pdf_path(path@),
{
    match extension_of(path) {
        Some(e) => parser_for_extension(Some(e.as_str())),
        None => parser_for_extension(None),
    }
}

/// The document of a text file: one page and one text block holding the
/// whole text.
pub fn text_document(text: String, title: Option<String>) -> (d: ParsedDoc)
    ensures
        d.pages@.len() == 1,
        d.pages@[0].page_no == 1,
        d.pages@[0].text@ == text@,
        d.pages@[0].image_path is None,
        d.blocks@.len() == 1,
        d.blocks@[0] is Text && d.blocks@[0]->Text_text@ == text@,
        d.title == title,
        d.page_count == 1,
{
    let copy = text.clone();
    let mut pages: Vec<ParsedPage> = Vec::new();
    pages.push(ParsedPage { page_no: 1, text: copy, image_path: None });
    let mut blocks: Vec<ParsedBlock> = Vec::new();
    blocks.push(ParsedBlock::Text { text });
    ParsedDoc { pages, blocks, title, page_count: 1 }
}

/// The page numbers (from 1) of the pages whose text is not blank.
pub open spec fn text_page_numbers(pages: Seq<Seq<char>>) -> Seq<nat>
    decreases pages.len(),
{
    if pages.len() == 0 {
        seq![]
    } else if trim(pages.last()).len() > 0 {
        text_page_numbers(pages.drop_last()).push(pages.len())
    } else {
        text_page_numbers(pages.drop_last())
    }
}

/// The document of a PDF's text layer, given the text of each page: the
/// non-blank pages, numbered by their place in the file, each also a text
/// block; `None` when every page is blank (a scanned PDF).
pub fn pdf_text_document(pages: Vec<String>, title: Option<String>) -> (r: Option<ParsedDoc>)
    requires
        pages@.len() <= u32::MAX,
    ensures
        match r {
            None => text_page_numbers(pages@.map_values(|p: String| p@)).len() == 0,
            Some(d) => {
                let nums = text_page_numbers(pages@.map_values(|p: String| p@));
                &&& nums.len() > 0
                &&& d.pages@.len() == nums.len()
                &&& d.blocks@.len() == nums.len()
                &&& forall|i: int|
                    #![trigger d.pages@[i]]
                    0 <= i < nums.len() ==> {
                        &&& d.pages@[i].page_no == nums[i]
                        &&& d.pages@[i].text@ == pages@[nums[i] - 1]@
                        &&& d.pages@[i].image_path is None
                        &&& d.blocks@[i] is Text && d.blocks@[i]->Text_text@ == pages@[nums[i] - 1]@
                    }
                &&& d.title == title
                &&& d.page_count == pages@.len()
            },
        },
{
    let ghost views = pages@.map_values(|p: String| p@);
    let mut out_pages: Vec<ParsedPage> = Vec::new();
    let mut blocks: Vec<ParsedBlock> = Vec::new();
    let mut i: usize = 0;
    while i < pages.len()
        invariant
            i <= pages@.len() <= u32::MAX,
            views == pages@.map_values(|p: String| p@),
            out_pages@.len() == text_page_numbers(views.take(i as int)).len(),
            blocks@.len() == out_pages@.len(),
            forall|k: int|
                #![trigger out_pages@[k]]
                0 <= k < out_pages@.len() ==> {
                    let nums = text_page_numbers(views.take(i as int));
                    &&& 1 <= nums[k] <= i
                    &&& out_pages@[k].page_no == nums[k]
                    &&& out_pages@[k].text@ == pages@[nums[k] - 1]@
                    &&& out_pages@[k].image_path is None
                    &&& blocks@[k] is Text && blocks@[k]->Text_text@ == pages@[nums[k] - 1]@
                },
        decreases pages@.len() - i,
    {
        assert(views.take(i + 1).drop_last() =~= views.take(i as int));
        let ghost old_nums = text_page_numbers(views.take(i as int));
        let ghost new_nums = text_page_numbers(views.take(i + 1));
        assert(views.take(i + 1).last() == pages@[i as int]@);
        let ghost old_out = out_pages@;
        let ghost old_blocks = blocks@;
        let cs = chars_of(pages[i].as_str());
        let t = trimmed(&cs);
        if t.len() > 0 {
            let text = pages[i].clone();
            let text2 = pages[i].clone();
            out_pages.push(ParsedPage { page_no: (i + 1) as u32, text, image_path: None });
            blocks.push(ParsedBlock::Text { text: text2 });
            assert(new_nums == old_nums.push((i + 1) as nat));
        } else {
            assert(new_nums == old_nums);
        }
        i += 1;
        assert(new_nums == text_page_numbers(views.take(i as int)));
        assert forall|k: int| #![trigger out_pages@[k]] 0 <= k < out_pages@.len() implies {
            &&& 1 <= new_nums[k] <= i
            &&& out_pages@[k].page_no == new_nums[k]
            &&& out_pages@[k].text@ == pages@[new_nums[k] - 1]@
            &&& out_pages@[k].image_path is None
            &&& blocks@[k] is Text && blocks@[k]->Text_text@ == pages@[new_nums[k] - 1]@
        } by {
            if k < old_nums.len() {
                assert(new_nums[k] == old_nums[k]);
                assert(out_pages@[k] == old_out[k]);
                assert(blocks@[k] == old_blocks[k]);
                assert(old_out[k] == old_out[k]);
            }
        }
    }
    assert(views.take(pages@.len() as int) =~= views);
    if out_pages.len() == 0 {
        return None;
    }
    Some(ParsedDoc { pages: out_pages, blocks, title, page_count: pages.len() })
}

/// Detected PDF page renderer: the path of the `pdfium` executable.
#[derive(Debug, Clone)]
pub struct PdfPageRenderer {
    pub pdfium: String,
}

/// The file names that are page images (`png` or `jpg` extension).
pub open spec fn is_page_image(name: Seq<char>) -> bool {
    path_extension(name) == Some("png"@) || path_extension(name) == Some("jpg"@)
}

/// The rendered pages among the files a renderer wrote, numbered from 1 in
/// the order given.
pub open spec fn image_pages(files: Seq<Seq<char>>) -> Seq<Seq<char>>
    decreases files.len(),
{
    if files.len() == 0 {
        seq![]
    } else if is_page_image(files.last()) {
        image_pages(files.drop_last()).push(files.last())
    } else {
        image_pages(files.drop_last())
    }
}

impl PdfPageRenderer {
    /// Pages for the files the renderer wrote (in directory order): each
    /// `png` or `jpg` file is a page without text, numbered from 1.
    pub fn pages_from_files(files: Vec<String>) -> (r: Vec<ParsedPage>)
        requires
            files@.len() <= u32::MAX,
        ensures
            r@.len() == image_pages(files@.map_values(|f: String| f@)).len(),
            forall|i: int|
                #![trigger r@[i]]
                0 <= i < r@.len() ==> {
                    &&& r@[i].page_no == i + 1
                    &&& r@[i].text@.len() == 0
                    &&& r@[i].image_path.is_some() && r@[i].image_path.unwrap()@ == image_pages(
                        files@.map_values(|f: String| f@),
                    )[i]
                },
    {
        let ghost views = files@.map_values(|f: String| f@);
        let mut out: Vec<ParsedPage> = Vec::new();
        let mut i: usize = 0;
        while i < files.len()
            invariant
                i <= files@.len() <= u32::MAX,
                views == files@.map_values(|f: String| f@),
                out@.len() == image_pages(views.take(i as int)).len(),
                out@.len() <= i,
                forall|k: int|
                    #![trigger out@[k]]
                    0 <= k < out@.len() ==> {
                        &&& out@[k].page_no == k + 1
                        &&& out@[k].text@.len() == 0
                        &&& out@[k].image_path.is_some() && out@[k].image_path.unwrap()@ == image_pages(views.take(i as int))[k]
                    },
            decreases files@.len() - i,
        {
            assert(views.take(i + 1).drop_last() =~= views.take(i as int));
            let ext = extension_of(files[i].as_str());
            let is_img = match ext {
                Some(e) => {
                    let ec = chars_of(e.as_str());
                    let png = chars_of("png");
                    let jpg = chars_of("jpg");
                    chars_eq(&ec, &png) || chars_eq(&ec, &jpg)
                },
                None => false,
            };
            let ghost old_pages = image_pages(views.take(i as int));
            let ghost old_out = out@;
            let ghost new_pages = image_pages(views.take(i + 1));
            assert(views.take(i + 1).last() == files@[i as int]@);
            if is_img {
                let n = out.len();
                out.push(
                    ParsedPage {
                        page_no: (n + 1) as u32,
                        text: String::new(),
                        image_path: Some(files[i].clone()),
                    },
                );
                assert(new_pages == old_pages.push(files@[i as int]@));
            } else {
                assert(new_pages == old_pages);
            }
            i += 1;
            assert(new_pages == image_pages(views.take(i as int)));
            assert forall|k: int| #![trigger out@[k]] 0 <= k < out@.len() implies {
                &&& out@[k].page_no == k + 1
                &&& out@[k].text@.len() == 0
                &&& out@[k].image_path.is_some() && out@[k].image_path.unwrap()@ == new_pages[k]
            } by {
                if k < old_pages.len() {
                    assert(new_pages[k] == old_pages[k]);
                    assert(out@[k] == old_out[k]);
                    assert(old_out[k] == old_out[k]);
                }
            }
        }
        assert(views.take(files@.len() as int) =~= views);
        out
    }

    /// Where to look for the `pdfium` tool: each directory of the search
    /// path joined with `pdfium`, then each joined with `pdfium.exe`.
    pub fn pdfium_candidates(path_dirs: &Vec<String>) -> (r: Vec<String>)
        requires
            path_dirs@.len() * 2 <= usize::MAX,
        ensures
            r@.len() == 2 * path_dirs@.len(),
            forall|k: int|
                0 <= k < path_dirs@.len() ==> #[trigger] r@[k]@ == path_join(path_dirs@[k]@, "pdfium"@),
            forall|k: int|
                0 <= k < path_dirs@.len() ==> #[trigger] r@[path_dirs@.len() + k]@ == path_join(
                    path_dirs@[k]@,
                    "pdfium.exe"@,
                ),
    {
        let n = path_dirs.len();
        let mut out: Vec<String> = Vec::new();
        let mut i: usize = 0;
        while i < n
            invariant
                n == path_dirs@.len(),
                i <= n,
                out@.len() == i,
                forall|k: int| 0 <= k < i ==> #[trigger] out@[k]@ == path_join(path_dirs@[k]@, "pdfium"@),
            decreases n - i,
        {
            out.push(join_path(path_dirs[i].as_str(), "pdfium"));
            i += 1;
        }
        let mut j: usize = 0;
        while j < n
            invariant
                n == path_dirs@.len(),
                n * 2 <= usize::MAX,
                j <= n,
                out@.len() == n + j,
                forall|k: int| 0 <= k < n ==> #[trigger] out@[k]@ == path_join(path_dirs@[k]@, "pdfium"@),
                forall|k: int|
                    0 <= k < j ==> #[trigger] out@[n + k]@ == path_join(path_dirs@[k]@, "pdfium.exe"@),
            decreases n - j,
        {
            out.push(join_path(path_dirs[j].as_str(), "pdfium.exe"));
            proof {
                assert(out@[n + j as int]@ == path_join(path_dirs@[j as int]@, "pdfium.exe"@));
            }
            j += 1;
        }
        out
    }

    /// The renderer for the first candidate that is an existing file
    /// (`present[i]` tells whether `candidates[i]` is one), if any.
    pub fn detect(candidates: &Vec<String>, present: &Vec<bool>) -> (r: Option<PdfPageRenderer>)
        requires
            present@.len() == candidates@.len(),
        ensures
            match r {
                None => forall|i: int| 0 <= i < present@.len() ==> !#[trigger] present@[i],
                Some(p) => exists|i: int|
                    0 <= i < present@.len() && #[trigger] present@[i] && p.pdfium@ == candidates@[i]@
                        && forall|j: int| 0 <= j < i ==> !present@[j],
            },
    {
        let mut i: usize = 0;
        while i < present.len()
            invariant
                present@.len() == candidates@.len(),
                i <= present@.len(),
                forall|j: int| 0 <= j < i ==> !#[trigger] present@[j],
            decreases present@.len() - i,
        {
            if present[i] {
                return Some(PdfPageRenderer { pdfium: candidates[i].clone() });
            }
            i += 1;
        }
        None
    }
}

} // verus!
