//! PDF document reading: page texts, text lines and document information,
//! taken from a document that lopdf has loaded.
use vstd::prelude::*;
use vstd::string::*;
use vstd::utf8::*;
use crate::text::{
    bytes, bytes_seq, lines, lines_of, all_ws, is_blank, word_count, count_words, decimal,
    push_decimal, shows, lemma_shows_self, lemma_shows_within,
};
use crate::docx_parser::{chars, utf8, line_if, min_int};

verus! {

broadcast use vstd::utf8::encode_utf8_valid_utf8;

// ---------------------------------------------------------------------------
// lopdf
// ---------------------------------------------------------------------------

#[verifier::external_type_specification]
#[verifier::external_body]
pub struct ExPdfDocument(lopdf::Document);

#[verifier::external_type_specification]
#[verifier::external_body]
pub struct ExPdfObject(lopdf::Object);

#[verifier::external_type_specification]
#[verifier::external_body]
pub struct ExPdfDictionary(lopdf::Dictionary);

/// What lopdf makes of the bytes of a PDF file: the document, or the text of
/// its error.
pub uninterp spec fn pdf_loaded(data: Seq<u8>) -> Result<lopdf::Document, Seq<char>>;

/// `lopdf::Document::load_mem`: parses the bytes of a PDF file, giving the
/// document or lopdf's error as text. The document is a function of the
/// bytes, named and not spelled out.
#[verifier::external_body]
fn load_pdf(data: &[u8]) -> (r: Result<lopdf::Document, String>)
    ensures
        match r {
            Ok(d) => pdf_loaded(data@) == Ok::<lopdf::Document, Seq<char>>(d),
            Err(e) => pdf_loaded(data@) == Err::<lopdf::Document, Seq<char>>(e@),
        },
{
    lopdf::Document::load_mem(data).map_err(|e| e.to_string())
}

/// The page numbers lopdf finds in a document (the keys of `get_pages`).
pub uninterp spec fn pdf_page_numbers(doc: lopdf::Document) -> Seq<u32>;

/// `lopdf::Document::get_pages`, keys only: the page numbers of the document,
/// in the ascending order of the map that holds them. lopdf numbers the pages
/// it finds 1, 2, 3, ... in the order of the page tree (unless there are more
/// than `u32::MAX` of them); which pages it finds is named, not spelled out.
#[verifier::external_body]
fn page_numbers(doc: &lopdf::Document) -> (r: Vec<u32>)
    ensures
        r@ == pdf_page_numbers(*doc),
        forall|i: int, j: int| 0 <= i < j < r@.len() ==> r@[i] < r@[j],
        r@.len() <= u32::MAX ==> forall|i: int| 0 <= i < r@.len() ==> r@[i] == i + 1,
{
    doc.get_pages().keys().copied().collect()
}

/// The text lopdf extracts from one page of a document, `None` where it
/// reports an error.
pub uninterp spec fn pdf_page_text(doc: lopdf::Document, page: u32) -> Option<Seq<char>>;

/// The characters of an optional string.
pub open spec fn opt_text(s: Option<String>) -> Option<Seq<char>> {
    match s {
        Some(x) => Some(x@),
        None => None,
    }
}

/// `lopdf::Document::extract_text` for one page; `None` where lopdf reports an
/// error. The text is a function of the document and the page number, named
/// and not spelled out.
#[verifier::external_body]
fn page_text(doc: &lopdf::Document, page: u32) -> (r: Option<String>)
    ensures
        opt_text(r) == pdf_page_text(*doc, page),
{
    doc.extract_text(&[page]).ok()
}

/// The trailer dictionary of a document.
pub uninterp spec fn pdf_trailer(doc: lopdf::Document) -> lopdf::Dictionary;

/// The trailer dictionary of a document (the `trailer` field of
/// `lopdf::Document`).
#[verifier::external_body]
fn trailer(doc: &lopdf::Document) -> (r: &lopdf::Dictionary)
    ensures
        *r == pdf_trailer(*doc),
{
    &doc.trailer
}

/// The entry of a dictionary under a key, if it has one.
pub uninterp spec fn dictionary_entry(d: lopdf::Dictionary, key: Seq<u8>) -> Option<lopdf::Object>;

/// `lopdf::Dictionary::get`: the entry under the key; `None` where the key is
/// missing.
#[verifier::external_body]
fn dictionary_get<'a>(d: &'a lopdf::Dictionary, key: &[u8]) -> (r: Option<&'a lopdf::Object>)
    ensures
        match r {
            Some(o) => dictionary_entry(*d, key@) == Some(*o),
            None => dictionary_entry(*d, key@) is None,
        },
{
    d.get(key).ok()
}

/// The object id an object refers to, if it is a reference.
pub uninterp spec fn object_reference_id(o: lopdf::Object) -> Option<(u32, u16)>;

/// `lopdf::Object::as_reference`; `None` where the object is no reference.
#[verifier::external_body]
fn object_reference(o: &lopdf::Object) -> (r: Option<(u32, u16)>)
    ensures
        r == object_reference_id(*o),
{
    o.as_reference().ok()
}

/// The dictionary a document holds under an object id, if it holds one there.
pub uninterp spec fn document_dictionary_at(doc: lopdf::Document, id: (u32, u16)) -> Option<lopdf::Dictionary>;

/// `lopdf::Document::get_dictionary`; `None` where no dictionary has that id.
#[verifier::external_body]
fn document_dictionary<'a>(doc: &'a lopdf::Document, id: (u32, u16)) -> (r: Option<
    &'a lopdf::Dictionary,
>)
    ensures
        match r {
            Some(d) => document_dictionary_at(*doc, id) == Some(*d),
            None => document_dictionary_at(*doc, id) is None,
        },
{
    doc.get_dictionary(id).ok()
}

/// The bytes of a string object; `None` for other objects.
pub uninterp spec fn object_string(o: lopdf::Object) -> Option<Seq<u8>>;

/// The bytes of an optional slice.
pub open spec fn opt_slice(b: Option<&[u8]>) -> Option<Seq<u8>> {
    match b {
        Some(x) => Some(x@),
        None => None,
    }
}

/// `lopdf::Object::as_str`: the bytes of a string object; `None` for other objects.
#[verifier::external_body]
fn object_string_bytes(o: &lopdf::Object) -> (r: Option<&[u8]>)
    ensures
        opt_slice(r) == object_string(*o),
{
    o.as_str().ok()
}

/// What `String::from_utf8_lossy` makes of `b`: its text, with each invalid
/// sequence replaced by U+FFFD.
pub uninterp spec fn utf8_lossy(b: Seq<u8>) -> Seq<char>;

/// `String::from_utf8_lossy`: valid UTF-8 comes back as the text it encodes;
/// the replacement of invalid sequences is named, not spelled out.
#[verifier::external_body]
fn lossy_text(b: &[u8]) -> (r: String)
    ensures
        r@ == utf8_lossy(b@),
        valid_utf8(b@) ==> r@ == decode_utf8(b@),
{
    String::from_utf8_lossy(b).to_string()
}

// ---------------------------------------------------------------------------
// Types
// ---------------------------------------------------------------------------

/// A non-blank line of a page, with its position among the page's lines
/// (the line drawn at `12 * line` points from the top).
#[derive(Clone, Debug)]
pub struct PageTextBlock {
    pub text: String,
    pub line: usize,
}

/// A page and its text.
#[derive(Clone, Debug)]
pub struct PdfPage {
    pub page_number: usize,
    pub text: String,
    pub text_with_layout: Vec<PageTextBlock>,
}

/// Document information and counts.
#[derive(Clone, Debug)]
pub struct PdfMetadata {
    pub title: Option<String>,
    pub author: Option<String>,
    pub subject: Option<String>,
    pub creator: Option<String>,
    pub page_count: usize,
    pub word_count: usize,
}

/// A font the document uses.
#[derive(Clone, Debug)]
pub struct PdfFontInfo {
    pub name: String,
    pub subtype: Option<String>,
    pub base_font: Option<String>,
}

/// A PDF document's pages, information and fonts.
#[derive(Clone, Debug)]
pub struct PdfDocument {
    pub pages: Vec<PdfPage>,
    pub metadata: PdfMetadata,
    pub fonts: Vec<PdfFontInfo>,
}

// ---------------------------------------------------------------------------
// Assembling a document from its page texts
// ---------------------------------------------------------------------------

/// The bytes of a block.
pub struct BlockModel {
    pub line: int,
    pub text: Seq<u8>,
}

impl View for PageTextBlock {
    type V = BlockModel;

    open spec fn view(&self) -> BlockModel {
        BlockModel { line: self.line as int, text: utf8(self.text) }
    }
}

/// The models of blocks.
pub open spec fn blocks_view(v: Seq<PageTextBlock>) -> Seq<BlockModel> {
    v.map_values(|b: PageTextBlock| b@)
}

/// The non-blank lines among the first `k` of `ls`, with their positions.
pub open spec fn layout_from(ls: Seq<Seq<u8>>, k: int) -> Seq<BlockModel>
    decreases k,
{
    if k <= 0 {
        Seq::empty()
    } else {
        let acc = layout_from(ls, k - 1);
        if all_ws(chars(ls[k - 1])) {
            acc
        } else {
            acc.push(BlockModel { line: k - 1, text: ls[k - 1] })
        }
    }
}

/// The non-blank lines of a page's text, with their positions.
pub open spec fn layout(text: Seq<u8>) -> Seq<BlockModel> {
    layout_from(lines(text), lines(text).len() as int)
}

/// The number of words of the texts of all the pages.
pub open spec fn pages_words(ps: Seq<(u32, String)>) -> nat
    decreases ps.len(),
{
    if ps.len() == 0 {
        0
    } else {
        pages_words(ps.drop_last()) + word_count(ps.last().1@)
    }
}

/// The number of words of all the pages of a document.
pub open spec fn document_words(ps: Seq<PdfPage>) -> nat
    decreases ps.len(),
{
    if ps.len() == 0 {
        0
    } else {
        document_words(ps.drop_last()) + word_count(ps.last().text@)
    }
}

fn page_layout(text: &String) -> (r: Vec<PageTextBlock>)
    ensures
        blocks_view(r@) == layout(utf8(*text)),
{
    let ls = lines_of(text.as_str());
    let ghost lb = bytes_seq(ls@);
    let mut out: Vec<PageTextBlock> = Vec::new();
    let mut i: usize = 0;
    while i < ls.len()
        invariant
            i <= ls@.len(),
            lb == bytes_seq(ls@),
            lb == lines(utf8(*text)),
            blocks_view(out@) == layout_from(lb, i as int),
        decreases ls@.len() - i,
    {
        proof {
            broadcast use vstd::utf8::encode_utf8_decode_utf8;
            assert(lb[i as int] == bytes(ls@[i as int]));
            assert(chars(lb[i as int]) == ls@[i as int]@);
        }
        if !is_blank(ls[i]) {
            let ghost before = blocks_view(out@);
            let b = PageTextBlock { text: ls[i].to_owned(), line: i };
            out.push(b);
            assert(blocks_view(out@) =~= before.push(b@));
        }
        i = i + 1;
    }
    out
}

/// The pages read in order and the information, with the page count set to
/// the number of pages and the page words added to the word count.
pub fn assemble_pdf(pages: Vec<(u32, String)>, metadata: PdfMetadata) -> (r: PdfDocument)
    requires
        metadata.word_count + pages_words(pages@) <= usize::MAX,
    ensures
        r.pages@.len() == pages@.len(),
        forall|i: int|
            0 <= i < pages@.len() ==> {
                &&& (#[trigger] r.pages@[i]).page_number == pages@[i].0 as usize
                &&& r.pages@[i].text@ == pages@[i].1@
                &&& blocks_view(r.pages@[i].text_with_layout@) == layout(utf8(pages@[i].1))
            },
        r.metadata.title == metadata.title,
        r.metadata.author == metadata.author,
        r.metadata.subject == metadata.subject,
        r.metadata.creator == metadata.creator,
        r.metadata.page_count == pages@.len(),
        r.metadata.word_count == metadata.word_count + pages_words(pages@),
        r.fonts@.len() == 0,
{
    let ghost m0 = metadata;
    let mut meta = metadata;
    let ghost w0 = m0.word_count;
    let mut out: Vec<PdfPage> = Vec::new();
    let mut i: usize = 0;
    while i < pages.len()
        invariant
            i <= pages@.len(),
            out@.len() == i,
            meta.title == m0.title,
            meta.author == m0.author,
            meta.subject == m0.subject,
            meta.creator == m0.creator,
            w0 + pages_words(pages@) <= usize::MAX,
            meta.word_count == w0 + pages_words(pages@.take(i as int)),
            forall|k: int|
                0 <= k < i ==> {
                    &&& (#[trigger] out@[k]).page_number == pages@[k].0 as usize
                    &&& out@[k].text@ == pages@[k].1@
                    &&& blocks_view(out@[k].text_with_layout@) == layout(utf8(pages@[k].1))
                },
        decreases pages@.len() - i,
    {
        let (n, t) = &pages[i];
        let text_with_layout = page_layout(t);
        let w = count_words(t.as_str());
        proof {
            assert(pages@.take(i + 1).drop_last() =~= pages@.take(i as int));
            lemma_pages_words_grow(pages@, i + 1);
        }
        meta.word_count = meta.word_count + w;
        out.push(PdfPage { page_number: *n as usize, text: t.clone(), text_with_layout });
        i = i + 1;
    }
    proof {
        assert(pages@.take(pages@.len() as int) =~= pages@);
    }
    meta.page_count = out.len();
    PdfDocument { pages: out, metadata: meta, fonts: Vec::new() }
}

/// The words of a prefix of the pages are at most those of all of them.
pub proof fn lemma_pages_words_grow(ps: Seq<(u32, String)>, n: int)
    requires
        0 <= n <= ps.len(),
    ensures
        pages_words(ps.take(n)) <= pages_words(ps),
    decreases ps.len() - n,
{
    if n < ps.len() {
        lemma_pages_words_grow(ps, n + 1);
        assert(ps.take(n + 1).drop_last() =~= ps.take(n));
    } else {
        assert(ps.take(n) =~= ps);
    }
}

// ---------------------------------------------------------------------------
// Reading a loaded document
// ---------------------------------------------------------------------------

/// The information dictionary of a document: the dictionary that the
/// trailer's `Info` entry refers to, if it is a reference to one.
pub open spec fn info_dictionary(doc: lopdf::Document) -> Option<lopdf::Dictionary> {
    match dictionary_entry(pdf_trailer(doc), bytes("Info")) {
        Some(o) => match object_reference_id(o) {
            Some(id) => document_dictionary_at(doc, id),
            None => None,
        },
        None => None,
    }
}

/// The bytes of a text entry of a dictionary, where it holds text.
pub open spec fn dictionary_text(d: lopdf::Dictionary, key: Seq<u8>) -> Option<Seq<u8>> {
    match dictionary_entry(d, key) {
        Some(o) => object_string(o),
        None => None,
    }
}

/// The bytes of a text entry of a document's information dictionary.
pub open spec fn info_entry(doc: lopdf::Document, key: Seq<u8>) -> Option<Seq<u8>> {
    match info_dictionary(doc) {
        Some(d) => dictionary_text(d, key),
        None => None,
    }
}

/// The bytes of a text entry of the information dictionary, where it holds text.
fn info_bytes<'a>(info: &'a lopdf::Dictionary, key: &str) -> (r: Option<&'a [u8]>)
    ensures
        opt_slice(r) == dictionary_text(*info, bytes(key)),
{
    match dictionary_get(info, key.as_bytes()) {
        Some(o) => object_string_bytes(o),
        None => None,
    }
}

/// What an entry's bytes read as: the text they encode, each invalid
/// sequence replaced.
pub open spec fn entry_text(b: Option<Seq<u8>>) -> Option<Seq<char>> {
    match b {
        Some(x) => Some(utf8_lossy(x)),
        None => None,
    }
}

fn lossy_entry(b: Option<&[u8]>) -> (r: Option<String>)
    ensures
        opt_text(r) == entry_text(opt_slice(b)),
{
    match b {
        Some(x) => Some(lossy_text(x)),
        None => None,
    }
}

/// The information of a document from the bytes of its title, author,
/// subject and creator entries (each read as text, invalid sequences
/// replaced) and its page count; the word count starts at zero.
pub fn metadata_from_info(
    page_count: usize,
    title: Option<&[u8]>,
    author: Option<&[u8]>,
    subject: Option<&[u8]>,
    creator: Option<&[u8]>,
) -> (r: PdfMetadata)
    ensures
        r.page_count == page_count,
        r.word_count == 0,
        opt_text(r.title) == entry_text(opt_slice(title)),
        opt_text(r.author) == entry_text(opt_slice(author)),
        opt_text(r.subject) == entry_text(opt_slice(subject)),
        opt_text(r.creator) == entry_text(opt_slice(creator)),
{
    PdfMetadata {
        title: lossy_entry(title),
        author: lossy_entry(author),
        subject: lossy_entry(subject),
        creator: lossy_entry(creator),
        page_count,
        word_count: 0,
    }
}

/// The information a document gives: its page count, and the title,
/// author, subject and creator entries of its information dictionary read as
/// text; the word count starts at zero.
pub open spec fn metadata_of(m: PdfMetadata, doc: lopdf::Document) -> bool {
    &&& m.page_count == pdf_page_numbers(doc).len()
    &&& m.word_count == 0
    &&& opt_text(m.title) == entry_text(info_entry(doc, bytes("Title")))
    &&& opt_text(m.author) == entry_text(info_entry(doc, bytes("Author")))
    &&& opt_text(m.subject) == entry_text(info_entry(doc, bytes("Subject")))
    &&& opt_text(m.creator) == entry_text(info_entry(doc, bytes("Creator")))
}

/// The document information (title, author, subject, creator) and the page
/// count; the word count starts at zero. The information is read only where
/// the trailer's `Info` entry refers to a dictionary.
pub fn extract_metadata(doc: &lopdf::Document) -> (r: PdfMetadata)
    ensures
        metadata_of(r, *doc),
{
    let page_count = page_numbers(doc).len();
    if let Some(info) = dictionary_get(trailer(doc), "Info".as_bytes()) {
        if let Some(info_ref) = object_reference(info) {
            if let Some(info_dict) = document_dictionary(doc, info_ref) {
                return metadata_from_info(
                    page_count,
                    info_bytes(info_dict, "Title"),
                    info_bytes(info_dict, "Author"),
                    info_bytes(info_dict, "Subject"),
                    info_bytes(info_dict, "Creator"),
                );
            }
        }
    }
    metadata_from_info(page_count, None, None, None, None)
}

/// The pages of a document hold what `assemble_pdf` makes of them: blocks
/// for their non-blank lines, the page count and word count in the
/// information, and no fonts.
pub open spec fn pdf_consistent(d: PdfDocument) -> bool {
    &&& d.metadata.page_count == d.pages@.len()
    &&& d.metadata.word_count == document_words(d.pages@)
    &&& forall|i: int|
        0 <= i < d.pages@.len() ==> blocks_view((#[trigger] d.pages@[i]).text_with_layout@)
            == layout(utf8(d.pages@[i].text))
    &&& forall|i: int, j: int|
        0 <= i < j < d.pages@.len() ==> d.pages@[i].page_number < d.pages@[j].page_number
    &&& d.fonts@.len() == 0
}

proof fn lemma_words_match(ps: Seq<(u32, String)>, qs: Seq<PdfPage>)
    requires
        ps.len() == qs.len(),
        forall|i: int| 0 <= i < ps.len() ==> (#[trigger] qs[i]).text@ == ps[i].1@,
    ensures
        document_words(qs) == pages_words(ps),
    decreases ps.len(),
{
    if ps.len() > 0 {
        lemma_words_match(ps.drop_last(), qs.drop_last());
    }
}

/// `d` is the document that `assemble_pdf` makes of the pages and the
/// information: the pages in order with their numbers, texts and blocks of
/// non-blank lines, the information kept, the page count set to the number
/// of pages, the page words added to the word count, and no fonts.
pub open spec fn assembled(d: PdfDocument, pages: Seq<(u32, String)>, metadata: PdfMetadata) -> bool {
    &&& d.pages@.len() == pages.len()
    &&& forall|i: int|
        0 <= i < pages.len() ==> {
            &&& (#[trigger] d.pages@[i]).page_number == pages[i].0 as usize
            &&& d.pages@[i].text@ == pages[i].1@
            &&& blocks_view(d.pages@[i].text_with_layout@) == layout(utf8(pages[i].1))
        }
    &&& d.metadata.title == metadata.title
    &&& d.metadata.author == metadata.author
    &&& d.metadata.subject == metadata.subject
    &&& d.metadata.creator == metadata.creator
    &&& d.metadata.page_count == pages.len()
    &&& d.metadata.word_count == metadata.word_count + pages_words(pages)
    &&& d.fonts@.len() == 0
}

/// The document of the pages read in order and the information, as
/// `assemble_pdf` makes it; `None` exactly where the word count would not
/// fit in a `usize`.
pub fn pdf_from_pages(pages: Vec<(u32, String)>, metadata: PdfMetadata) -> (r: Option<PdfDocument>)
    ensures
        r is Some <==> metadata.word_count + pages_words(pages@) <= usize::MAX,
        r matches Some(d) ==> assembled(d, pages@, metadata),
{
    let mut total: usize = metadata.word_count;
    let mut i: usize = 0;
    while i < pages.len()
        invariant
            i <= pages@.len(),
            total == metadata.word_count + pages_words(pages@.take(i as int)),
        decreases pages@.len() - i,
    {
        let w = count_words(pages[i].1.as_str());
        proof {
            assert(pages@.take(i + 1).drop_last() =~= pages@.take(i as int));
            lemma_pages_words_grow(pages@, i + 1);
        }
        if total > usize::MAX - w {
            return None;
        }
        total = total + w;
        i = i + 1;
    }
    proof {
        assert(pages@.take(pages@.len() as int) =~= pages@);
    }
    let ghost ps = pages@;
    let d = assemble_pdf(pages, metadata);
    assert(assembled(d, ps, metadata));
    Some(d)
}

/// The text read from a page: what lopdf extracts, or nothing where it
/// reports an error.
pub open spec fn page_text_read(doc: lopdf::Document, page: u32) -> Seq<char> {
    match pdf_page_text(doc, page) {
        Some(t) => t,
        None => Seq::empty(),
    }
}

/// The number of words read from the pages `ns` of a document.
pub open spec fn pages_text_words(doc: lopdf::Document, ns: Seq<u32>) -> nat
    decreases ns.len(),
{
    if ns.len() == 0 {
        0
    } else {
        pages_text_words(doc, ns.drop_last()) + word_count(page_text_read(doc, ns.last()))
    }
}

/// `d` is what reading `doc` gives: each page lopdf finds, in order, with
/// its number, the text read from it and the blocks of its non-blank lines;
/// the information of the document; the page count; the words of all pages;
/// and no fonts.
pub open spec fn read_from(d: PdfDocument, doc: lopdf::Document) -> bool {
    let ns = pdf_page_numbers(doc);
    &&& d.pages@.len() == ns.len()
    &&& forall|i: int|
        0 <= i < ns.len() ==> {
            &&& (#[trigger] d.pages@[i]).page_number == ns[i] as usize
            &&& d.pages@[i].text@ == page_text_read(doc, ns[i])
            &&& blocks_view(d.pages@[i].text_with_layout@) == layout(
                encode_utf8(page_text_read(doc, ns[i])),
            )
        }
    &&& opt_text(d.metadata.title) == entry_text(info_entry(doc, bytes("Title")))
    &&& opt_text(d.metadata.author) == entry_text(info_entry(doc, bytes("Author")))
    &&& opt_text(d.metadata.subject) == entry_text(info_entry(doc, bytes("Subject")))
    &&& opt_text(d.metadata.creator) == entry_text(info_entry(doc, bytes("Creator")))
    &&& d.metadata.page_count == ns.len()
    &&& d.metadata.word_count == pages_text_words(doc, ns)
    &&& d.fonts@.len() == 0
}

proof fn lemma_read_words(ps: Seq<(u32, String)>, doc: lopdf::Document, ns: Seq<u32>)
    requires
        ps.len() == ns.len(),
        forall|i: int| 0 <= i < ps.len() ==> (#[trigger] ps[i]).1@ == page_text_read(doc, ns[i]),
    ensures
        pages_words(ps) == pages_text_words(doc, ns),
    decreases ps.len(),
{
    if ps.len() > 0 {
        lemma_read_words(ps.drop_last(), doc, ns.drop_last());
    }
}

/// Reads a loaded document: the text of each page (empty where lopdf cannot
/// extract it), the pages numbered 1, 2, 3, ..., and the document
/// information. `None` exactly where the word count would not fit in a `usize`.
pub fn read_pdf(doc: &lopdf::Document) -> (r: Option<PdfDocument>)
    ensures
        r is Some <==> pages_text_words(*doc, pdf_page_numbers(*doc)) <= usize::MAX,
        r matches Some(d) ==> read_from(d, *doc),
        r matches Some(d) ==> pdf_consistent(d),
        r matches Some(d) ==> (d.pages@.len() <= u32::MAX ==> forall|i: int|
            0 <= i < d.pages@.len() ==> (#[trigger] d.pages@[i]).page_number == i + 1),
{
    let metadata = extract_metadata(doc);
    let numbers = page_numbers(doc);
    let mut pages: Vec<(u32, String)> = Vec::new();
    let mut i: usize = 0;
    while i < numbers.len()
        invariant
            i <= numbers@.len(),
            numbers@ == pdf_page_numbers(*doc),
            pages@.len() == i,
            forall|k: int| 0 <= k < i ==> (#[trigger] pages@[k]).0 == numbers@[k],
            forall|k: int| 0 <= k < i ==> (#[trigger] pages@[k]).1@ == page_text_read(*doc, numbers@[k]),
            forall|a: int, b: int| 0 <= a < b < numbers@.len() ==> numbers@[a] < numbers@[b],
            numbers@.len() <= u32::MAX ==> forall|k: int| 0 <= k < numbers@.len() ==> numbers@[k] == k + 1,
        decreases numbers@.len() - i,
    {
        let text = match page_text(doc, numbers[i]) {
            Some(t) => t,
            None => String::new(),
        };
        pages.push((numbers[i], text));
        i = i + 1;
    }
    let ghost ps = pages@;
    proof {
        lemma_read_words(ps, *doc, numbers@);
    }
    let r = pdf_from_pages(pages, metadata);
    proof {
        if r is Some {
            lemma_words_match(ps, r->0.pages@);
        }
    }
    r
}

/// Reads the bytes of a PDF file: lopdf's error where it cannot parse them,
/// else what `read_pdf` gives of the document (`None` exactly where the word
/// count would not fit in a `usize`).
pub fn parse_pdf_bytes(data: &[u8]) -> (r: Result<Option<PdfDocument>, String>)
    ensures
        match pdf_loaded(data@) {
            Err(e) => r matches Err(m) && m@ == e,
            Ok(doc) => r matches Ok(o) && (o is Some <==> pages_text_words(doc, pdf_page_numbers(doc))
                <= usize::MAX) && (o matches Some(d) ==> read_from(d, doc)),
        },
{
    match load_pdf(data) {
        Err(e) => Err(e),
        Ok(doc) => Ok(read_pdf(&doc)),
    }
}

// ---------------------------------------------------------------------------
// A summary of the document for the model
// ---------------------------------------------------------------------------

/// The non-blank lines among the first 10 lines of a page, each followed by a newline.
pub open spec fn page_preview_from(ls: Seq<Seq<u8>>, k: int) -> Seq<char>
    decreases k,
{
    if k <= 0 {
        Seq::empty()
    } else {
        page_preview_from(ls, k - 1) + if all_ws(chars(ls[k - 1])) {
            Seq::empty()
        } else {
            chars(ls[k - 1]) + "\n"@
        }
    }
}

/// The preview of one page: its number, then its first 10 lines, blank ones left out.
pub open spec fn page_preview(p: PdfPage) -> Seq<char> {
    let ls = lines(utf8(p.text));
    "\n--- 第 "@ + decimal(p.page_number as nat) + " 页 ---\n"@ + page_preview_from(
        ls,
        min_int(ls.len() as int, 10),
    )
}

/// The previews of the first `k` pages.
pub open spec fn pages_preview(ps: Seq<PdfPage>, k: int) -> Seq<char>
    decreases k,
{
    if k <= 0 {
        Seq::empty()
    } else {
        pages_preview(ps, k - 1) + page_preview(ps[k - 1])
    }
}

/// The summary of a PDF document for the model: information, counts and a
/// preview of the first 30 pages.
pub open spec fn pdf_summary(doc: PdfDocument) -> Seq<char> {
    let n = doc.pages@.len() as int;
    "=== PDF 文档分析 ===\n\n"@ + line_if("标题: "@, doc.metadata.title, "\n"@) + line_if(
        "作者: "@,
        doc.metadata.author,
        "\n"@,
    ) + "页数: "@ + decimal(doc.metadata.page_count as nat) + "\n"@ + "字数: "@ + decimal(
        doc.metadata.word_count as nat,
    ) + "\n\n"@ + "=== 内容预览 (前30页) ===\n"@ + pages_preview(doc.pages@, min_int(n, 30)) + if n
        > 30 {
        "\n... 共 "@ + decimal(n as nat) + " 页，内容已截断 ...\n"@
    } else {
        Seq::empty()
    }
}

/// The opening of a PDF summary, up to the preview of its pages.
pub open spec fn pdf_summary_opening(doc: PdfDocument) -> Seq<char> {
    let m = doc.metadata;
    "=== PDF 文档分析 ===\n\n"@ + line_if("标题: "@, m.title, "\n"@) + line_if("作者: "@, m.author, "\n"@)
        + "页数: "@ + decimal(m.page_count as nat) + "\n"@ + "字数: "@ + decimal(m.word_count as nat) + "\n\n"@
        + "=== 内容预览 (前30页) ===\n"@
}

#[verifier::spinoff_prover]
proof fn lemma_pages_preview_show(ps: Seq<PdfPage>, k: int, i: int)
    requires
        0 <= i < k,
    ensures
        shows(pages_preview(ps, k), "\n--- 第 "@ + decimal(ps[i].page_number as nat) + " 页 ---\n"@),
    decreases k,
{
    let e = Seq::<char>::empty();
    let last = page_preview(ps[k - 1]);
    assert(pages_preview(ps, k) =~= e + pages_preview(ps, k - 1) + last);
    if i == k - 1 {
        let h = "\n--- 第 "@ + decimal(ps[i].page_number as nat) + " 页 ---\n"@;
        let ls = lines(utf8(ps[i].text));
        let body = page_preview_from(ls, min_int(ls.len() as int, 10));
        assert(last =~= e + h + body);
        lemma_shows_self(h);
        lemma_shows_within(h, h, e, body);
        lemma_shows_within(last, h, pages_preview(ps, k - 1), e);
        assert(pages_preview(ps, k - 1) + last + e =~= pages_preview(ps, k));
    } else {
        lemma_pages_preview_show(ps, k - 1, i);
        lemma_shows_within(pages_preview(ps, k - 1), "\n--- 第 "@ + decimal(ps[i].page_number as nat) + " 页 ---\n"@, e, last);
    }
}

/// The PDF summary opens with its heading, the title and author lines where
/// the document names them, the page and word counts, and the heading of the
/// preview; it previews each of the first 30 pages under its number; and it
/// closes with a note of the page count exactly when there are more than 30
/// pages.
#[verifier::spinoff_prover]
pub proof fn lemma_pdf_summary_parts(doc: PdfDocument)
    ensures
        ({
            let title_line = match doc.metadata.title {
                Some(x) => "标题: "@ + x@ + "\n"@,
                None => Seq::<char>::empty(),
            };
            let author_line = match doc.metadata.author {
                Some(x) => "作者: "@ + x@ + "\n"@,
                None => Seq::<char>::empty(),
            };
            let opening = "=== PDF 文档分析 ===\n\n"@ + title_line + author_line + "页数: "@ + decimal(
                doc.metadata.page_count as nat,
            ) + "\n"@ + "字数: "@ + decimal(doc.metadata.word_count as nat) + "\n\n"@ + "=== 内容预览 (前30页) ===\n"@;
            opening.len() <= pdf_summary(doc).len() && pdf_summary(doc).subrange(0, opening.len() as int) == opening
        }),
        forall|i: int| 0 <= i < doc.pages@.len() && i < 30 ==> shows(
            pdf_summary(doc),
            "\n--- 第 "@ + decimal((#[trigger] doc.pages@[i]).page_number as nat) + " 页 ---\n"@,
        ),
        doc.pages@.len() > 30 ==> ({
            let note = "\n... 共 "@ + decimal(doc.pages@.len()) + " 页，内容已截断 ...\n"@;
            let s = pdf_summary(doc);
            note.len() <= s.len() && s.subrange(s.len() - note.len(), s.len() as int) == note
        }),
        doc.pages@.len() <= 30 ==> pdf_summary(doc) == pdf_summary_opening(doc) + pages_preview(
            doc.pages@,
            doc.pages@.len() as int,
        ),
{
    let n = doc.pages@.len() as int;
    let opening = pdf_summary_opening(doc);
    let pv = pages_preview(doc.pages@, min_int(n, 30));
    let note = if n > 30 {
        "\n... 共 "@ + decimal(n as nat) + " 页，内容已截断 ...\n"@
    } else {
        Seq::<char>::empty()
    };
    let s = pdf_summary(doc);
    assert(s =~= opening + pv + note);
    assert(s.subrange(0, opening.len() as int) =~= opening);
    assert(s.subrange(s.len() - note.len(), s.len() as int) =~= note);
    assert forall|i: int| 0 <= i < n && i < 30 implies shows(
        s,
        "\n--- 第 "@ + decimal((#[trigger] doc.pages@[i]).page_number as nat) + " 页 ---\n"@,
    ) by {
        lemma_pages_preview_show(doc.pages@, min_int(n, 30), i);
        lemma_shows_within(pv, "\n--- 第 "@ + decimal(doc.pages@[i].page_number as nat) + " 页 ---\n"@, opening, note);
    }
}

fn push_opt(out: &mut String, prefix: &str, s: &Option<String>, suffix: &str)
    ensures
        final(out)@ == old(out)@ + line_if(prefix@, *s, suffix@),
{
    match s {
        Some(x) => {
            out.append(prefix);
            out.append(x.as_str());
            out.append(suffix);
            assert(final(out)@ =~= old(out)@ + line_if(prefix@, *s, suffix@));
        },
        None => {
            assert(final(out)@ =~= old(out)@ + line_if(prefix@, *s, suffix@));
        },
    }
}

fn push_page_preview(out: &mut String, p: &PdfPage)
    ensures
        final(out)@ == old(out)@ + page_preview(*p),
{
    let ghost start = out@;
    out.append("\n--- 第 ");
    push_decimal(out, p.page_number);
    out.append(" 页 ---\n");
    let ghost head = out@;
    let ls = lines_of(p.text.as_str());
    let ghost lb = bytes_seq(ls@);
    let shown = if ls.len() < 10 {
        ls.len()
    } else {
        10
    };
    let mut i: usize = 0;
    while i < shown
        invariant
            i <= shown,
            shown <= ls@.len(),
            shown == min_int(lb.len() as int, 10),
            lb == bytes_seq(ls@),
            lb == lines(utf8(p.text)),
            out@ == head + page_preview_from(lb, i as int),
        decreases shown - i,
    {
        proof {
            broadcast use vstd::utf8::encode_utf8_decode_utf8;
            assert(lb[i as int] == bytes(ls@[i as int]));
            assert(chars(lb[i as int]) == ls@[i as int]@);
        }
        if !is_blank(ls[i]) {
            out.append(ls[i]);
            out.append("\n");
        }
        assert(out@ =~= head + page_preview_from(lb, i + 1));
        i = i + 1;
    }
    assert(out@ =~= start + page_preview(*p));
}

/// A summary of the document for the model: title, author, page and word
/// counts, and the first 10 lines of each of the first 30 pages.
pub fn extract_for_llm(doc: &PdfDocument) -> (r: String)
    ensures
        r@ == pdf_summary(*doc),
{
    let mut out = String::new();
    out.append("=== PDF 文档分析 ===\n\n");
    push_opt(&mut out, "标题: ", &doc.metadata.title, "\n");
    push_opt(&mut out, "作者: ", &doc.metadata.author, "\n");
    out.append("页数: ");
    push_decimal(&mut out, doc.metadata.page_count);
    out.append("\n");
    out.append("字数: ");
    push_decimal(&mut out, doc.metadata.word_count);
    out.append("\n\n");
    out.append("=== 内容预览 (前30页) ===\n");
    let ghost head = out@;
    let n = doc.pages.len();
    let shown = if n < 30 {
        n
    } else {
        30
    };
    let mut i: usize = 0;
    while i < shown
        invariant
            i <= shown,
            shown == min_int(n as int, 30),
            n == doc.pages@.len(),
            out@ == head + pages_preview(doc.pages@, i as int),
        decreases shown - i,
    {
        push_page_preview(&mut out, &doc.pages[i]);
        assert(out@ =~= head + pages_preview(doc.pages@, i + 1));
        i = i + 1;
    }
    let ghost body = out@;
    if n > 30 {
        out.append("\n... 共 ");
        push_decimal(&mut out, n);
        out.append(" 页，内容已截断 ...\n");
    }
    assert(out@ =~= pdf_summary(*doc));
    out
}

} // verus!
