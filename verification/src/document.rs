//! Text and metadata of documents.
use vstd::prelude::*;

use crate::prose;
use crate::text;

verus! {

/// A document as it is extracted.
#[derive(Debug)]
pub struct ExtractedDocument {
    pub text: String,
    pub metadata: DocumentMetadata,
}

/// What is known of a document.
#[derive(Debug)]
pub struct DocumentMetadata {
    pub filename: String,
    pub mime_type: String,
    pub file_size: u64,
    pub title: Option<String>,
    pub author: Option<String>,
    pub page_count: Option<u32>,
    pub subject: Option<String>,
    pub date: Option<String>,
}

/// What an [`ExtractedDocument`] says.
pub struct DocumentView {
    pub text: Seq<char>,
    pub filename: Seq<char>,
    pub mime_type: Seq<char>,
    pub file_size: u64,
    pub title: Option<Seq<char>>,
    pub author: Option<Seq<char>>,
    pub page_count: Option<u32>,
    pub subject: Option<Seq<char>>,
    pub date: Option<Seq<char>>,
}

impl View for ExtractedDocument {
    type V = DocumentView;

    open spec fn view(&self) -> DocumentView {
        DocumentView {
            text: self.text@,
            filename: self.metadata.filename@,
            mime_type: self.metadata.mime_type@,
            file_size: self.metadata.file_size,
            title: text::text_option(self.metadata.title),
            author: text::text_option(self.metadata.author),
            page_count: self.metadata.page_count,
            subject: text::text_option(self.metadata.subject),
            date: text::text_option(self.metadata.date),
        }
    }
}

/// A document, or the words that say why there is none.
pub open spec fn document_result(r: Result<ExtractedDocument, String>) -> Result<
    DocumentView,
    Seq<char>,
> {
    match r {
        Ok(d) => Ok(d@),
        Err(e) => Err(e@),
    }
}

/// What the path of a file says: its last part and its extension, where it has them as text.
#[derive(Debug)]
pub struct FileName {
    pub name: Option<String>,
    pub extension: Option<String>,
}

/// A document without anything but text, a type and a size.
pub open spec fn plain_document(
    text: Seq<char>,
    filename: Seq<char>,
    mime_type: Seq<char>,
    file_size: u64,
) -> DocumentView {
    DocumentView {
        text,
        filename,
        mime_type,
        file_size,
        title: None,
        author: None,
        page_count: None,
        subject: None,
        date: None,
    }
}

/// The text of an option, or `default`.
pub open spec fn text_or(s: Option<String>, default: Seq<char>) -> Seq<char> {
    match s {
        Some(t) => t@,
        None => default,
    }
}

/// Why a file that cannot be read has no document.
pub open spec fn unreadable<T>(e: Seq<char>) -> Result<T, Seq<char>> {
    Err("Failed to read file: "@ + e)
}

/// A copy of an optional string, or of `default`.
fn copy_or(s: &Option<String>, default: &str) -> (r: String)
    ensures
        r@ == text_or(*s, default@),
{
    match s {
        Some(t) => t.clone(),
        None => default.to_owned(),
    }
}

/// Extracts the document in a file.
pub trait Extractor {
    /// What was read from the file.
    type Content;

    /// The document in a file with this name and content.
    spec fn document(&self, file: FileName, content: Self::Content) -> Result<
        DocumentView,
        Seq<char>,
    >;

    /// The document in a file with this name and content.
    fn extract(&self, file: &FileName, content: &Self::Content) -> (r: Result<
        ExtractedDocument,
        String,
    >)
        ensures
            document_result(r) == self.document(*file, *content),
    ;
}

/// Extracts plain text.
#[derive(Debug)]
pub struct PlaintextExtractor;

/// The type of a text file, by its extension.
pub open spec fn text_type(ext: Seq<char>) -> Seq<char> {
    if ext == "md"@ {
        "text/markdown"@
    } else if ext == "csv"@ {
        "text/csv"@
    } else if ext == "json"@ {
        "application/json"@
    } else if ext == "xml"@ {
        "application/xml"@
    } else if ext == "html"@ || ext == "htm"@ {
        "text/html"@
    } else if ext == "yaml"@ || ext == "yml"@ {
        "text/yaml"@
    } else if ext == "toml"@ {
        "text/toml"@
    } else {
        "text/plain"@
    }
}

/// The type of a text file, by its extension.
fn text_type_of(ext: &str) -> (r: &'static str)
    ensures
        r@ == text_type(ext@),
{
    if text::str_eq(ext, "md") {
        "text/markdown"
    } else if text::str_eq(ext, "csv") {
        "text/csv"
    } else if text::str_eq(ext, "json") {
        "application/json"
    } else if text::str_eq(ext, "xml") {
        "application/xml"
    } else if text::str_eq(ext, "html") || text::str_eq(ext, "htm") {
        "text/html"
    } else if text::str_eq(ext, "yaml") || text::str_eq(ext, "yml") {
        "text/yaml"
    } else if text::str_eq(ext, "toml") {
        "text/toml"
    } else {
        "text/plain"
    }
}

/// The number of bytes of a text in UTF-8.
pub open spec fn byte_len(s: Seq<char>) -> u64 {
    (vstd::utf8::encode_utf8(s).len() as usize) as u64
}

impl Extractor for PlaintextExtractor {
    /// The text of the file, or why it cannot be read.
    type Content = Result<String, String>;

    open spec fn document(&self, file: FileName, content: Result<String, String>) -> Result<
        DocumentView,
        Seq<char>,
    > {
        match content {
            Err(e) => unreadable(e@),
            Ok(s) => Ok(
                plain_document(
                    s@,
                    text_or(file.name, "unknown.txt"@),
                    text_type(text_or(file.extension, "txt"@)),
                    byte_len(s@),
                ),
            ),
        }
    }

    fn extract(&self, file: &FileName, content: &Result<String, String>) -> (r: Result<
        ExtractedDocument,
        String,
    >) {
        match content {
            Err(e) => Err(text::concat("Failed to read file: ", e.as_str())),
            Ok(s) => {
                let file_size: usize = s.as_str().len();
                let ext: String = copy_or(&file.extension, "txt");
                Ok(
                    ExtractedDocument {
                        text: s.clone(),
                        metadata: DocumentMetadata {
                            filename: copy_or(&file.name, "unknown.txt"),
                            mime_type: text_type_of(ext.as_str()).to_owned(),
                            file_size: file_size as u64,
                            title: None,
                            author: None,
                            page_count: None,
                            subject: None,
                            date: None,
                        },
                    },
                )
            },
        }
    }
}

/// Extracts PDF files.
#[derive(Debug)]
pub struct PdfExtractor;

/// A PDF file: its bytes, and its text or why it has none.
#[derive(Debug)]
pub struct PdfContent {
    pub bytes: Vec<u8>,
    pub text: Result<String, String>,
}

impl Extractor for PdfExtractor {
    /// The PDF file, or why it cannot be read.
    type Content = Result<PdfContent, String>;

    open spec fn document(&self, file: FileName, content: Result<PdfContent, String>) -> Result<
        DocumentView,
        Seq<char>,
    > {
        match content {
            Err(e) => unreadable(e@),
            Ok(pdf) => match pdf.text {
                Err(e) => Err("PDF parse error: "@ + e@),
                Ok(s) => Ok(
                    DocumentView {
                        page_count: prose::pages_in(pdf.bytes@),
                        ..plain_document(
                            prose::normalized(s@),
                            text_or(file.name, "unknown.pdf"@),
                            "application/pdf"@,
                            pdf.bytes@.len() as u64,
                        )
                    },
                ),
            },
        }
    }

    fn extract(&self, file: &FileName, content: &Result<PdfContent, String>) -> (r: Result<
        ExtractedDocument,
        String,
    >) {
        match content {
            Err(e) => Err(text::concat("Failed to read file: ", e.as_str())),
            Ok(pdf) => match &pdf.text {
                Err(e) => Err(text::concat("PDF parse error: ", e.as_str())),
                Ok(s) => Ok(
                    ExtractedDocument {
                        text: prose::normalize_whitespace(s.as_str()),
                        metadata: DocumentMetadata {
                            filename: copy_or(&file.name, "unknown.pdf"),
                            mime_type: "application/pdf".to_owned(),
                            file_size: pdf.bytes.len() as u64,
                            title: None,
                            author: None,
                            page_count: prose::count_pdf_pages(&pdf.bytes),
                            subject: None,
                            date: None,
                        },
                    },
                ),
            },
        }
    }
}

/// Extracts DOCX files.
#[derive(Debug)]
pub struct DocxExtractor;

/// A piece of a run.
#[derive(Debug)]
pub enum RunPiece {
    Text(String),
    Other,
}

/// A part of a paragraph.
#[derive(Debug)]
pub enum ParagraphPart {
    Run(Vec<RunPiece>),
    Other,
}

/// A block of a document.
#[derive(Debug)]
pub enum Block {
    Paragraph(Vec<ParagraphPart>),
    Other,
}

/// A DOCX file: its size in bytes, and its blocks or why it has none.
#[derive(Debug)]
pub struct DocxContent {
    pub file_size: u64,
    pub blocks: Result<Vec<Block>, String>,
}

/// The text of a run.
pub open spec fn run_text(pieces: Seq<RunPiece>) -> Seq<char>
    decreases pieces.len(),
{
    if pieces.len() == 0 {
        Seq::empty()
    } else {
        run_text(pieces.drop_last()) + match pieces.last() {
            RunPiece::Text(s) => s@,
            RunPiece::Other => Seq::empty(),
        }
    }
}

/// The text of a paragraph.
pub open spec fn paragraph_text(parts: Seq<ParagraphPart>) -> Seq<char>
    decreases parts.len(),
{
    if parts.len() == 0 {
        Seq::empty()
    } else {
        paragraph_text(parts.drop_last()) + match parts.last() {
            ParagraphPart::Run(pieces) => run_text(pieces@),
            ParagraphPart::Other => Seq::empty(),
        }
    }
}

/// The texts of the paragraphs that have one, in order.
pub open spec fn paragraph_texts(blocks: Seq<Block>) -> Seq<Seq<char>>
    decreases blocks.len(),
{
    if blocks.len() == 0 {
        Seq::empty()
    } else {
        let before = paragraph_texts(blocks.drop_last());
        match blocks.last() {
            Block::Paragraph(parts) => if paragraph_text(parts@).len() == 0 {
                before
            } else {
                before.push(paragraph_text(parts@))
            },
            Block::Other => before,
        }
    }
}

/// Appends the text of a run.
fn append_run(out: &mut String, pieces: &Vec<RunPiece>)
    ensures
        final(out)@ == old(out)@ + run_text(pieces@),
{
    let ghost before = out@;
    let mut i: usize = 0;
    assert(pieces@.take(0) =~= Seq::<RunPiece>::empty());
    assert(out@ =~= before + run_text(pieces@.take(0)));
    while i < pieces.len()
        invariant
            i <= pieces.len(),
            out@ == before + run_text(pieces@.take(i as int)),
        decreases pieces.len() - i,
    {
        let ghost now = out@;
        proof {
            assert(pieces@.take(i + 1).drop_last() =~= pieces@.take(i as int));
        }
        if let RunPiece::Text(s) = &pieces[i] {
            out.append(s.as_str());
        }
        assert(out@ =~= before + run_text(pieces@.take(i + 1)));
        i += 1;
    }
    assert(pieces@.take(i as int) =~= pieces@);
}

/// The text of a paragraph.
fn text_of_paragraph(parts: &Vec<ParagraphPart>) -> (r: String)
    ensures
        r@ == paragraph_text(parts@),
{
    let mut out: String = String::new();
    let mut i: usize = 0;
    assert(parts@.take(0) =~= Seq::<ParagraphPart>::empty());
    while i < parts.len()
        invariant
            i <= parts.len(),
            out@ == paragraph_text(parts@.take(i as int)),
        decreases parts.len() - i,
    {
        proof {
            assert(parts@.take(i + 1).drop_last() =~= parts@.take(i as int));
        }
        if let ParagraphPart::Run(pieces) = &parts[i] {
            append_run(&mut out, pieces);
        }
        assert(out@ =~= paragraph_text(parts@.take(i + 1)));
        i += 1;
    }
    assert(parts@.take(i as int) =~= parts@);
    out
}

/// The text of the paragraphs of a document, with an empty line between two.
pub fn document_text(blocks: &Vec<Block>) -> (r: String)
    ensures
        r@ == text::join(paragraph_texts(blocks@), "\n\n"@),
{
    let mut texts: Vec<String> = Vec::new();
    let mut i: usize = 0;
    assert(blocks@.take(0) =~= Seq::<Block>::empty());
    assert(texts@.map_values(|s: String| s@) =~= paragraph_texts(blocks@.take(0)));
    while i < blocks.len()
        invariant
            i <= blocks.len(),
            texts@.map_values(|s: String| s@) == paragraph_texts(blocks@.take(i as int)),
        decreases blocks.len() - i,
    {
        let ghost before = texts@;
        proof {
            assert(blocks@.take(i + 1).drop_last() =~= blocks@.take(i as int));
        }
        if let Block::Paragraph(parts) = &blocks[i] {
            let s: String = text_of_paragraph(parts);
            if !s.as_str().is_empty() {
                texts.push(s);
                assert(texts@.map_values(|s: String| s@) =~= before.map_values(
                    |s: String| s@,
                ).push(s@));
            }
        }
        i += 1;
    }
    assert(blocks@.take(i as int) =~= blocks@);
    text::join_strings(&texts, "\n\n")
}

/// The type of a DOCX file.
pub const DOCX_TYPE: &'static str = "application/vnd.openxmlformats-officedocument.wordprocessingml.document";

impl Extractor for DocxExtractor {
    /// The DOCX file, or why it cannot be read.
    type Content = Result<DocxContent, String>;

    open spec fn document(&self, file: FileName, content: Result<DocxContent, String>) -> Result<
        DocumentView,
        Seq<char>,
    > {
        match content {
            Err(e) => unreadable(e@),
            Ok(docx) => match docx.blocks {
                Err(e) => Err("DOCX parse error: "@ + e@),
                Ok(blocks) => Ok(
                    plain_document(
                        text::join(paragraph_texts(blocks@), "\n\n"@),
                        text_or(file.name, "unknown.docx"@),
                        DOCX_TYPE@,
                        docx.file_size,
                    ),
                ),
            },
        }
    }

    fn extract(&self, file: &FileName, content: &Result<DocxContent, String>) -> (r: Result<
        ExtractedDocument,
        String,
    >) {
        match content {
            Err(e) => Err(text::concat("Failed to read file: ", e.as_str())),
            Ok(docx) => match &docx.blocks {
                Err(e) => Err(text::concat("DOCX parse error: ", e.as_str())),
                Ok(blocks) => Ok(
                    ExtractedDocument {
                        text: document_text(blocks),
                        metadata: DocumentMetadata {
                            filename: copy_or(&file.name, "unknown.docx"),
                            mime_type: DOCX_TYPE.to_owned(),
                            file_size: docx.file_size,
                            title: None,
                            author: None,
                            page_count: None,
                            subject: None,
                            date: None,
                        },
                    },
                ),
            },
        }
    }
}

/// Extracts mail.
#[derive(Debug)]
pub struct EmailExtractor;

/// What is read of a mail.
#[derive(Debug)]
pub struct Mail {
    pub subject: Option<String>,
    /// The address of its first sender.
    pub from: Option<String>,
    /// Its date, as RFC 3339 writes it.
    pub date: Option<String>,
    /// Its first body as text.
    pub text: Option<String>,
    /// Its first body as HTML.
    pub html: Option<String>,
}

/// What a [`Mail`] says.
pub struct MailView {
    pub subject: Option<Seq<char>>,
    pub from: Option<Seq<char>>,
    pub date: Option<Seq<char>>,
    pub text: Option<Seq<char>>,
    pub html: Option<Seq<char>>,
}

impl View for Mail {
    type V = MailView;

    open spec fn view(&self) -> MailView {
        MailView {
            subject: text::text_option(self.subject),
            from: text::text_option(self.from),
            date: text::text_option(self.date),
            text: text::text_option(self.text),
            html: text::text_option(self.html),
        }
    }
}

/// A file with a mail: its size in bytes, and the mail that it spells, if it spells one.
#[derive(Debug)]
pub struct MailContent {
    pub file_size: u64,
    pub mail: Option<Mail>,
}

/// A line with a header of a mail, if it has the header.
pub open spec fn header_line(key: Seq<char>, value: Option<Seq<char>>) -> Seq<Seq<char>> {
    match value {
        Some(v) => seq![key + v],
        None => Seq::empty(),
    }
}

/// The lines that stand for the headers of a mail.
pub open spec fn mail_header_lines(mail: MailView) -> Seq<Seq<char>> {
    header_line("Subject: "@, mail.subject) + header_line("From: "@, mail.from) + header_line(
        "Date: "@,
        mail.date,
    )
}

/// The body of a mail: its text, or else its HTML without tags.
pub open spec fn mail_body(mail: MailView) -> Seq<Seq<char>> {
    match mail.text {
        Some(s) => seq![s],
        None => match mail.html {
            Some(s) => seq![prose::untagged(s)],
            None => Seq::empty(),
        },
    }
}

/// The text of a mail: its headers, an empty line behind them if there are any, and its body.
pub open spec fn mail_text(mail: MailView) -> Seq<char> {
    let headers = mail_header_lines(mail);
    let blank = if headers.len() == 0 {
        Seq::<Seq<char>>::empty()
    } else {
        seq![Seq::<char>::empty()]
    };
    text::join(headers + blank + mail_body(mail), "\n"@)
}

/// The document in a file with a mail.
pub open spec fn mail_document(
    filename: Seq<char>,
    file_size: u64,
    mail: Option<MailView>,
) -> Result<DocumentView, Seq<char>> {
    match mail {
        None => Err("Failed to parse email"@),
        Some(m) => Ok(
            DocumentView {
                title: m.subject,
                author: m.from,
                date: m.date,
                ..plain_document(mail_text(m), filename, "message/rfc822"@, file_size)
            },
        ),
    }
}

/// Appends a line with a header, if the mail has the header.
fn push_header(parts: &mut Vec<String>, key: &str, value: &Option<String>)
    ensures
        final(parts)@.map_values(|s: String| s@) == old(parts)@.map_values(|s: String| s@)
            + header_line(key@, text::text_option(*value)),
{
    let ghost before = parts@;
    if let Some(v) = value {
        parts.push(text::concat(key, v.as_str()));
    }
    assert(parts@.map_values(|s: String| s@) =~= before.map_values(|s: String| s@) + header_line(
        key@,
        text::text_option(*value),
    ));
}

/// The text of a mail.
fn text_of_mail(mail: &Mail) -> (r: String)
    ensures
        r@ == mail_text(mail@),
{
    let ghost f = |s: String| s@;
    let mut parts: Vec<String> = Vec::new();
    assert(parts@.map_values(f) =~= Seq::<Seq<char>>::empty());
    push_header(&mut parts, "Subject: ", &mail.subject);
    push_header(&mut parts, "From: ", &mail.from);
    push_header(&mut parts, "Date: ", &mail.date);
    let ghost headers = mail_header_lines(mail@);
    assert(parts@.map_values(f) =~= headers);
    let ghost before = parts@;
    if parts.len() > 0 {
        assert(headers.len() > 0);
        parts.push(String::new());
        assert(parts@.map_values(f) =~= headers + seq![Seq::<char>::empty()]);
    } else {
        assert(headers.len() == 0);
        assert(parts@.map_values(f) =~= headers + Seq::<Seq<char>>::empty());
    }
    let ghost with_blank = parts@.map_values(f);
    match &mail.text {
        Some(s) => {
            parts.push(s.clone());
            assert(parts@.map_values(f) =~= with_blank + seq![s@]);
        },
        None => match &mail.html {
            Some(s) => {
                let plain: String = prose::strip_html_tags(s.as_str());
                parts.push(plain);
                assert(parts@.map_values(f) =~= with_blank + seq![prose::untagged(s@)]);
            },
            None => {
                assert(parts@.map_values(f) =~= with_blank + Seq::<Seq<char>>::empty());
            },
        },
    }
    text::join_strings(&parts, "\n")
}

/// What the mail in a file says.
pub open spec fn mail_view(mail: Option<Mail>) -> Option<MailView> {
    match mail {
        Some(m) => Some(m@),
        None => None,
    }
}

/// The document in a file with a mail, or why there is none.
pub fn document_of_mail(filename: String, file_size: u64, mail: &Option<Mail>) -> (r: Result<
    ExtractedDocument,
    String,
>)
    ensures
        document_result(r) == mail_document(filename@, file_size, mail_view(*mail)),
{
    match mail {
        None => Err("Failed to parse email".to_owned()),
        Some(mail) => Ok(
            ExtractedDocument {
                text: text_of_mail(mail),
                metadata: DocumentMetadata {
                    filename,
                    mime_type: "message/rfc822".to_owned(),
                    file_size,
                    title: text::copy_option(&mail.subject),
                    author: text::copy_option(&mail.from),
                    page_count: None,
                    subject: None,
                    date: text::copy_option(&mail.date),
                },
            },
        ),
    }
}

impl Extractor for EmailExtractor {
    /// The file with the mail, or why it cannot be read.
    type Content = Result<MailContent, String>;

    open spec fn document(&self, file: FileName, content: Result<MailContent, String>) -> Result<
        DocumentView,
        Seq<char>,
    > {
        match content {
            Err(e) => unreadable(e@),
            Ok(c) => mail_document(
                text_or(file.name, "unknown.eml"@),
                c.file_size,
                mail_view(c.mail),
            ),
        }
    }

    fn extract(&self, file: &FileName, content: &Result<MailContent, String>) -> (r: Result<
        ExtractedDocument,
        String,
    >) {
        match content {
            Err(e) => Err(text::concat("Failed to read file: ", e.as_str())),
            Ok(c) => document_of_mail(
                copy_or(&file.name, "unknown.eml"),
                c.file_size,
                &c.mail,
            ),
        }
    }
}

/// An extractor for files of some type.
#[derive(Debug)]
pub enum AnyExtractor {
    Pdf(PdfExtractor),
    Docx(DocxExtractor),
    Email(EmailExtractor),
    Plaintext(PlaintextExtractor),
}

/// `s` in lower case, by Unicode.
pub uninterp spec fn lower_case(s: Seq<char>) -> Seq<char>;

/// A character of ASCII in lower case.
pub open spec fn ascii_lower(c: char) -> char {
    if 'A' <= c && c <= 'Z' {
        (c as u32 + 32) as char
    } else {
        c
    }
}

/// `str::to_lowercase` depends on the text alone, and puts text in ASCII in lower case character by
/// character. What it makes of other characters is not said.
pub assume_specification [str::to_lowercase](string: &str) -> (r: String)
    ensures
        r@ == lower_case(string@),
        (forall|i: int| 0 <= i < string@.len() ==> (#[trigger] string@[i]) as u32 <= 0x7F) ==> r@
            == string@.map_values(|c: char| ascii_lower(c)),
;

/// The extensions of text files.
pub open spec fn is_text_extension(ext: Seq<char>) -> bool {
    ||| ext == "txt"@
    ||| ext == "md"@
    ||| ext == "csv"@
    ||| ext == "log"@
    ||| ext == "json"@
    ||| ext == "xml"@
    ||| ext == "html"@
    ||| ext == "htm"@
    ||| ext == "yaml"@
    ||| ext == "yml"@
    ||| ext == "toml"@
    ||| ext == "ini"@
    ||| ext == "cfg"@
    ||| ext == "conf"@
    ||| ext == "rst"@
    ||| ext == "tex"@
}

/// The extractor for files with an extension in lower case.
pub open spec fn extractor_of(ext: Seq<char>) -> Option<AnyExtractor> {
    if ext == "pdf"@ {
        Some(AnyExtractor::Pdf(PdfExtractor))
    } else if ext == "docx"@ {
        Some(AnyExtractor::Docx(DocxExtractor))
    } else if ext == "eml"@ || ext == "msg"@ {
        Some(AnyExtractor::Email(EmailExtractor))
    } else if is_text_extension(ext) {
        Some(AnyExtractor::Plaintext(PlaintextExtractor))
    } else {
        None
    }
}

/// Whether `ext` is an extension of text files.
fn has_text_extension(ext: &str) -> (r: bool)
    ensures
        r == is_text_extension(ext@),
{
    text::str_eq(ext, "txt") || text::str_eq(ext, "md") || text::str_eq(ext, "csv")
        || text::str_eq(ext, "log") || text::str_eq(ext, "json") || text::str_eq(ext, "xml")
        || text::str_eq(ext, "html") || text::str_eq(ext, "htm") || text::str_eq(ext, "yaml")
        || text::str_eq(ext, "yml") || text::str_eq(ext, "toml") || text::str_eq(ext, "ini")
        || text::str_eq(ext, "cfg") || text::str_eq(ext, "conf") || text::str_eq(ext, "rst")
        || text::str_eq(ext, "tex")
}

/// The extractor for files with an extension in lower case.
pub fn extractor_for(ext: &str) -> (r: Option<AnyExtractor>)
    ensures
        r == extractor_of(ext@),
{
    if text::str_eq(ext, "pdf") {
        Some(AnyExtractor::Pdf(PdfExtractor))
    } else if text::str_eq(ext, "docx") {
        Some(AnyExtractor::Docx(DocxExtractor))
    } else if text::str_eq(ext, "eml") || text::str_eq(ext, "msg") {
        Some(AnyExtractor::Email(EmailExtractor))
    } else if has_text_extension(ext) {
        Some(AnyExtractor::Plaintext(PlaintextExtractor))
    } else {
        None
    }
}

/// The extractor for a file, by its extension in lower case. A file without an extension has none.
pub fn get_extractor(file: &FileName) -> (r: Option<AnyExtractor>)
    ensures
        r == extractor_of(
            match file.extension {
                Some(ext) => lower_case(ext@),
                None => Seq::<char>::empty(),
            },
        ),
        file.extension matches Some(ext) && (forall|i: int|
            0 <= i < ext@.len() ==> (#[trigger] ext@[i]) as u32 <= 0x7F) ==> r == extractor_of(
            file.extension->0@.map_values(|c: char| ascii_lower(c)),
        ),
        file.extension is None ==> r is None,
{
    match &file.extension {
        Some(ext) => {
            let lower: String = ext.as_str().to_lowercase();
            extractor_for(lower.as_str())
        },
        None => {
            let none: String = String::new();
            proof {
                assert(none@ =~= Seq::<char>::empty());
                lemma_no_extension();
            }
            extractor_for(none.as_str())
        },
    }
}

/// Files without an extension have no extractor.
proof fn lemma_no_extension()
    ensures
        extractor_of(Seq::<char>::empty()) is None,
{
    reveal_strlit("pdf");
    reveal_strlit("docx");
    reveal_strlit("eml");
    reveal_strlit("msg");
    reveal_strlit("txt");
    reveal_strlit("md");
    reveal_strlit("csv");
    reveal_strlit("log");
    reveal_strlit("json");
    reveal_strlit("xml");
    reveal_strlit("html");
    reveal_strlit("htm");
    reveal_strlit("yaml");
    reveal_strlit("yml");
    reveal_strlit("toml");
    reveal_strlit("ini");
    reveal_strlit("cfg");
    reveal_strlit("conf");
    reveal_strlit("rst");
    reveal_strlit("tex");
    assert("pdf"@.len() == 3);
    assert("docx"@.len() == 4);
    assert("eml"@.len() == 3);
    assert("msg"@.len() == 3);
    assert("txt"@.len() == 3);
    assert("md"@.len() == 2);
    assert("csv"@.len() == 3);
    assert("log"@.len() == 3);
    assert("json"@.len() == 4);
    assert("xml"@.len() == 3);
    assert("html"@.len() == 4);
    assert("htm"@.len() == 3);
    assert("yaml"@.len() == 4);
    assert("yml"@.len() == 3);
    assert("toml"@.len() == 4);
    assert("ini"@.len() == 3);
    assert("cfg"@.len() == 3);
    assert("conf"@.len() == 4);
    assert("rst"@.len() == 3);
    assert("tex"@.len() == 3);
}

/// Why a file is not extracted.
pub fn unsupported_type(file: &FileName) -> (r: String)
    ensures
        r@ == "unsupported file type: ."@ + text_or(file.extension, "(none)"@),
{
    let ext: String = copy_or(&file.extension, "(none)");
    text::concat("unsupported file type: .", ext.as_str())
}

/// How many characters the text pieces of a run have.
pub open spec fn text_length(pieces: Seq<RunPiece>) -> nat
    decreases pieces.len(),
{
    if pieces.len() == 0 {
        0
    } else {
        (match pieces[0] {
            RunPiece::Text(s) => s@.len(),
            RunPiece::Other => 0,
        }) + text_length(pieces.drop_first())
    }
}

/// The text of two runs of pieces, one behind the other, is the text of the first and then that of
/// the second. One piece of text is the text itself, and one of another sort adds nothing.
pub proof fn law_run_text_adds_up(a: Seq<RunPiece>, b: Seq<RunPiece>, s: String)
    ensures
        run_text(a + b) == run_text(a) + run_text(b),
        run_text(seq![RunPiece::Text(s)]) == s@,
        run_text(seq![RunPiece::Other]).len() == 0,
    decreases b.len(),
{
    let empty = Seq::<RunPiece>::empty();
    let text = seq![RunPiece::Text(s)];
    assert(text.drop_last() =~= empty);
    assert(run_text(empty) =~= Seq::<char>::empty());
    assert(text.last() == RunPiece::Text(s));
    assert(run_text(text) =~= s@);
    assert(seq![RunPiece::Other].drop_last() =~= empty);
    if b.len() == 0 {
        assert(a + b =~= a);
        assert(run_text(a) + run_text(b) =~= run_text(a));
    } else {
        law_run_text_adds_up(a, b.drop_last(), s);
        assert((a + b).drop_last() =~= a + b.drop_last());
        assert(run_text(a + b) =~= run_text(a) + run_text(b));
    }
}

/// Leaving a piece that is no text out of a run never changes its text, and the text is as long as
/// the text pieces are together.
pub proof fn law_run_text_is_its_text_pieces(pieces: Seq<RunPiece>, i: int)
    ensures
        0 <= i < pieces.len() && pieces[i] is Other ==> run_text(pieces.remove(i)) == run_text(
            pieces,
        ),
        run_text(pieces).len() == text_length(pieces),
    decreases pieces.len(),
{
    if 0 <= i < pieces.len() && pieces[i] is Other {
        let a = pieces.take(i);
        let b = pieces.skip(i + 1);
        let mid = seq![pieces[i]];
        let none = arbitrary::<String>();
        assert(pieces =~= a + mid + b);
        assert(pieces.remove(i) =~= a + b);
        law_run_text_adds_up(a + mid, b, none);
        law_run_text_adds_up(a, mid, none);
        law_run_text_adds_up(a, b, none);
        assert(mid =~= seq![RunPiece::Other]);
        assert(run_text(mid) =~= Seq::<char>::empty());
        assert(run_text(a) + run_text(mid) =~= run_text(a));
    }
    if pieces.len() > 0 {
        let rest = pieces.drop_first();
        law_run_text_is_its_text_pieces(rest, 0);
        let one = seq![pieces[0]];
        assert(pieces =~= one + rest);
        match pieces[0] {
            RunPiece::Text(s) => {
                law_run_text_adds_up(one, rest, s);
            },
            RunPiece::Other => {
                law_run_text_adds_up(one, rest, arbitrary::<String>());
            },
        }
    }
}

/// The text of a paragraph is that of its runs, joined in order; other parts add nothing.
pub proof fn law_paragraph_text_adds_up(
    a: Seq<ParagraphPart>,
    b: Seq<ParagraphPart>,
    pieces: Vec<RunPiece>,
)
    ensures
        paragraph_text(a + b) == paragraph_text(a) + paragraph_text(b),
        paragraph_text(seq![ParagraphPart::Run(pieces)]) == run_text(pieces@),
        paragraph_text(seq![ParagraphPart::Other]).len() == 0,
    decreases b.len(),
{
    let empty = Seq::<ParagraphPart>::empty();
    assert(paragraph_text(empty) =~= Seq::<char>::empty());
    let run = seq![ParagraphPart::Run(pieces)];
    assert(run.drop_last() =~= empty);
    assert(run.last() == ParagraphPart::Run(pieces));
    assert(paragraph_text(run) =~= run_text(pieces@));
    let other = seq![ParagraphPart::Other];
    assert(other.drop_last() =~= empty);
    assert(other.last() == ParagraphPart::Other);
    if b.len() == 0 {
        assert(a + b =~= a);
        assert(paragraph_text(a) + paragraph_text(b) =~= paragraph_text(a));
    } else {
        law_paragraph_text_adds_up(a, b.drop_last(), pieces);
        assert((a + b).drop_last() =~= a + b.drop_last());
        assert((a + b).last() == b.last());
        assert(paragraph_text(a + b) =~= paragraph_text(a) + paragraph_text(b));
    }
}

/// The paragraphs of a document follow each other in order: a paragraph with text is one of them,
/// and one without text, or another block, is none.
pub proof fn law_paragraphs_add_up(a: Seq<Block>, b: Seq<Block>, parts: Vec<ParagraphPart>)
    ensures
        paragraph_texts(a + b) == paragraph_texts(a) + paragraph_texts(b),
        paragraph_text(parts@).len() > 0 ==> paragraph_texts(seq![Block::Paragraph(parts)]) == seq![
            paragraph_text(parts@),
        ],
        paragraph_text(parts@).len() == 0 ==> paragraph_texts(
            seq![Block::Paragraph(parts)],
        ).len() == 0,
        paragraph_texts(seq![Block::Other]).len() == 0,
    decreases b.len(),
{
    let empty = Seq::<Block>::empty();
    assert(paragraph_texts(empty) =~= Seq::<Seq<char>>::empty());
    let one = seq![Block::Paragraph(parts)];
    assert(one.drop_last() =~= empty);
    assert(one.last() == Block::Paragraph(parts));
    if paragraph_text(parts@).len() > 0 {
        assert(paragraph_texts(one) =~= seq![paragraph_text(parts@)]);
    }
    let other = seq![Block::Other];
    assert(other.drop_last() =~= empty);
    assert(other.last() == Block::Other);
    if b.len() == 0 {
        assert(a + b =~= a);
        assert(paragraph_texts(a) + paragraph_texts(b) =~= paragraph_texts(a));
    } else {
        law_paragraphs_add_up(a, b.drop_last(), parts);
        assert((a + b).drop_last() =~= a + b.drop_last());
        assert((a + b).last() == b.last());
        assert(paragraph_texts(a + b) =~= paragraph_texts(a) + paragraph_texts(b));
    }
}

/// A file that cannot be read has no document, whatever it is, and the reason is told.
pub proof fn law_unreadable_files(file: FileName, e: String)
    ensures
        PlaintextExtractor.document(file, Err(e)) == Err::<DocumentView, Seq<char>>(
            "Failed to read file: "@ + e@,
        ),
        PdfExtractor.document(file, Err(e)) == Err::<DocumentView, Seq<char>>(
            "Failed to read file: "@ + e@,
        ),
        DocxExtractor.document(file, Err(e)) == Err::<DocumentView, Seq<char>>(
            "Failed to read file: "@ + e@,
        ),
        EmailExtractor.document(file, Err(e)) == Err::<DocumentView, Seq<char>>(
            "Failed to read file: "@ + e@,
        ),
{
}

/// A text file is its text, unchanged, with its size in bytes; it has no further metadata.
pub proof fn law_text_files_are_kept(file: FileName, s: String)
    ensures
        PlaintextExtractor.document(file, Ok(s)) matches Ok(d) && {
            &&& d.text == s@
            &&& file.name matches Some(name) ==> d.filename == name@
            &&& file.name is None ==> d.filename == "unknown.txt"@
            &&& file.extension matches Some(ext) ==> d.mime_type == text_type(ext@)
            &&& file.extension is None ==> d.mime_type == "text/plain"@
            &&& d.file_size == (vstd::utf8::encode_utf8(s@).len() as usize) as u64
            &&& d.title is None && d.author is None && d.page_count is None && d.subject is None
                && d.date is None
        },
{
    reveal_strlit("txt");
    reveal_strlit("md");
    reveal_strlit("csv");
    reveal_strlit("json");
    reveal_strlit("xml");
    reveal_strlit("html");
    reveal_strlit("htm");
    reveal_strlit("yaml");
    reveal_strlit("yml");
    reveal_strlit("toml");
    assert("txt"@.len() == 3 && "md"@.len() == 2 && "json"@.len() == 4 && "html"@.len() == 4
        && "yaml"@.len() == 4 && "toml"@.len() == 4);
    assert("txt"@[0] == 't' && "csv"@[0] == 'c' && "xml"@[0] == 'x' && "htm"@[0] == 'h' && "yml"@[0]
        == 'y');
}

/// The types of text files, by extension; any other is plain text.
pub proof fn law_text_types(ext: Seq<char>)
    ensures
        text_type(ext) == "text/markdown"@ <==> ext == "md"@,
        text_type(ext) == "text/csv"@ <==> ext == "csv"@,
        text_type(ext) == "application/json"@ <==> ext == "json"@,
        text_type(ext) == "application/xml"@ <==> ext == "xml"@,
        text_type(ext) == "text/html"@ <==> ext == "html"@ || ext == "htm"@,
        text_type(ext) == "text/yaml"@ <==> ext == "yaml"@ || ext == "yml"@,
        text_type(ext) == "text/toml"@ <==> ext == "toml"@,
        !seq!["md"@, "csv"@, "json"@, "xml"@, "html"@, "htm"@, "yaml"@, "yml"@, "toml"@].contains(
            ext,
        ) ==> text_type(ext) == "text/plain"@,
{
    let known = seq!["md"@, "csv"@, "json"@, "xml"@, "html"@, "htm"@, "yaml"@, "yml"@, "toml"@];
    assert(known[0] == "md"@ && known[1] == "csv"@ && known[2] == "json"@ && known[3] == "xml"@
        && known[4] == "html"@ && known[5] == "htm"@ && known[6] == "yaml"@ && known[7] == "yml"@
        && known[8] == "toml"@);
    reveal_strlit("md");
    reveal_strlit("csv");
    reveal_strlit("json");
    reveal_strlit("xml");
    reveal_strlit("html");
    reveal_strlit("htm");
    reveal_strlit("yaml");
    reveal_strlit("yml");
    reveal_strlit("toml");
    assert("md"@.len() == 2 && "csv"@.len() == 3 && "json"@.len() == 4 && "xml"@.len() == 3
        && "html"@.len() == 4 && "htm"@.len() == 3 && "yaml"@.len() == 4 && "yml"@.len() == 3
        && "toml"@.len() == 4);
    assert("csv"@[0] == 'c' && "json"@[0] == 'j' && "xml"@[0] == 'x' && "html"@[0] == 'h' && "htm"@[0]
        == 'h' && "yaml"@[0] == 'y' && "yml"@[0] == 'y' && "toml"@[0] == 't');
    reveal_strlit("text/markdown");
    reveal_strlit("text/csv");
    reveal_strlit("application/json");
    reveal_strlit("application/xml");
    reveal_strlit("text/html");
    reveal_strlit("text/yaml");
    reveal_strlit("text/toml");
    reveal_strlit("text/plain");
    assert("text/markdown"@.len() == 13 && "text/csv"@.len() == 8 && "application/json"@.len() == 16
        && "application/xml"@.len() == 15 && "text/html"@.len() == 9 && "text/yaml"@.len() == 9
        && "text/toml"@.len() == 9 && "text/plain"@.len() == 10);
    assert("text/html"@[5] == 'h' && "text/yaml"@[5] == 'y' && "text/toml"@[5] == 't');
}

/// A PDF file with text is that text, normalized, with its size and the number of its pages; one
/// without is refused with the reason.
pub proof fn law_pdf_files(file: FileName, pdf: PdfContent)
    ensures
        match pdf.text {
            Ok(s) => PdfExtractor.document(file, Ok(pdf)) matches Ok(d) && {
                &&& d.text == prose::normalized(s@)
                &&& d.page_count == prose::pages_in(pdf.bytes@)
                &&& d.file_size == pdf.bytes@.len() as u64
                &&& d.mime_type == "application/pdf"@
                &&& file.name matches Some(name) ==> d.filename == name@
                &&& file.name is None ==> d.filename == "unknown.pdf"@
                &&& d.title is None && d.author is None && d.subject is None && d.date is None
            },
            Err(e) => PdfExtractor.document(file, Ok(pdf)) == Err::<DocumentView, Seq<char>>(
                "PDF parse error: "@ + e@,
            ),
        },
{
}

/// A DOCX file is the text of its paragraphs, with an empty line between two, and its size; one that
/// has no blocks is refused with the reason.
pub proof fn law_docx_files(file: FileName, docx: DocxContent)
    ensures
        match docx.blocks {
            Ok(blocks) => DocxExtractor.document(file, Ok(docx)) matches Ok(d) && {
                &&& d.text == text::join(paragraph_texts(blocks@), "\n\n"@)
                &&& d.file_size == docx.file_size
                &&& d.mime_type == DOCX_TYPE@
                &&& file.name matches Some(name) ==> d.filename == name@
                &&& file.name is None ==> d.filename == "unknown.docx"@
                &&& d.title is None && d.author is None && d.page_count is None && d.subject is None
                    && d.date is None
            },
            Err(e) => DocxExtractor.document(file, Ok(docx)) == Err::<DocumentView, Seq<char>>(
                "DOCX parse error: "@ + e@,
            ),
        },
{
}

/// A mail is its text, with its subject as title, its sender as author, and its date; a file that is
/// no mail is refused.
pub proof fn law_mail_files(file: FileName, content: MailContent)
    ensures
        match content.mail {
            Some(mail) => EmailExtractor.document(file, Ok(content)) matches Ok(d) && {
                &&& d.text == mail_text(mail@)
                &&& d.title == mail@.subject
                &&& d.author == mail@.from
                &&& d.date == mail@.date
                &&& d.file_size == content.file_size
                &&& d.mime_type == "message/rfc822"@
                &&& file.name matches Some(name) ==> d.filename == name@
                &&& file.name is None ==> d.filename == "unknown.eml"@
                &&& d.page_count is None && d.subject is None
            },
            None => EmailExtractor.document(file, Ok(content)) == Err::<DocumentView, Seq<char>>(
                "Failed to parse email"@,
            ),
        },
{
}

/// The text that a mail has as its body: its text, or else its HTML without tags, or else none.
pub open spec fn body_of_mail(mail: MailView) -> Seq<char> {
    match (mail.text, mail.html) {
        (Some(s), _) => s,
        (None, Some(s)) => prose::untagged(s),
        (None, None) => Seq::empty(),
    }
}

/// The text of a mail is its body alone where it has none of the headers; else the headers that it
/// has, a line each, come first, and an empty line stands before the body.
pub proof fn law_mail_text(mail: MailView)
    ensures
        mail.subject is None && mail.from is None && mail.date is None ==> mail_text(mail)
            == body_of_mail(mail),
        (mail.subject is Some || mail.from is Some || mail.date is Some) && (mail.text is Some
            || mail.html is Some) ==> mail_text(mail) == text::join(mail_header_lines(mail), "\n"@)
            + "\n"@ + "\n"@ + body_of_mail(mail),
        (mail.subject is Some || mail.from is Some || mail.date is Some) && mail.text is None
            && mail.html is None ==> mail_text(mail) == text::join(mail_header_lines(mail), "\n"@)
            + "\n"@,
{
    let headers = mail_header_lines(mail);
    let nl = "\n"@;
    let blank = Seq::<char>::empty();
    if headers.len() == 0 {
        assert(headers + Seq::<Seq<char>>::empty() + mail_body(mail) =~= mail_body(mail));
        assert(mail_text(mail) =~= body_of_mail(mail));
    } else {
        text::law_join(headers, blank, nl);
        let with_blank = headers.push(blank);
        assert(headers + seq![blank] =~= with_blank);
        assert(text::join(with_blank, nl) =~= text::join(headers, nl) + nl);
        if mail.text is Some || mail.html is Some {
            let body = body_of_mail(mail);
            text::law_join(with_blank, body, nl);
            assert(headers + seq![blank] + mail_body(mail) =~= with_blank.push(body));
            assert(mail_text(mail) =~= text::join(headers, nl) + nl + nl + body);
        } else {
            assert(headers + seq![blank] + mail_body(mail) =~= with_blank);
        }
    }
}

/// The headers of a mail stand in the order subject, sender, date, each with its name, and one that
/// is missing has no line.
pub proof fn law_mail_headers(mail: MailView)
    ensures
        ({
            let lines = mail_header_lines(mail);
            let a = if mail.subject is Some {
                1int
            } else {
                0
            };
            let b = a + if mail.from is Some {
                1int
            } else {
                0
            };
            &&& lines.len() == b + if mail.date is Some {
                1int
            } else {
                0
            }
            &&& mail.subject matches Some(s) ==> lines[0] == "Subject: "@ + s
            &&& mail.from matches Some(s) ==> lines[a] == "From: "@ + s
            &&& mail.date matches Some(s) ==> lines[b] == "Date: "@ + s
        }),
{
}

/// Which files are read how, by their extension in lower case.
pub proof fn law_extensions(ext: Seq<char>)
    ensures
        extractor_of(ext) is Some <==> seq![
            "pdf"@,
            "docx"@,
            "eml"@,
            "msg"@,
            "txt"@,
            "md"@,
            "csv"@,
            "log"@,
            "json"@,
            "xml"@,
            "html"@,
            "htm"@,
            "yaml"@,
            "yml"@,
            "toml"@,
            "ini"@,
            "cfg"@,
            "conf"@,
            "rst"@,
            "tex"@,
        ].contains(ext),
        extractor_of(ext) matches Some(AnyExtractor::Pdf(_)) <==> ext == "pdf"@,
        extractor_of(ext) matches Some(AnyExtractor::Docx(_)) <==> ext == "docx"@,
        extractor_of(ext) matches Some(AnyExtractor::Email(_)) <==> ext == "eml"@ || ext == "msg"@,
{
    let all = seq![
        "pdf"@,
        "docx"@,
        "eml"@,
        "msg"@,
        "txt"@,
        "md"@,
        "csv"@,
        "log"@,
        "json"@,
        "xml"@,
        "html"@,
        "htm"@,
        "yaml"@,
        "yml"@,
        "toml"@,
        "ini"@,
        "cfg"@,
        "conf"@,
        "rst"@,
        "tex"@,
    ];
    assert(all[0] == "pdf"@ && all[1] == "docx"@ && all[2] == "eml"@ && all[3] == "msg"@ && all[4]
        == "txt"@ && all[5] == "md"@ && all[6] == "csv"@ && all[7] == "log"@ && all[8] == "json"@
        && all[9] == "xml"@);
    assert(all[10] == "html"@ && all[11] == "htm"@ && all[12] == "yaml"@ && all[13] == "yml"@
        && all[14] == "toml"@ && all[15] == "ini"@ && all[16] == "cfg"@ && all[17] == "conf"@
        && all[18] == "rst"@ && all[19] == "tex"@);
    reveal_strlit("pdf");
    reveal_strlit("docx");
    reveal_strlit("eml");
    reveal_strlit("msg");
    assert("pdf"@.len() == 3 && "docx"@.len() == 4 && "eml"@.len() == 3 && "msg"@.len() == 3);
    assert("pdf"@[0] == 'p' && "eml"@[0] == 'e' && "msg"@[0] == 'm');
}

/// A document says its text and everything that is known of it, or why there is none.
pub proof fn law_documents_say_what_they_hold(
    d: ExtractedDocument,
    r: Result<ExtractedDocument, String>,
    mail: Mail,
)
    ensures
        d@.text == d.text@,
        d@.filename == d.metadata.filename@,
        d@.mime_type == d.metadata.mime_type@,
        d@.file_size == d.metadata.file_size,
        d@.title == text::text_option(d.metadata.title),
        d@.author == text::text_option(d.metadata.author),
        d@.page_count == d.metadata.page_count,
        d@.subject == text::text_option(d.metadata.subject),
        d@.date == text::text_option(d.metadata.date),
        r matches Ok(doc) ==> document_result(r) == Ok::<DocumentView, Seq<char>>(doc@),
        r matches Err(e) ==> document_result(r) == Err::<DocumentView, Seq<char>>(e@),
        mail@.subject == text::text_option(mail.subject),
        mail@.from == text::text_option(mail.from),
        mail@.date == text::text_option(mail.date),
        mail@.text == text::text_option(mail.text),
        mail@.html == text::text_option(mail.html),
        mail_view(Some(mail)) == Some(mail@),
        mail_view(None::<Mail>) is None,
{
}

/// A text that is there is kept, and one that is not is replaced.
pub proof fn law_text_or(s: String, default: Seq<char>)
    ensures
        text_or(Some(s), default) == s@,
        text_or(None::<String>, default) == default,
{
}

/// Lower case in ASCII: a capital letter becomes the small letter at the same place of the
/// alphabet, every other character stays, no capital is left, and a second pass changes nothing.
pub proof fn law_ascii_lower(c: char)
    ensures
        'A' <= c <= 'Z' ==> 'a' <= ascii_lower(c) <= 'z' && ascii_lower(c) as u32 - 'a' as u32 == c
            as u32 - 'A' as u32,
        !('A' <= c <= 'Z') ==> ascii_lower(c) == c,
        !('A' <= ascii_lower(c) <= 'Z'),
        ascii_lower(ascii_lower(c)) == ascii_lower(c),
{
}

} // verus!
