use nodemesh::document::{
    document_of_mail, document_text, extractor_for, get_extractor, unsupported_type, AnyExtractor,
    Block, DocxContent, DocxExtractor, EmailExtractor, Extractor, FileName, Mail, MailContent,
    ParagraphPart, PdfContent, PdfExtractor, PlaintextExtractor, RunPiece,
};
use nodemesh::prose::{count_pdf_pages, normalize_whitespace, strip_html_tags};

fn file(name: &str, extension: &str) -> FileName {
    FileName { name: Some(name.to_string()), extension: Some(extension.to_string()) }
}

fn nameless() -> FileName {
    FileName { name: None, extension: None }
}

fn run(texts: &[&str]) -> ParagraphPart {
    ParagraphPart::Run(texts.iter().map(|s| RunPiece::Text(s.to_string())).collect())
}

#[test]
fn extractors_by_extension() {
    let ext = |e: &str| get_extractor(&FileName { name: None, extension: Some(e.to_string()) });
    assert!(matches!(ext("pdf"), Some(AnyExtractor::Pdf(_))));
    assert!(matches!(ext("PDF"), Some(AnyExtractor::Pdf(_))));
    assert!(matches!(ext("DocX"), Some(AnyExtractor::Docx(_))));
    assert!(matches!(ext("eml"), Some(AnyExtractor::Email(_))));
    assert!(matches!(ext("msg"), Some(AnyExtractor::Email(_))));
    for e in [
        "txt", "md", "csv", "log", "json", "xml", "html", "htm", "yaml", "yml", "toml", "ini",
        "cfg", "conf", "rst", "tex",
    ] {
        assert!(matches!(ext(e), Some(AnyExtractor::Plaintext(_))));
        assert!(matches!(ext(&e.to_uppercase()), Some(AnyExtractor::Plaintext(_))));
    }
    assert!(ext("exe").is_none());
    assert!(ext("").is_none());
    assert!(get_extractor(&nameless()).is_none());
    assert!(extractor_for("PDF").is_none());
    assert!(extractor_for("pdf").is_some());
    assert_eq!(unsupported_type(&file("a.exe", "exe")), "unsupported file type: .exe");
    assert_eq!(unsupported_type(&nameless()), "unsupported file type: .(none)");
}

#[test]
fn plain_text_is_kept() {
    let doc = PlaintextExtractor.extract(&file("a.md", "md"), &Ok("h\u{e9}llo\n".to_string())).unwrap();
    assert_eq!(doc.text, "h\u{e9}llo\n");
    assert_eq!(doc.metadata.filename, "a.md");
    assert_eq!(doc.metadata.mime_type, "text/markdown");
    assert_eq!(doc.metadata.file_size, 7);
    assert!(doc.metadata.title.is_none() && doc.metadata.page_count.is_none());
    let doc = PlaintextExtractor.extract(&nameless(), &Ok(String::new())).unwrap();
    assert_eq!(doc.metadata.filename, "unknown.txt");
    assert_eq!(doc.metadata.mime_type, "text/plain");
    let e = PlaintextExtractor.extract(&nameless(), &Err("gone".to_string())).unwrap_err();
    assert_eq!(e, "Failed to read file: gone");
}

#[test]
fn types_of_text_files() {
    for (ext, mime) in [
        ("md", "text/markdown"),
        ("csv", "text/csv"),
        ("json", "application/json"),
        ("xml", "application/xml"),
        ("html", "text/html"),
        ("htm", "text/html"),
        ("yaml", "text/yaml"),
        ("yml", "text/yaml"),
        ("toml", "text/toml"),
        ("MD", "text/plain"),
        ("log", "text/plain"),
    ] {
        let doc = PlaintextExtractor.extract(&file("f", ext), &Ok(String::new())).unwrap();
        assert_eq!(doc.metadata.mime_type, mime);
    }
}

#[test]
fn pdf_text_is_normalized() {
    let bytes = b"/Type /Page\n/Type /Pages /Type/Page /Type /Page \r".to_vec();
    let content = Ok(PdfContent { bytes, text: Ok("\n a\n\n\n\nb \n".to_string()) });
    let doc = PdfExtractor.extract(&file("a.pdf", "pdf"), &content).unwrap();
    assert_eq!(doc.text, "a\n\nb");
    assert_eq!(doc.metadata.mime_type, "application/pdf");
    assert_eq!(doc.metadata.page_count, Some(3));
    assert_eq!(doc.metadata.file_size, 49);
    let content = Ok(PdfContent { bytes: Vec::new(), text: Err("bad".to_string()) });
    assert_eq!(PdfExtractor.extract(&nameless(), &content).unwrap_err(), "PDF parse error: bad");
    let content = Ok(PdfContent { bytes: vec![1], text: Ok(String::new()) });
    let doc = PdfExtractor.extract(&nameless(), &content).unwrap();
    assert_eq!(doc.metadata.filename, "unknown.pdf");
    assert_eq!(doc.metadata.page_count, None);
    let e = PdfExtractor.extract(&nameless(), &Err("gone".to_string())).unwrap_err();
    assert_eq!(e, "Failed to read file: gone");
}

#[test]
fn pages_are_counted_by_their_marks() {
    let count = |s: &[u8]| count_pdf_pages(&s.to_vec());
    assert_eq!(count(b""), None);
    assert_eq!(count(b"/Type /Page"), None);
    assert_eq!(count(b"/Type /Page\r"), Some(1));
    assert_eq!(count(b"/Type /Pages "), None);
    assert_eq!(count(b"/Type/Pages"), None);
    assert_eq!(count(b"/Type/Pages /Type /Page\n"), Some(1));
    assert_eq!(count(b"/Type/Page"), Some(1));
    assert_eq!(count(b"/Type/Page>>/Type/Pages"), Some(1));
    assert_eq!(count(b"\xff/Type/Page\xfe/Type /Page\n\xc3"), Some(2));
    assert_eq!(count(b"/Type/Page/Type/Page"), Some(2));
}

#[test]
fn white_space_is_normalized() {
    assert_eq!(normalize_whitespace(""), "");
    assert_eq!(normalize_whitespace("  a\n\nb\n\n\n\n\nc\n"), "a\n\nb\n\nc");
    assert_eq!(normalize_whitespace("a\n\n \n\nb"), "a\n\n \n\nb");
    let once = normalize_whitespace("x\n\n\n y\n\n\n");
    assert_eq!(normalize_whitespace(&once), once);
}

#[test]
fn tags_are_left_out() {
    assert_eq!(strip_html_tags("<p>a &lt; b</p>"), "a &lt; b");
    assert_eq!(strip_html_tags("a < b > c"), "a  c");
    assert_eq!(strip_html_tags("a>b<c"), "ab");
    assert_eq!(strip_html_tags("plain"), "plain");
}

#[test]
fn docx_paragraphs_are_joined() {
    let blocks = vec![
        Block::Paragraph(vec![run(&["Hello", ", "]), ParagraphPart::Other, run(&["world"])]),
        Block::Other,
        Block::Paragraph(vec![]),
        Block::Paragraph(vec![ParagraphPart::Run(vec![RunPiece::Other]), run(&["Bye"])]),
    ];
    assert_eq!(document_text(&blocks), "Hello, world\n\nBye");
    let content = Ok(DocxContent { file_size: 12, blocks: Ok(blocks) });
    let doc = DocxExtractor.extract(&nameless(), &content).unwrap();
    assert_eq!(doc.text, "Hello, world\n\nBye");
    assert_eq!(doc.metadata.filename, "unknown.docx");
    assert_eq!(
        doc.metadata.mime_type,
        "application/vnd.openxmlformats-officedocument.wordprocessingml.document"
    );
    assert_eq!(doc.metadata.file_size, 12);
    let content = Ok(DocxContent { file_size: 12, blocks: Err("zip".to_string()) });
    assert_eq!(DocxExtractor.extract(&nameless(), &content).unwrap_err(), "DOCX parse error: zip");
    let e = DocxExtractor.extract(&nameless(), &Err("gone".to_string())).unwrap_err();
    assert_eq!(e, "Failed to read file: gone");
}

fn mail_content(bytes: &[u8]) -> MailContent {
    let mail = mail_parser::MessageParser::default().parse(bytes).map(|m| Mail {
        subject: m.subject().map(|s| s.to_string()),
        from: m.from().and_then(|a| a.first()).and_then(|a| a.address()).map(|a| a.to_string()),
        date: m.date().map(|d| d.to_rfc3339()),
        text: m.body_text(0).map(|b| b.to_string()),
        html: m.body_html(0).map(|b| b.to_string()),
    });
    MailContent { file_size: bytes.len() as u64, mail }
}

#[test]
fn mail_is_extracted() {
    let raw = b"From: Ann <ann@example.com>\r\nSubject: Hi\r\nDate: Sat, 20 Nov 2021 14:22:01 -0800\r\nContent-Type: text/plain\r\n\r\nBody text\r\n";
    let doc = EmailExtractor.extract(&file("a.eml", "eml"), &Ok(mail_content(raw))).unwrap();
    assert_eq!(
        doc.text,
        "Subject: Hi\nFrom: ann@example.com\nDate: 2021-11-20T14:22:01-08:00\n\nBody text\r\n"
    );
    assert_eq!(doc.metadata.filename, "a.eml");
    assert_eq!(doc.metadata.mime_type, "message/rfc822");
    assert_eq!(doc.metadata.file_size, raw.len() as u64);
    assert_eq!(doc.metadata.title.as_deref(), Some("Hi"));
    assert_eq!(doc.metadata.author.as_deref(), Some("ann@example.com"));
    assert_eq!(doc.metadata.date.as_deref(), Some("2021-11-20T14:22:01-08:00"));
    assert!(doc.metadata.subject.is_none() && doc.metadata.page_count.is_none());
    let e = EmailExtractor.extract(&nameless(), &Ok(mail_content(b""))).unwrap_err();
    assert_eq!(e, "Failed to parse email");
    let mail = mail_content(raw).mail;
    let doc = EmailExtractor.extract(&nameless(), &Ok(MailContent { file_size: 7, mail })).unwrap();
    assert_eq!(doc.metadata.filename, "unknown.eml");
    assert_eq!(doc.metadata.file_size, 7);
    let e = EmailExtractor.extract(&nameless(), &Err("gone".to_string())).unwrap_err();
    assert_eq!(e, "Failed to read file: gone");
}

#[test]
fn parts_of_a_mail_that_are_missing() {
    let mail = |text: Option<&str>, html: Option<&str>| Mail {
        subject: None,
        from: None,
        date: None,
        text: text.map(|s| s.to_string()),
        html: html.map(|s| s.to_string()),
    };
    let text_of = |m: Mail| document_of_mail("f".to_string(), 1, &Some(m)).unwrap().text;
    assert_eq!(text_of(mail(Some("t"), Some("<b>h</b>"))), "t");
    assert_eq!(text_of(mail(None, Some("<b>h</b>"))), "h");
    assert_eq!(text_of(mail(None, None)), "");
    let mut headed = mail(None, None);
    headed.subject = Some("s".to_string());
    assert_eq!(text_of(headed), "Subject: s\n");
    assert_eq!(document_of_mail("f".to_string(), 1, &None).unwrap_err(), "Failed to parse email");
}
