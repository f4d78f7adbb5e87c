use std::io::{Cursor, Read, Write};

use shanji::docx::{fill_template, template_document_xml};
use shanji::error::AppError;
use zip::write::SimpleFileOptions;
use zip::{ZipArchive, ZipWriter};

fn archive(entries: &[(&str, Option<&str>)]) -> Vec<u8> {
    let mut writer = ZipWriter::new(Cursor::new(Vec::new()));
    for (name, contents) in entries {
        match contents {
            Some(text) => {
                writer.start_file(*name, SimpleFileOptions::default()).unwrap();
                writer.write_all(text.as_bytes()).unwrap();
            }
            None => writer.add_directory(*name, SimpleFileOptions::default()).unwrap(),
        }
    }
    writer.finish().unwrap().into_inner()
}

fn refusal(result: Result<impl std::fmt::Debug, AppError>) -> String {
    match result {
        Err(AppError::Validation(message)) => message,
        other => panic!("unexpected: {:?}", other),
    }
}

const BODY: &str = "<w:document><w:p>{{title}}</w:p></w:document>";

fn template() -> Vec<u8> {
    archive(&[
        ("[Content_Types].xml", Some("<Types/>")),
        ("word/", None),
        ("word/document.xml", Some(BODY)),
        ("word/styles.xml", Some("<w:styles/>")),
    ])
}

#[test]
fn a_template_gives_its_document_text() {
    assert_eq!(template_document_xml(&template()).unwrap(), BODY);
}

#[test]
fn bytes_that_are_not_an_archive_are_refused() {
    assert_eq!(refusal(template_document_xml(b"not a zip file")), "Word 模板格式无效，原文件没有改变");
    assert_eq!(refusal(fill_template(b"not a zip file", BODY)), "Word 模板格式无效");
}

#[test]
fn a_template_without_content_types_is_incomplete() {
    let bytes = archive(&[("word/document.xml", Some(BODY))]);
    assert_eq!(refusal(template_document_xml(&bytes)), "Word 模板结构不完整，原文件没有改变");
}

#[test]
fn a_template_without_a_body_is_refused() {
    let bytes = archive(&[("[Content_Types].xml", Some("<Types/>"))]);
    assert_eq!(refusal(template_document_xml(&bytes)), "Word 模板缺少正文，原文件没有改变");
}

#[test]
fn a_body_that_is_not_utf8_is_a_file_error() {
    let mut writer = ZipWriter::new(Cursor::new(Vec::new()));
    writer.start_file("[Content_Types].xml", SimpleFileOptions::default()).unwrap();
    writer.start_file("word/document.xml", SimpleFileOptions::default()).unwrap();
    writer.write_all(&[0xff, 0xfe, 0x00]).unwrap();
    let bytes = writer.finish().unwrap().into_inner();
    assert!(matches!(template_document_xml(&bytes), Err(AppError::Io(_))));
}

#[test]
fn a_filled_copy_has_the_new_body_and_keeps_every_other_entry() {
    let filled = fill_template(&template(), "<w:document>新的正文</w:document>").unwrap();
    assert_eq!(template_document_xml(&filled).unwrap(), "<w:document>新的正文</w:document>");
    let mut copy = ZipArchive::new(Cursor::new(filled)).unwrap();
    assert_eq!(copy.len(), 4);
    assert!(copy.by_name("word/").unwrap().is_dir());
    let mut styles = String::new();
    copy.by_name("word/styles.xml").unwrap().read_to_string(&mut styles).unwrap();
    assert_eq!(styles, "<w:styles/>");
}
