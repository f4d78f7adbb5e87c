//! A Word file as an archive: the document text a template holds, and a
//! copy of the template with new document text.
use std::io::{Cursor, Read, Write};

use vstd::prelude::*;
use vstd::string::StringSliceAdditionalSpecFns;
use vstd::utf8::{decode_utf8, valid_utf8};

use crate::error::{is_validation, validation, AppError, AppResult, IoFailure, IoKind};
use crate::text::owned;

verus! {

/// What went wrong with an archive, as far as the library tells it apart.
#[derive(Debug, Clone, Copy, PartialEq, Eq, Structural)]
pub enum ZipFailure {
    /// The bytes are not a readable archive.
    NotAnArchive,
    /// The archive has no entry at that position, or it cannot be opened.
    EntryUnavailable,
    /// The contents of an entry cannot be read.
    Unreadable,
    /// The new archive could not be written.
    WriteFailed,
}

// ---------------------------------------------------------------------------
// Reading an entry
// ---------------------------------------------------------------------------
/// What `zip::ZipArchive::new` over the bytes, then `by_name(name)` and
/// `read_to_end` on the entry give: `Err` when the bytes are not an
/// archive, `None` when the entry cannot be opened by that name, and
/// otherwise the entry's contents or the failure to read them.
pub uninterp spec fn zip_entry_of(bytes: Seq<u8>, name: Seq<char>) -> Result<
    Option<Result<Seq<u8>, ZipFailure>>,
    ZipFailure,
>;

/// The contents of an entry lookup, with the bytes taken by their view.
pub open spec fn entry_view(r: Result<Option<Result<Vec<u8>, ZipFailure>>, ZipFailure>) -> Result<
    Option<Result<Seq<u8>, ZipFailure>>,
    ZipFailure,
> {
    match r {
        Err(f) => Err(f),
        Ok(None) => Ok(None),
        Ok(Some(Err(f))) => Ok(Some(Err(f))),
        Ok(Some(Ok(v))) => Ok(Some(Ok(v@))),
    }
}

/// Opens the archive held in `bytes` and reads the entry called `name`
/// (`ZipArchive::new`, `ZipArchive::by_name`, `Read::read_to_end`).  The
/// result is named by `zip_entry_of`: a function of the bytes and the name.
#[verifier::external_body]
fn zip_entry(bytes: &[u8], name: &str) -> (r: Result<Option<Result<Vec<u8>, ZipFailure>>, ZipFailure>)
    ensures
        entry_view(r) == zip_entry_of(bytes@, name@),
{
    let mut archive = match zip::ZipArchive::new(Cursor::new(bytes)) {
        Ok(a) => a,
        Err(_) => return Err(ZipFailure::NotAnArchive),
    };
    let mut entry = match archive.by_name(name) {
        Ok(e) => e,
        Err(_) => return Ok(None),
    };
    let mut data: Vec<u8> = Vec::new();
    match entry.read_to_end(&mut data) {
        Ok(_) => Ok(Some(Ok(data))),
        Err(_) => Ok(Some(Err(ZipFailure::Unreadable))),
    }
}

/// The text of UTF-8 bytes (`String::from_utf8`): `None` exactly when the
/// bytes are not valid UTF-8.
#[verifier::external_body]
fn utf8_text(bytes: Vec<u8>) -> (r: Option<String>)
    ensures
        match r {
            Some(s) => valid_utf8(bytes@) && s@ == decode_utf8(bytes@),
            None => !valid_utf8(bytes@),
        },
{
    String::from_utf8(bytes).ok()
}

/// The message for bytes that are not an archive.
pub const TEMPLATE_FORMAT_INVALID: &'static str = "Word 模板格式无效，原文件没有改变";

/// The message for an archive without its content types.
pub const TEMPLATE_INCOMPLETE: &'static str = "Word 模板结构不完整，原文件没有改变";

/// The message for an archive without a document body.
pub const TEMPLATE_NO_BODY: &'static str = "Word 模板缺少正文，原文件没有改变";

/// The text of the file error for a document body that is not UTF-8.
pub const NOT_UTF8_TEXT: &'static str = "stream did not contain valid UTF-8";

/// The text of the file error for a document body that cannot be read.
pub const BODY_UNREADABLE_TEXT: &'static str = "word/document.xml could not be read";

/// A file error whose text is `text`.
pub open spec fn is_io_error(e: AppError, text: Seq<char>) -> bool {
    e matches AppError::Io(f) && f.kind == IoKind::Other && f.os_code is None && f.text@ == text
}

fn io_error(text: &str) -> (e: AppError)
    ensures
        is_io_error(e, text@),
{
    AppError::Io(IoFailure { kind: IoKind::Other, os_code: None, text: owned(text) })
}

/// What reading a template's document text gives: refused when the bytes
/// are not an archive, when it has no `[Content_Types].xml`, or when it has
/// no `word/document.xml` (each with its message); a file error when the
/// body cannot be read or is not UTF-8; otherwise the body's text.
pub open spec fn document_xml_answer(docx: Seq<u8>, r: AppResult<String>) -> bool {
    match zip_entry_of(docx, "[Content_Types].xml"@) {
        Err(_) => r matches Err(e) && is_validation(e, TEMPLATE_FORMAT_INVALID@),
        Ok(None) => r matches Err(e) && is_validation(e, TEMPLATE_INCOMPLETE@),
        Ok(Some(_)) => match zip_entry_of(docx, "word/document.xml"@) {
            Err(_) => r matches Err(e) && is_validation(e, TEMPLATE_FORMAT_INVALID@),
            Ok(None) => r matches Err(e) && is_validation(e, TEMPLATE_NO_BODY@),
            Ok(Some(Err(_))) => r matches Err(e) && is_io_error(e, BODY_UNREADABLE_TEXT@),
            Ok(Some(Ok(data))) => if valid_utf8(data) {
                r matches Ok(s) && s@ == decode_utf8(data)
            } else {
                r matches Err(e) && is_io_error(e, NOT_UTF8_TEXT@)
            },
        },
    }
}

/// The document text (`word/document.xml`) of a Word file's bytes, after
/// checking that the file is an archive with content types and a body.
pub fn template_document_xml(docx: &[u8]) -> (r: AppResult<String>)
    ensures
        document_xml_answer(docx@, r),
{
    proof {
        reveal_strlit("[Content_Types].xml");
        reveal_strlit("word/document.xml");
    }
    match zip_entry(docx, "[Content_Types].xml") {
        Err(_) => return Err(validation(TEMPLATE_FORMAT_INVALID)),
        Ok(None) => return Err(validation(TEMPLATE_INCOMPLETE)),
        Ok(Some(_)) => {},
    }
    match zip_entry(docx, "word/document.xml") {
        Err(_) => Err(validation(TEMPLATE_FORMAT_INVALID)),
        Ok(None) => Err(validation(TEMPLATE_NO_BODY)),
        Ok(Some(Err(_))) => Err(io_error(BODY_UNREADABLE_TEXT)),
        Ok(Some(Ok(data))) => match utf8_text(data) {
            Some(s) => Ok(s),
            None => Err(io_error(NOT_UTF8_TEXT)),
        },
    }
}

// ---------------------------------------------------------------------------
// Writing a copy with new document text
// ---------------------------------------------------------------------------
#[verifier::external_type_specification]
#[verifier::external_body]
pub struct ExCompressionMethod(zip::CompressionMethod);

/// A new archive being written in memory (a `zip::ZipWriter` over a
/// `Cursor<Vec<u8>>`); Verus sees it only through `zip_written`.
#[verifier::external_body]
pub struct ArchiveWriter {
    inner: zip::ZipWriter<Cursor<Vec<u8>>>,
}

/// How many entries `ZipArchive::new` over the bytes finds (`len`), or
/// `Err` when the bytes are not an archive.
pub uninterp spec fn zip_len_of(bytes: Seq<u8>) -> Result<usize, ZipFailure>;

/// The name and whether it is a directory of entry `index` of the archive
/// (`by_index`, `ZipFile::name`, `ZipFile::is_dir`).
pub uninterp spec fn zip_entry_kind_of(bytes: Seq<u8>, index: usize) -> Result<(Seq<char>, bool), ZipFailure>;

/// The contents of entry `index` of the archive (`by_index`, then
/// `read_to_end`).
pub uninterp spec fn zip_entry_data_of(bytes: Seq<u8>, index: usize) -> Result<Seq<u8>, ZipFailure>;

/// The name a directory entry is written under: the name itself when it
/// ends in `/` or `\\`, otherwise with `/` added.
pub open spec fn directory_name(name: Seq<char>) -> Seq<char> {
    if name.len() > 0 && (name.last() == '/' || name.last() == '\\') {
        name
    } else {
        name.push('/')
    }
}

/// What a writer holds so far: each entry's name, whether it is a
/// directory, and the contents written to it.
pub uninterp spec fn zip_written(w: ArchiveWriter) -> Seq<(Seq<char>, bool, Seq<u8>)>;

/// The number of entries of the archive held in `bytes`.
#[verifier::external_body]
fn zip_len(bytes: &[u8]) -> (r: Result<usize, ZipFailure>)
    ensures
        r == zip_len_of(bytes@),
{
    match zip::ZipArchive::new(Cursor::new(bytes)) {
        Ok(a) => Ok(a.len()),
        Err(_) => Err(ZipFailure::NotAnArchive),
    }
}

/// Entry `index` of the archive held in `bytes`: its name, whether it is a
/// directory, and how it is compressed.
#[verifier::external_body]
fn zip_entry_kind(bytes: &[u8], index: usize) -> (r: Result<(String, bool, zip::CompressionMethod), ZipFailure>)
    ensures
        match r {
            Ok((name, dir, _)) => zip_entry_kind_of(bytes@, index) == Ok::<(Seq<char>, bool), ZipFailure>((name@, dir)),
            Err(f) => zip_entry_kind_of(bytes@, index) == Err::<(Seq<char>, bool), ZipFailure>(f),
        },
{
    let mut archive = match zip::ZipArchive::new(Cursor::new(bytes)) {
        Ok(a) => a,
        Err(_) => return Err(ZipFailure::NotAnArchive),
    };
    let entry = match archive.by_index(index) {
        Ok(e) => e,
        Err(_) => return Err(ZipFailure::EntryUnavailable),
    };
    match entry.name() {
        Ok(name) => Ok((name.to_string(), entry.is_dir(), entry.compression())),
        Err(_) => Err(ZipFailure::EntryUnavailable),
    }
}

/// The contents of entry `index` of the archive held in `bytes`.
#[verifier::external_body]
fn zip_entry_data(bytes: &[u8], index: usize) -> (r: Result<Vec<u8>, ZipFailure>)
    ensures
        match r {
            Ok(v) => zip_entry_data_of(bytes@, index) == Ok::<Seq<u8>, ZipFailure>(v@),
            Err(f) => zip_entry_data_of(bytes@, index) == Err::<Seq<u8>, ZipFailure>(f),
        },
{
    let mut archive = match zip::ZipArchive::new(Cursor::new(bytes)) {
        Ok(a) => a,
        Err(_) => return Err(ZipFailure::NotAnArchive),
    };
    let mut entry = match archive.by_index(index) {
        Ok(e) => e,
        Err(_) => return Err(ZipFailure::EntryUnavailable),
    };
    let mut data: Vec<u8> = Vec::new();
    match entry.read_to_end(&mut data) {
        Ok(_) => Ok(data),
        Err(_) => Err(ZipFailure::Unreadable),
    }
}

/// A writer of a new archive in memory (`ZipWriter::new`): it holds nothing.
#[verifier::external_body]
fn zip_writer() -> (w: ArchiveWriter)
    ensures
        zip_written(w) == Seq::<(Seq<char>, bool, Seq<u8>)>::empty(),
{
    ArchiveWriter { inner: zip::ZipWriter::new(Cursor::new(Vec::new())) }
}

/// Adds a directory entry (`ZipWriter::add_directory`, which adds a
/// trailing `/` to a name without one).
#[verifier::external_body]
fn zip_add_directory(w: &mut ArchiveWriter, name: &str, method: zip::CompressionMethod) -> (r:
    Result<(), ZipFailure>)
    ensures
        r is Ok ==> zip_written(*final(w)) == zip_written(*old(w)).push(
            (directory_name(name@), true, Seq::<u8>::empty()),
        ),
{
    let options = zip::write::SimpleFileOptions::default().compression_method(method);
    w.inner.add_directory(name, options).map_err(|_| ZipFailure::WriteFailed)
}

/// Starts a file entry (`ZipWriter::start_file`).
#[verifier::external_body]
fn zip_start_file(w: &mut ArchiveWriter, name: &str, method: zip::CompressionMethod) -> (r:
    Result<(), ZipFailure>)
    ensures
        r is Ok ==> zip_written(*final(w)) == zip_written(*old(w)).push((name@, false, Seq::<u8>::empty())),
{
    let options = zip::write::SimpleFileOptions::default().compression_method(method);
    w.inner.start_file(name, options).map_err(|_| ZipFailure::WriteFailed)
}

/// Writes contents to the file entry started last (`Write::write_all`).
#[verifier::external_body]
fn zip_write_all(w: &mut ArchiveWriter, data: &[u8]) -> (r: Result<(), ZipFailure>)
    requires
        zip_written(*old(w)).len() > 0,
    ensures
        r is Ok ==> {
            let before = zip_written(*old(w));
            let last = before.last();
            zip_written(*final(w)) == before.drop_last().push((last.0, last.1, last.2 + data@))
        },
{
    w.inner.write_all(data).map_err(|_| ZipFailure::WriteFailed)
}

/// Writes the archive's directory and hands back its bytes
/// (`ZipWriter::finish`).  The bytes carry the time of writing, so they
/// are not named here; the caller reads them back.
#[verifier::external_body]
fn zip_finish(w: ArchiveWriter) -> (r: Result<Vec<u8>, ZipFailure>) {
    match w.inner.finish() {
        Ok(cursor) => Ok(cursor.into_inner()),
        Err(_) => Err(ZipFailure::WriteFailed),
    }
}

/// The message when the template is not an archive while it is copied.
pub const TEMPLATE_NOT_ARCHIVE: &'static str = "Word 模板格式无效";

/// The message when an entry of the template cannot be opened.
pub const TEMPLATE_ENTRY_UNREADABLE: &'static str = "Word 模板内容无法读取，原文件没有改变";

/// The message when the new archive cannot be written.
pub const SUMMARY_WRITE_FAILED: &'static str = "Word 小结生成失败，模板和已有文件没有改变";

/// The text of the file error for contents that cannot be copied.
pub const ENTRY_COPY_TEXT: &'static str = "an entry could not be copied";

/// What the copy holds for entry `k` of the template: a directory stays a
/// directory, the body gets `body`, and every other file keeps its contents.
pub open spec fn copied_entry(template: Seq<u8>, k: usize, body: Seq<u8>) -> Option<(Seq<char>, bool, Seq<u8>)> {
    match zip_entry_kind_of(template, k) {
        Ok((name, true)) => Some((directory_name(name), true, Seq::empty())),
        Ok((name, false)) => if name == "word/document.xml"@ {
            Some((name, false, body))
        } else {
            match zip_entry_data_of(template, k) {
                Ok(data) => Some((name, false, data)),
                Err(_) => None,
            }
        },
        Err(_) => None,
    }
}

/// The bytes read back as a template with a UTF-8 body.
pub open spec fn reads_back(docx: Seq<u8>) -> bool {
    &&& zip_entry_of(docx, "[Content_Types].xml"@) is Ok
    &&& zip_entry_of(docx, "[Content_Types].xml"@)->Ok_0 is Some
    &&& zip_entry_of(docx, "word/document.xml"@) matches Ok(Some(Ok(d))) && valid_utf8(d)
}

/// A copy of the template with `document_xml` as its body: every entry of
/// the template is written in order, a directory as a directory, the body
/// with the new text and every other file with its own contents; the copy
/// is then read back as a template.  Refused when the template is not an
/// archive, when one of its entries cannot be opened, or when the copy
/// cannot be written; a file error when contents cannot be copied.
pub fn fill_template(template: &[u8], document_xml: &str) -> (r: AppResult<Vec<u8>>)
    ensures
        zip_len_of(template@) is Err ==> (r matches Err(e) && is_validation(e, TEMPLATE_NOT_ARCHIVE@)),
        r matches Ok(out) ==> {
            &&& zip_len_of(template@) matches Ok(n) && forall|k: usize|
                k < n ==> (#[trigger] copied_entry(template@, k, document_xml.spec_bytes())) is Some
            &&& reads_back(out@)
        },
{
    let n = match zip_len(template) {
        Ok(n) => n,
        Err(_) => return Err(validation(TEMPLATE_NOT_ARCHIVE)),
    };
    let body = document_xml.as_bytes();
    let mut w = zip_writer();
    let mut k: usize = 0;
    while k < n
        invariant
            k <= n,
            zip_len_of(template@) == Ok::<usize, ZipFailure>(n),
            body@ == document_xml.spec_bytes(),
            zip_written(w).len() == k,
            forall|j: usize| j < k ==> (#[trigger] copied_entry(template@, j, body@)) == Some(zip_written(w)[j as int]),
        decreases n - k,
    {
        let (name, dir, method) = match zip_entry_kind(template, k) {
            Ok(x) => x,
            Err(ZipFailure::NotAnArchive) => return Err(validation(TEMPLATE_NOT_ARCHIVE)),
            Err(_) => return Err(validation(TEMPLATE_ENTRY_UNREADABLE)),
        };
        let ghost before = zip_written(w);
        if dir {
            if zip_add_directory(&mut w, name.as_str(), method).is_err() {
                return Err(validation(SUMMARY_WRITE_FAILED));
            }
        } else {
            if zip_start_file(&mut w, name.as_str(), method).is_err() {
                return Err(validation(SUMMARY_WRITE_FAILED));
            }
            proof {
                reveal_strlit("word/document.xml");
            }
            if crate::text::str_eq(name.as_str(), "word/document.xml") {
                if zip_write_all(&mut w, body).is_err() {
                    return Err(io_error(ENTRY_COPY_TEXT));
                }
            } else {
                let data = match zip_entry_data(template, k) {
                    Ok(d) => d,
                    Err(_) => return Err(io_error(ENTRY_COPY_TEXT)),
                };
                if zip_write_all(&mut w, data.as_slice()).is_err() {
                    return Err(io_error(ENTRY_COPY_TEXT));
                }
            }
        }
        proof {
            assert(zip_written(w) =~= before.push(copied_entry(template@, k, body@)->Some_0));
            assert forall|j: usize| j < k + 1 implies (#[trigger] copied_entry(template@, j, body@)) == Some(
                zip_written(w)[j as int],
            ) by {
                if j < k {
                    assert(zip_written(w)[j as int] == before[j as int]);
                }
            }
        }
        k = k + 1;
    }
    let out = match zip_finish(w) {
        Ok(bytes) => bytes,
        Err(_) => return Err(validation(SUMMARY_WRITE_FAILED)),
    };
    match template_document_xml(out.as_slice()) {
        Ok(_) => Ok(out),
        Err(e) => Err(e),
    }
}

} // verus!
