//! The conversion pipeline from the bytes of an `.xmind` archive to Markdown.

use vstd::prelude::*;
use crate::archive::{
    data_file, has_legacy, is_data_entry, listing, select_data_entry, some_anywhere, views,
};
use crate::error::ConvertError;
use crate::json::{is_topic, json_of, parse_content_json, reads_as, root_value, MAX_DEPTH};
use crate::notes::opt_view;
use crate::render::{render_document, render_markdown};
use crate::topic::{height, Topic};

verus! {

/// The entry names of the ZIP archive in `b`, in the order of its central
/// directory, where a name that occurs twice stands at its first place; none
/// where `b` is not a readable archive.
pub uninterp spec fn zip_entry_names(b: Seq<u8>) -> Option<Seq<Seq<char>>>;

/// The text of entry `name` of the ZIP archive in `b`; none where it cannot
/// be read as UTF-8 text.
pub uninterp spec fn zip_entry_text(b: Seq<u8>, name: Seq<char>) -> Option<Seq<char>>;

/// The extension of the last component of the path `p`, as `Path` gives it.
pub uninterp spec fn path_extension(p: Seq<char>) -> Option<Seq<char>>;

pub open spec fn xmind_extension() -> Seq<char> {
    seq!['x', 'm', 'i', 'n', 'd']
}

/// What converting the data entry text `text` gives: the Markdown of the
/// topic tree read from its `rootTopic`, or `MalformedPayload` where there
/// is no such tree.
pub open spec fn content_outcome(text: Seq<char>, r: Result<String, ConvertError>) -> bool {
    match json_of(text) {
        None => r == Err::<String, ConvertError>(ConvertError::MalformedPayload),
        Some(j) => match root_value(j) {
            None => r == Err::<String, ConvertError>(ConvertError::MalformedPayload),
            Some(rv) => if is_topic(rv, MAX_DEPTH as nat) {
                exists|t: Topic|
                    #![trigger reads_as(t, rv, MAX_DEPTH as nat)]
                    reads_as(t, rv, MAX_DEPTH as nat) && height(t) <= MAX_DEPTH && (r matches Ok(
                        md,
                    ) && md@ == render_document(t))
            } else {
                r == Err::<String, ConvertError>(ConvertError::MalformedPayload)
            },
        },
    }
}

/// Relies on `zip::ZipArchive::new` and `ZipArchive::file_names`: opens the
/// archive held in `bytes` and lists its entry names.
#[verifier::external_body]
fn archive_names(bytes: &[u8]) -> (r: Option<Vec<String>>)
    ensures
        match r {
            Some(ns) => zip_entry_names(bytes@) == Some(views(ns@)),
            None => zip_entry_names(bytes@) is None,
        },
{
    let archive = zip::ZipArchive::new(std::io::Cursor::new(bytes)).ok()?;
    Some(archive.file_names().map(String::from).collect())
}

/// Relies on `zip::ZipArchive::new`, `ZipArchive::by_name` and
/// `std::io::Read::read_to_string`: the text of the entry `name`.
#[verifier::external_body]
fn archive_text(bytes: &[u8], name: &str) -> (r: Option<String>)
    ensures
        opt_view(r) == zip_entry_text(bytes@, name@),
{
    let mut archive = zip::ZipArchive::new(std::io::Cursor::new(bytes)).ok()?;
    let mut entry = archive.by_name(name).ok()?;
    let mut text = String::new();
    std::io::Read::read_to_string(&mut entry, &mut text).ok()?;
    Some(text)
}

/// Relies on `std::path::Path::extension`: the extension of the path.
#[verifier::external_body]
fn extension_of(path: &str) -> (r: Option<String>)
    ensures
        opt_view(r) == path_extension(path@),
{
    std::path::Path::new(path).extension().map(|e| e.to_string_lossy().into_owned())
}

/// Whether the path names an `.xmind` file.
pub fn has_xmind_extension(path: &str) -> (r: bool)
    ensures
        r == (path_extension(path@) == Some(xmind_extension())),
{
    proof {
        reveal_strlit("xmind");
    }
    match extension_of(path) {
        Some(e) => {
            let x = String::from_str("xmind");
            assert(x@ =~= xmind_extension());
            e == x
        },
        None => false,
    }
}

/// The Markdown of the document whose data entry holds `text`.
pub fn convert_content(text: &str) -> (r: Result<String, ConvertError>)
    ensures
        content_outcome(text@, r),
{
    let root = parse_content_json(text)?;
    let md = render_markdown(&root);
    assert(reads_as(root, root_value(json_of(text@)->0)->0, MAX_DEPTH as nat));
    Ok(md)
}

/// The Markdown of the `.xmind` archive held in `bytes`.
pub fn convert_archive(bytes: &[u8]) -> (r: Result<String, ConvertError>)
    ensures
        zip_entry_names(bytes@) is None ==> r == Err::<String, ConvertError>(
            ConvertError::CorruptArchive,
        ),
        zip_entry_names(bytes@) matches Some(ns) ==> {
            &&& !some_anywhere(ns, data_file()) && has_legacy(ns) ==> r == Err::<
                String,
                ConvertError,
            >(ConvertError::UnsupportedLegacyFormat)
            &&& !some_anywhere(ns, data_file()) && !has_legacy(ns) ==> (r matches Err(
                ConvertError::DataEntryNotFound(l),
            ) && l@ == listing(ns))
            &&& some_anywhere(ns, data_file()) ==> exists|i: int|
                #![trigger ns[i]]
                is_data_entry(ns, i) && match zip_entry_text(bytes@, ns[i]) {
                    None => r == Err::<String, ConvertError>(ConvertError::CorruptArchive),
                    Some(t) => content_outcome(t, r),
                }
        },
{
    let names = match archive_names(bytes) {
        Some(ns) => ns,
        None => return Err(ConvertError::CorruptArchive),
    };
    let i = select_data_entry(names.as_slice())?;
    assert(views(names@)[i as int] == names@[i as int]@);
    match archive_text(bytes, names[i].as_str()) {
        Some(text) => convert_content(text.as_str()),
        None => Err(ConvertError::CorruptArchive),
    }
}

} // verus!
