//! The backend for image archives: one page for each image of a zip
//! archive, in natural order of the entry names.

use crate::chars::{chars_of, ends_with_seq, lowercase, matches_at, to_lowercase};
use crate::error::BlinkerError;
use crate::natural::{entry_views, natural_sort, naturally_ordered, sort_filenames, EntryView};
use crate::render::{locate_page, DocumentRenderer, PageView, RenderedPage};
use crate::search::{match_views, MatchView, RenderSearchMatch};
use crate::security::{escapes, traversal_message, validate_path};
use crate::chars::starts_with_seq;
use std::io::Read;
use vstd::prelude::*;
use vstd::string::StringExecFns;

verus! {

/// A zip archive, opened by the `zip` crate.
#[verifier::external_type_specification]
#[verifier::external_body]
#[verifier::reject_recursive_types(R)]
pub struct ExZipArchive<R>(zip::ZipArchive<R>);

/// The in-memory reader of the standard library.
#[verifier::external_type_specification]
#[verifier::external_body]
#[verifier::reject_recursive_types(T)]
pub struct ExCursor<T>(std::io::Cursor<T>);

/// The error of the `zip` crate.
#[verifier::external_type_specification]
#[verifier::external_body]
pub struct ExZipError(zip::result::ZipError);

/// The error of the `image` crate.
#[verifier::external_type_specification]
#[verifier::external_body]
pub struct ExImageError(image::ImageError);

/// One entry of an archive as the reader finds it: its name and whether it
/// is a directory, where the entry can be opened and its name decoded; and
/// its content, where the entry can be opened and read to its end.
pub type ListedEntry = (Option<(Seq<char>, bool)>, Option<Seq<u8>>);

/// The entries that `zip::ZipArchive::new` finds in a file with the bytes
/// `bytes`, in the order of the central directory; `None` where it refuses
/// the file.
pub uninterp spec fn zip_listing(bytes: Seq<u8>) -> Option<Seq<ListedEntry>>;

/// The entries of an opened archive, in the order of their indices.
pub uninterp spec fn archive_entries(archive: zip::ZipArchive<std::io::Cursor<Vec<u8>>>) -> Seq<
    ListedEntry,
>;

/// What `image::guess_format` and `image::load_from_memory_with_format`,
/// followed by the conversion to RGBA8, make of a file with the bytes
/// `data`: width, height and the raw buffer; `None` where the format is not
/// recognised or the image cannot be decoded.
pub uninterp spec fn decoded_image(data: Seq<u8>) -> Option<(u32, u32, Seq<u8>)>;

/// Opens an archive held in memory with `zip::ZipArchive::new`. Whether the
/// archive opens, and what it then holds, depends on the bytes alone.
#[verifier::external_body]
fn archive_open(bytes: Vec<u8>) -> (out: Result<
    zip::ZipArchive<std::io::Cursor<Vec<u8>>>,
    zip::result::ZipError,
>)
    ensures
        out is Ok <==> zip_listing(bytes@) is Some,
        out matches Ok(archive) ==> Some(archive_entries(archive)) == zip_listing(bytes@),
{
    zip::ZipArchive::new(std::io::Cursor::new(bytes))
}

/// `ZipArchive::len`: the number of entries.
#[verifier::external_body]
fn archive_len(archive: &zip::ZipArchive<std::io::Cursor<Vec<u8>>>) -> (out: usize)
    ensures
        out == archive_entries(*archive).len(),
{
    archive.len()
}

/// Opens the entry with the index `index` with `ZipArchive::by_index` and
/// reads its name and whether it is a directory. The archive holds
/// afterwards what it held before. An index beyond the last entry is an
/// error.
#[verifier::external_body]
fn archive_header(archive: &mut zip::ZipArchive<std::io::Cursor<Vec<u8>>>, index: usize) -> (out:
    Result<(String, bool), zip::result::ZipError>)
    ensures
        archive_entries(*final(archive)) == archive_entries(*old(archive)),
        index < archive_entries(*old(archive)).len() ==> match out {
            Ok(header) => archive_entries(*old(archive))[index as int].0 == Some(
                (header.0@, header.1),
            ),
            Err(_) => archive_entries(*old(archive))[index as int].0 is None,
        },
{
    let file = archive.by_index(index)?;
    let name = file.name()?.into_owned();
    Ok((name, file.is_dir()))
}

/// Opens the entry with the index `index` with `ZipArchive::by_index` and
/// reads it to its end. The archive holds afterwards what it held before.
#[verifier::external_body]
fn archive_data(archive: &mut zip::ZipArchive<std::io::Cursor<Vec<u8>>>, index: usize) -> (out:
    Result<Vec<u8>, std::io::Error>)
    ensures
        archive_entries(*final(archive)) == archive_entries(*old(archive)),
        index < archive_entries(*old(archive)).len() ==> match out {
            Ok(data) => archive_entries(*old(archive))[index as int].1 == Some(data@),
            Err(_) => archive_entries(*old(archive))[index as int].1 is None,
        },
{
    let mut file = archive.by_index(index)?;
    let mut data = Vec::new();
    file.read_to_end(&mut data)?;
    Ok(data)
}

/// Formats a `ZipError` with its `Display` impl.
#[verifier::external_body]
fn zip_error_text(err: &zip::result::ZipError) -> (out: String) {
    format!("{}", err)
}

/// Formats an `ImageError` with its `Display` impl.
#[verifier::external_body]
fn image_error_text(err: &image::ImageError) -> (out: String) {
    format!("{}", err)
}

/// Decodes an image: `image::guess_format` tells the format from the
/// signature at the start of the bytes, `image::load_from_memory_with_format`
/// decodes with the decoder built in for that format, and
/// `DynamicImage::to_rgba8` converts to RGBA8. Neither call consults the
/// decoders that a process can register, so whether the image decodes, and
/// to what, depends on the bytes alone.
#[verifier::external_body]
fn decode_rgba(data: &[u8]) -> (out: Result<(u32, u32, Vec<u8>), image::ImageError>)
    ensures
        match out {
            Ok(img) => decoded_image(data@) == Some((img.0, img.1, img.2@)),
            Err(_) => decoded_image(data@) is None,
        },
{
    let format = image::guess_format(data)?;
    let img = image::load_from_memory_with_format(data, format)?.to_rgba8();
    Ok((img.width(), img.height(), img.into_raw()))
}

/// Whether a name in lower case is that of an image file.
pub open spec fn has_image_extension(lower: Seq<char>) -> bool {
    ||| ends_with_seq(lower, ".jpg"@)
    ||| ends_with_seq(lower, ".jpeg"@)
    ||| ends_with_seq(lower, ".png"@)
    ||| ends_with_seq(lower, ".gif"@)
    ||| ends_with_seq(lower, ".bmp"@)
    ||| ends_with_seq(lower, ".webp"@)
}

/// Whether an entry with the name `name` is taken for an image.
pub open spec fn is_image_name(name: Seq<char>) -> bool {
    has_image_extension(lowercase(name))
}

/// Whether `text` ends with `suffix`.
fn ends_with(text: &Vec<char>, suffix: &str) -> (out: bool)
    ensures
        out == ends_with_seq(text@, suffix@),
{
    let s = chars_of(suffix);
    if s.len() > text.len() {
        return false;
    }
    matches_at(text, &s, text.len() - s.len())
}

/// Why an archive cannot be opened as a comic.
pub enum Rejection {
    /// An entry cannot be opened, or its name cannot be decoded.
    BrokenEntry,
    /// An entry's name may leave the archive.
    UnsafeName(Seq<char>),
    /// An image cannot be read to its end.
    UnreadableImage,
}

/// The images among the entries from the index `i` on, in the order of the
/// archive. The first entry that is broken, or whose name may leave the
/// archive, or that is an image and cannot be read, rejects the whole
/// archive. Entries that are directories or no images are passed over.
pub open spec fn images_from(entries: Seq<ListedEntry>, i: int) -> Result<Seq<EntryView>, Rejection>
    decreases entries.len() - i,
{
    if i < 0 || i >= entries.len() {
        Ok(Seq::empty())
    } else {
        match entries[i].0 {
            None => Err(Rejection::BrokenEntry),
            Some((name, is_dir)) => if escapes(name) {
                Err(Rejection::UnsafeName(name))
            } else if is_image_name(name) && !is_dir {
                match entries[i].1 {
                    None => Err(Rejection::UnreadableImage),
                    Some(data) => match images_from(entries, i + 1) {
                        Ok(rest) => Ok(seq![(name, data)] + rest),
                        Err(why) => Err(why),
                    },
                }
            } else {
                images_from(entries, i + 1)
            },
        }
    }
}

/// `found` put in front of what the rest of the archive gives.
pub open spec fn images_after(found: Seq<EntryView>, rest: Result<Seq<EntryView>, Rejection>) -> Result<
    Seq<EntryView>,
    Rejection,
> {
    match rest {
        Ok(more) => Ok(found + more),
        Err(why) => Err(why),
    }
}

/// Whether `err` is the error that the backend gives for the rejection
/// `why`.
pub open spec fn rejects(err: BlinkerError, why: Rejection) -> bool {
    match why {
        Rejection::BrokenEntry => err is Parsing && starts_with_seq(
            err->Parsing_0@,
            "Failed to read archive entry: "@,
        ),
        Rejection::UnsafeName(name) => err is Security && err->Security_0@ == traversal_message(
            name,
        ),
        Rejection::UnreadableImage => err is Io,
    }
}

/// What opening a file with the bytes `bytes` as a comic comes to: the
/// pages in natural order, or the reason why not; `None` where the file is
/// no zip archive.
pub open spec fn comic_pages(bytes: Seq<u8>) -> Option<Result<Seq<EntryView>, Rejection>> {
    match zip_listing(bytes) {
        None => None,
        Some(entries) => Some(
            match images_from(entries, 0) {
                Ok(images) => Ok(natural_sort(images)),
                Err(why) => Err(why),
            },
        ),
    }
}

/// An image archive, opened: its images in reading order.
#[derive(Debug)]
pub struct ComicRenderer {
    /// Name and bytes of each image.
    pub images: Vec<(String, Vec<u8>)>,
}

/// What the image with the raw buffer `raw` shows as a page: the first
/// `width * height * 4` bytes; `None` where the buffer is shorter.
pub open spec fn page_of(decoded: Option<(u32, u32, Seq<u8>)>) -> Option<PageView> {
    match decoded {
        Some((width, height, raw)) => if raw.len() >= width * height * 4 {
            Some(PageView { width, height, pixels: raw.subrange(0, width * height * 4) })
        } else {
            None
        },
        None => None,
    }
}

/// The area of a bitmap, in bytes.
proof fn lemma_area(width: u32, height: u32)
    ensures
        0 <= width * height * 4 <= 0xffff_ffff * 0xffff_ffff * 4,
{
    assert(0 <= width * height <= 0xffff_ffff * 0xffff_ffff) by (nonlinear_arith)
        requires
            0 <= width <= 0xffff_ffff,
            0 <= height <= 0xffff_ffff,
    ;
}

impl ComicRenderer {
    /// Accepts the name of an archive entry unless it may leave the archive.
    pub fn validate_archive_path(path: &str) -> (out: Result<(), BlinkerError>)
        ensures
            out is Err <==> escapes(path@),
            out matches Err(e) ==> e is Security && e->Security_0@ == traversal_message(path@),
    {
        validate_path(path)
    }

    /// Whether a name in lower case is that of an image file.
    pub fn is_image_lowercase(lower: &str) -> (out: bool)
        ensures
            out == has_image_extension(lower@),
    {
        let chars = chars_of(lower);
        ends_with(&chars, ".jpg") || ends_with(&chars, ".jpeg") || ends_with(&chars, ".png")
            || ends_with(&chars, ".gif") || ends_with(&chars, ".bmp") || ends_with(
            &chars,
            ".webp",
        )
    }

    /// Whether an entry with the name `filename` is taken for an image: its
    /// name ends, in any letter case, with the extension of an image format.
    pub fn is_image_file(filename: &str) -> (out: bool)
        ensures
            out == is_image_name(filename@),
    {
        let lower = to_lowercase(filename);
        Self::is_image_lowercase(lower.as_str())
    }

    /// The pages as plain values.
    pub open spec fn pages(&self) -> Seq<EntryView> {
        entry_views(self.images@)
    }

    /// Collects the images of an opened archive, in the order of the
    /// archive.
    #[verifier::loop_isolation(false)]
    pub fn collect_images(archive: &mut zip::ZipArchive<std::io::Cursor<Vec<u8>>>) -> (out: Result<
        Vec<(String, Vec<u8>)>,
        BlinkerError,
    >)
        ensures
            archive_entries(*final(archive)) == archive_entries(*old(archive)),
            match images_from(archive_entries(*old(archive)), 0) {
                Ok(images) => out matches Ok(list) && entry_views(list@) == images,
                Err(why) => out matches Err(e) && rejects(e, why),
            },
    {
        let ghost entries = archive_entries(*archive);
        let count = archive_len(archive);
        let mut images: Vec<(String, Vec<u8>)> = Vec::new();
        let mut i: usize = 0;
        assert(images_after(entry_views(images@), images_from(entries, 0)) == images_from(
            entries,
            0,
        )) by {
            match images_from(entries, 0) {
                Ok(more) => {
                    assert(entry_views(images@) + more =~= more);
                },
                Err(_) => {},
            }
        }
        while i < count
            invariant
                entries == archive_entries(*archive),
                count == entries.len(),
                i <= count,
                images_after(entry_views(images@), images_from(entries, i as int)) == images_from(
                    entries,
                    0,
                ),
            decreases count - i,
        {
            let (name, is_dir) = match archive_header(archive, i) {
                Ok(header) => header,
                Err(e) => {
                    let text = zip_error_text(&e);
                    let msg = String::from_str("Failed to read archive entry: ").concat(
                        text.as_str(),
                    );
                    assert(msg@.subrange(0, "Failed to read archive entry: "@.len() as int)
                        =~= "Failed to read archive entry: "@);
                    return Err(BlinkerError::Parsing(msg));
                },
            };
            match Self::validate_archive_path(name.as_str()) {
                Ok(_) => {},
                Err(e) => {
                    return Err(e);
                },
            }
            if Self::is_image_file(name.as_str()) && !is_dir {
                let data = match archive_data(archive, i) {
                    Ok(data) => data,
                    Err(e) => {
                        return Err(BlinkerError::Io(e));
                    },
                };
                let ghost before = entry_views(images@);
                let ghost item = (name@, data@);
                images.push((name, data));
                proof {
                    assert(entry_views(images@) =~= before.push(item));
                    match images_from(entries, i + 1) {
                        Ok(rest) => {
                            assert(before + (seq![item] + rest) =~= before.push(item) + rest);
                        },
                        Err(_) => {},
                    }
                }
            }
            i += 1;
        }
        proof {
            assert(entry_views(images@) + Seq::<EntryView>::empty() =~= entry_views(images@));
        }
        Ok(images)
    }

    /// Opens a comic from the bytes of its file. A file that is no zip
    /// archive is refused, and so is an archive with a broken entry, with an
    /// entry whose name may leave the archive, or with an image that cannot
    /// be read. The images become the pages, in natural order of their
    /// names.
    pub fn open(bytes: Vec<u8>) -> (out: Result<Self, BlinkerError>)
        ensures
            match comic_pages(bytes@) {
                None => out matches Err(e) && e is Parsing && starts_with_seq(
                    e->Parsing_0@,
                    "Failed to open CBZ archive: "@,
                ),
                Some(Err(why)) => out matches Err(e) && rejects(e, why),
                Some(Ok(pages)) => out matches Ok(r) && r.pages() == pages && naturally_ordered(
                    r.pages(),
                ),
            },
    {
        let mut archive = match archive_open(bytes) {
            Ok(archive) => archive,
            Err(e) => {
                let text = zip_error_text(&e);
                let msg = String::from_str("Failed to open CBZ archive: ").concat(text.as_str());
                assert(msg@.subrange(0, "Failed to open CBZ archive: "@.len() as int)
                    =~= "Failed to open CBZ archive: "@);
                return Err(BlinkerError::Parsing(msg));
            },
        };
        let images = Self::collect_images(&mut archive)?;
        Ok(ComicRenderer { images: sort_filenames(images) })
    }

    /// Makes a page of a decoded image: the buffer is cut to the pixels of
    /// the page; a buffer that is too short is no image.
    pub fn page_from_pixels(width: u32, height: u32, pixels: Vec<u8>) -> (out: Result<
        RenderedPage,
        BlinkerError,
    >)
        ensures
            match out {
                Ok(p) => page_of(Some((width, height, pixels@))) == Some(p@) && p@.well_formed(),
                Err(e) => page_of(Some((width, height, pixels@))) is None && e is Rendering,
            },
    {
        proof {
            lemma_area(width, height);
        }
        let needed: u128 = (width as u128) * (height as u128) * 4;
        let mut pixels = pixels;
        if (pixels.len() as u128) < needed {
            return Err(
                BlinkerError::Rendering(
                    String::from_str("Failed to decode image: pixel buffer too short"),
                ),
            );
        }
        pixels.truncate(needed as usize);
        Ok(RenderedPage { width, height, pixels })
    }
}

impl DocumentRenderer for ComicRenderer {
    open spec fn page_total(&self) -> nat {
        self.images@.len()
    }

    open spec fn page_bitmap(&self, index: int) -> Option<PageView> {
        if 0 <= index < self.images@.len() {
            page_of(decoded_image(self.images@[index].1@))
        } else {
            None
        }
    }

    open spec fn found(&self, query: Seq<char>, limit: nat) -> Seq<MatchView> {
        Seq::empty()
    }

    fn page_count(&self) -> (out: Result<usize, BlinkerError>) {
        Ok(self.images.len())
    }

    fn render_page(&self, page: usize) -> (out: Result<RenderedPage, BlinkerError>) {
        let index = locate_page(page, self.images.len())?;
        match decode_rgba(self.images[index].1.as_slice()) {
            Ok((width, height, pixels)) => Self::page_from_pixels(width, height, pixels),
            Err(e) => {
                let text = image_error_text(&e);
                Err(
                    BlinkerError::Rendering(
                        String::from_str("Failed to decode image: ").concat(text.as_str()),
                    ),
                )
            },
        }
    }

    fn search(&self, query: &str, limit: usize) -> (out: Result<
        Vec<RenderSearchMatch>,
        BlinkerError,
    >) {
        let out: Vec<RenderSearchMatch> = Vec::new();
        assert(match_views(out@) =~= Seq::<MatchView>::empty());
        Ok(out)
    }
}

/// An entry whose name may leave the archive rejects the whole archive,
/// wherever it stands and whatever else the archive holds: the archive never
/// opens with that entry dropped.
pub proof fn law_traversal_rejects(entries: Seq<ListedEntry>, at: int, from: int)
    requires
        0 <= from <= at < entries.len(),
        entries[at].0 matches Some(header) && escapes(header.0),
    ensures
        images_from(entries, from) is Err,
    decreases at - from,
{
    if from < at {
        law_traversal_rejects(entries, at, from + 1);
    }
}

} // verus!
