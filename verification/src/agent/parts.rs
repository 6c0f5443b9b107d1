//! The parts of a message, sorted: the question, the images, the documents and the
//! videos that come with it.

use vstd::prelude::*;
use vstd::string::*;

use crate::agent::media::{
    base64_bytes, base64_payload, base64_text, byte_lists, decode_payload, jpeg_framed,
    jpeg_outcome, law_base64_reads_back, law_the_head_of_a_uri_is_taken_off, opt_bytes,
    reencode_image_to_jpeg,
};
use crate::json::{views, Json, JsonView};
use crate::text::{
    begins, contains, decimal, decimal_text, ends, ends_with, holds, lossy_text, lower, lowered,
    opt_chars, same_text, starts_with, text_of_bytes,
};

verus! {

/// What a file is taken for.
#[derive(Debug, Clone, Copy, PartialEq, Eq, Structural)]
pub enum FileClass {
    /// A list of bounding boxes, as text.
    BoundingBox,
    Image,
    Pdf,
    Video,
    Text,
    /// Anything else; it is left out.
    Unknown,
}

/// What a file is taken for, by its name and its media type: the first class that
/// fits. The name counts without regard to case, the media type as it stands.
pub open spec fn class_of(name: Seq<char>, mime: Seq<char>) -> FileClass {
    let n = lowered(name);
    if holds(n, "bounding_box"@) || holds(n, "bbox"@) {
        FileClass::BoundingBox
    } else if begins(mime, "image/"@) || ends(n, ".jpg"@) || ends(n, ".jpeg"@) || ends(n, ".png"@)
        || ends(n, ".webp"@) {
        FileClass::Image
    } else if mime == "application/pdf"@ || ends(n, ".pdf"@) {
        FileClass::Pdf
    } else if begins(mime, "video/"@) || ends(n, ".mp4"@) {
        FileClass::Video
    } else if begins(mime, "text/"@) || ends(n, ".txt"@) || ends(n, ".csv"@) || ends(n, ".json"@) {
        FileClass::Text
    } else {
        FileClass::Unknown
    }
}

/// What a file is taken for, by its name and its media type.
pub fn classify_file(name: &str, mime: &str) -> (r: FileClass)
    ensures
        r == class_of(name@, mime@),
{
    let lowered_name: String = lower(name);
    let n: &str = lowered_name.as_str();
    if contains(n, "bounding_box") || contains(n, "bbox") {
        FileClass::BoundingBox
    } else if starts_with(mime, "image/") || ends_with(n, ".jpg") || ends_with(n, ".jpeg")
        || ends_with(n, ".png") || ends_with(n, ".webp") {
        FileClass::Image
    } else if same_text(mime, "application/pdf") || ends_with(n, ".pdf") {
        FileClass::Pdf
    } else if starts_with(mime, "video/") || ends_with(n, ".mp4") {
        FileClass::Video
    } else if starts_with(mime, "text/") || ends_with(n, ".txt") || ends_with(n, ".csv")
        || ends_with(n, ".json") {
        FileClass::Text
    } else {
        FileClass::Unknown
    }
}

/// The kind of a part: its `kind`, or its `type` where `kind` is no string.
pub open spec fn kind_of(part: JsonView) -> Seq<char> {
    match part.str_field("kind"@) {
        Some(k) => k,
        None => match part.str_field("type"@) {
            Some(k) => k,
            None => ""@,
        },
    }
}

fn part_kind(part: &Json) -> (r: &str)
    ensures
        r@ == kind_of(part@),
{
    match part.str_field("kind") {
        Some(k) => k,
        None => match part.str_field("type") {
            Some(k) => k,
            None => "",
        },
    }
}

/// A file that came with a message, decoded.
#[derive(Debug)]
pub struct FilePart {
    pub name: String,
    pub class: FileClass,
    pub data: Vec<u8>,
}

/// The content of a decoded file.
#[verifier::ext_equal]
pub struct FileView {
    pub name: Seq<char>,
    pub class: FileClass,
    pub data: Seq<u8>,
}

impl View for FilePart {
    type V = FileView;

    open spec fn view(&self) -> FileView {
        FileView { name: self.name@, class: self.class, data: self.data@ }
    }
}

/// The content of each decoded file.
pub open spec fn file_views(files: Seq<FilePart>) -> Seq<FileView> {
    Seq::new(files.len(), |i: int| files[i]@)
}

/// The name of a file, or the name that stands for a missing one.
pub open spec fn attachment_name(file: JsonView) -> Seq<char> {
    match file.str_field("name"@) {
        Some(n) => n,
        None => "attachment"@,
    }
}

/// The media type of a file: `mimeType`, or `mime_type` where that is missing.
pub open spec fn attachment_mime(file: JsonView) -> Seq<char> {
    let value = match file.field("mimeType"@) {
        Some(v) => Some(v),
        None => file.field("mime_type"@),
    };
    match value {
        Some(JsonView::Str(m)) => m,
        _ => ""@,
    }
}

/// The file in a part, where the part holds one whose bytes can be decoded.
pub open spec fn file_in(part: JsonView) -> Option<FileView> {
    match part.field("file"@) {
        None => None,
        Some(file) => match file.str_field("bytes"@) {
            None => None,
            Some(field) => match base64_bytes(base64_payload(field)) {
                None => None,
                Some(data) => Some(
                    FileView {
                        name: attachment_name(file),
                        class: class_of(attachment_name(file), attachment_mime(file)),
                        data,
                    },
                ),
            },
        },
    }
}

/// The content of a file that may be missing.
pub open spec fn opt_file(o: Option<FilePart>) -> Option<FileView> {
    match o {
        Some(f) => Some(f@),
        None => None,
    }
}

/// The file in a part, where the part holds one whose bytes can be decoded.
pub fn read_file(part: &Json) -> (r: Option<FilePart>)
    ensures
        opt_file(r) == file_in(part@),
{
    let file: &Json = match part.get("file") {
        Some(f) => f,
        None => return None,
    };
    let name: &str = match file.str_field("name") {
        Some(n) => n,
        None => "attachment",
    };
    let value: Option<&Json> = match file.get("mimeType") {
        Some(v) => Some(v),
        None => file.get("mime_type"),
    };
    let mime: &str = match value {
        Some(v) => match v.as_str() {
            Some(m) => m,
            None => "",
        },
        None => "",
    };
    assert(mime@ == attachment_mime(file@));
    let field: &str = match file.str_field("bytes") {
        Some(b) => b,
        None => return None,
    };
    match decode_payload(field) {
        Some(data) => Some(
            FilePart { name: name.to_owned(), class: classify_file(name, mime), data },
        ),
        None => None,
    }
}

/// The question in the first `n` parts: their texts, on lines of their own.
pub open spec fn question_of(parts: Seq<JsonView>, n: nat) -> Seq<char>
    decreases n,
{
    if n == 0 || n > parts.len() {
        Seq::empty()
    } else {
        let before = question_of(parts, (n - 1) as nat);
        let part = parts[n - 1];
        match part.str_field("text"@) {
            Some(t) if kind_of(part) == "text"@ => if before.len() == 0 {
                t
            } else {
                before + "\n"@ + t
            },
            _ => before,
        }
    }
}

/// The files in the first `n` parts that can be decoded, in order.
pub open spec fn files_of(parts: Seq<JsonView>, n: nat) -> Seq<FileView>
    decreases n,
{
    if n == 0 || n > parts.len() {
        Seq::empty()
    } else {
        let before = files_of(parts, (n - 1) as nat);
        let part = parts[n - 1];
        match file_in(part) {
            Some(f) if kind_of(part) == "file"@ => before.push(f),
            _ => before,
        }
    }
}

/// The parts of a message; none where `parts` is no array.
pub open spec fn parts_in(message: JsonView) -> Seq<JsonView> {
    match message.array_field("parts"@) {
        Some(parts) => parts,
        None => Seq::empty(),
    }
}

/// The question of a message.
pub open spec fn message_question(message: JsonView) -> Seq<char> {
    question_of(parts_in(message), parts_in(message).len())
}

/// The decoded files of a message, in order.
pub open spec fn message_files(message: JsonView) -> Seq<FileView> {
    files_of(parts_in(message), parts_in(message).len())
}

/// A message, read: its question and its decoded files.
#[derive(Debug)]
pub struct Collected {
    pub question: String,
    pub files: Vec<FilePart>,
}

/// Reads a message: its question and the files that can be decoded, in order. Parts
/// of another kind are passed over.
pub fn collect_parts(message: &Json) -> (r: Collected)
    ensures
        r.question@ == message_question(message@),
        file_views(r.files@) == message_files(message@),
{
    let mut question: String = String::new();
    let mut files: Vec<FilePart> = Vec::new();
    assert(file_views(files@) =~= Seq::empty());
    let parts: &Vec<Json> = match message.array_field("parts") {
        Some(p) => p,
        None => return Collected { question, files },
    };
    let ghost all = views(parts@);
    for i in 0..parts.len()
        invariant
            all == views(parts@),
            question@ == question_of(all, i as nat),
            file_views(files@) == files_of(all, i as nat),
    {
        let part: &Json = &parts[i];
        assert(part@ == all[i as int]);
        let kind: &str = part_kind(part);
        proof {
            reveal_strlit("text");
            reveal_strlit("file");
            assert("text"@ != "file"@) by {
                assert("text"@[0] == 't');
                assert("file"@[0] == 'f');
            }
        }
        if same_text(kind, "text") {
            match part.str_field("text") {
                Some(t) => {
                    if !question.as_str().is_empty() {
                        question.append("\n");
                    }
                    question.append(t);
                    assert(question@ =~= question_of(all, (i + 1) as nat));
                },
                None => {},
            }
        } else if same_text(kind, "file") {
            match read_file(part) {
                Some(f) => {
                    let ghost before = files@;
                    files.push(f);
                    assert(file_views(files@) =~= file_views(before).push(f@));
                },
                None => {},
            }
        }
    }
    Collected { question, files }
}

/// A name and the bytes that go with it.
pub type NamedBytes = (Seq<char>, Seq<u8>);

/// A name and the text that goes with it.
pub type NamedText = (Seq<char>, Seq<char>);

/// The content of each named list of bytes.
pub open spec fn named_bytes(list: Seq<(String, Vec<u8>)>) -> Seq<NamedBytes> {
    Seq::new(list.len(), |i: int| (list[i].0@, list[i].1@))
}

/// The content of each named text.
pub open spec fn named_texts(list: Seq<(String, String)>) -> Seq<NamedText> {
    Seq::new(list.len(), |i: int| (list[i].0@, list[i].1@))
}

/// What the model is asked about: the question, and all that came with it in a form
/// that a model can be shown. Images and frames are JPEG.
#[derive(Debug)]
pub struct FwaParts {
    pub question: String,
    pub images: Vec<(String, Vec<u8>)>,
    pub pdf_texts: Vec<(String, String)>,
    pub bbox_texts: Vec<(String, String)>,
    pub text_files: Vec<(String, String)>,
    pub video_frames: Vec<(String, Vec<u8>)>,
}

/// The content of what the model is asked about.
#[verifier::ext_equal]
pub struct PartsView {
    pub question: Seq<char>,
    pub images: Seq<NamedBytes>,
    pub pdf_texts: Seq<NamedText>,
    pub bbox_texts: Seq<NamedText>,
    pub text_files: Seq<NamedText>,
    pub video_frames: Seq<NamedBytes>,
}

impl View for FwaParts {
    type V = PartsView;

    open spec fn view(&self) -> PartsView {
        PartsView {
            question: self.question@,
            images: named_bytes(self.images@),
            pdf_texts: named_texts(self.pdf_texts@),
            bbox_texts: named_texts(self.bbox_texts@),
            text_files: named_texts(self.text_files@),
            video_frames: named_bytes(self.video_frames@),
        }
    }
}

/// A message with its files sorted. The documents in `pdfs` and the videos in `videos`
/// are still to be opened: `add_opened` takes what comes out.
#[derive(Debug)]
pub struct Extraction {
    pub parts: FwaParts,
    pub pdfs: Vec<(String, Vec<u8>)>,
    pub videos: Vec<(String, Vec<u8>)>,
}

/// The content of a message with its files sorted.
#[verifier::ext_equal]
pub struct ExtractionView {
    pub parts: PartsView,
    pub pdfs: Seq<NamedBytes>,
    pub videos: Seq<NamedBytes>,
}

impl View for Extraction {
    type V = ExtractionView;

    open spec fn view(&self) -> ExtractionView {
        ExtractionView {
            parts: self.parts@,
            pdfs: named_bytes(self.pdfs@),
            videos: named_bytes(self.videos@),
        }
    }
}

/// A question without anything that came with it.
pub open spec fn question_alone(question: Seq<char>) -> ExtractionView {
    ExtractionView {
        parts: PartsView {
            question,
            images: Seq::empty(),
            pdf_texts: Seq::empty(),
            bbox_texts: Seq::empty(),
            text_files: Seq::empty(),
            video_frames: Seq::empty(),
        },
        pdfs: Seq::empty(),
        videos: Seq::empty(),
    }
}

/// `before` and one more file. Where the file is an image, `jpeg` is what its
/// re-encoding came to.
pub open spec fn with_file(
    before: ExtractionView,
    file: FileView,
    jpeg: Option<Seq<u8>>,
) -> ExtractionView {
    let parts = before.parts;
    match file.class {
        FileClass::BoundingBox => ExtractionView {
            parts: PartsView {
                bbox_texts: parts.bbox_texts.push((file.name, text_of_bytes(file.data))),
                ..parts
            },
            ..before
        },
        FileClass::Image => match jpeg {
            Some(j) => ExtractionView {
                parts: PartsView { images: parts.images.push((file.name, j)), ..parts },
                ..before
            },
            None => before,
        },
        FileClass::Pdf => ExtractionView {
            pdfs: before.pdfs.push((file.name, file.data)),
            ..before
        },
        FileClass::Video => ExtractionView {
            videos: before.videos.push((file.name, file.data)),
            ..before
        },
        FileClass::Text => ExtractionView {
            parts: PartsView {
                text_files: parts.text_files.push((file.name, text_of_bytes(file.data))),
                ..parts
            },
            ..before
        },
        FileClass::Unknown => before,
    }
}

/// A decoded file and, where it is an image, what its re-encoding came to.
pub type EntryView = (FileView, Option<Seq<u8>>);

/// The content of each decoded file with what its re-encoding came to.
pub open spec fn entry_views(entries: Seq<(FilePart, Option<Vec<u8>>)>) -> Seq<EntryView> {
    Seq::new(entries.len(), |i: int| (entries[i].0@, opt_bytes(entries[i].1)))
}

/// The question with the first `n` files sorted.
pub open spec fn sorted_files(question: Seq<char>, entries: Seq<EntryView>, n: nat) -> ExtractionView
    decreases n,
{
    if n == 0 || n > entries.len() {
        question_alone(question)
    } else {
        with_file(
            sorted_files(question, entries, (n - 1) as nat),
            entries[n - 1].0,
            entries[n - 1].1,
        )
    }
}

fn empty_extraction(question: String) -> (r: Extraction)
    ensures
        r@ == question_alone(question@),
{
    let r: Extraction = Extraction {
        parts: FwaParts {
            question,
            images: Vec::new(),
            pdf_texts: Vec::new(),
            bbox_texts: Vec::new(),
            text_files: Vec::new(),
            video_frames: Vec::new(),
        },
        pdfs: Vec::new(),
        videos: Vec::new(),
    };
    assert(r@ =~= question_alone(question@));
    r
}

impl Extraction {
    /// Sorts one more file in. Where the file is an image, `jpeg` is what its
    /// re-encoding came to.
    pub fn add_file(&mut self, file: FilePart, jpeg: Option<Vec<u8>>)
        ensures
            final(self)@ == with_file(old(self)@, file@, opt_bytes(jpeg)),
    {
        let ghost before = self@;
        match file.class {
            FileClass::BoundingBox => {
                let text: String = lossy_text(file.data.as_slice());
                self.parts.bbox_texts.push((file.name, text));
                assert(self@.parts.bbox_texts =~= before.parts.bbox_texts.push(
                    (file.name@, text@),
                ));
            },
            FileClass::Image => {
                if let Some(j) = jpeg {
                    self.parts.images.push((file.name, j));
                    assert(self@.parts.images =~= before.parts.images.push((file.name@, j@)));
                }
            },
            FileClass::Pdf => {
                self.pdfs.push((file.name, file.data));
                assert(self@.pdfs =~= before.pdfs.push((file.name@, file.data@)));
            },
            FileClass::Video => {
                self.videos.push((file.name, file.data));
                assert(self@.videos =~= before.videos.push((file.name@, file.data@)));
            },
            FileClass::Text => {
                let text: String = lossy_text(file.data.as_slice());
                self.parts.text_files.push((file.name, text));
                assert(self@.parts.text_files =~= before.parts.text_files.push(
                    (file.name@, text@),
                ));
            },
            FileClass::Unknown => {},
        }
        assert(self@ =~= with_file(before, file@, opt_bytes(jpeg)));
    }
}

/// Sorts the files that came with a question. With each file stands, where it is an
/// image, what its re-encoding came to.
pub fn sort_files(question: String, entries: Vec<(FilePart, Option<Vec<u8>>)>) -> (r: Extraction)
    ensures
        r@ == sorted_files(question@, entry_views(entries@), entries@.len()),
{
    let ghost all = entries@;
    let mut out: Extraction = empty_extraction(question);
    for entry in it: entries
        invariant
            it.seq() == all,
            out@ == sorted_files(question@, entry_views(all), it.index() as nat),
    {
        assert(entry == all[it.index()]);
        out.add_file(entry.0, entry.1);
    }
    out
}

/// Whether `entries` are `files` with an outcome of its re-encoding at each image.
pub open spec fn outcomes_of(files: Seq<FileView>, entries: Seq<EntryView>) -> bool {
    &&& entries.len() == files.len()
    &&& forall|i: int|
        0 <= i < files.len() ==> {
            &&& (#[trigger] entries[i]).0 == files[i]
            &&& files[i].class is Image ==> jpeg_outcome(files[i].data, entries[i].1)
            &&& entries[i].1 matches Some(j) ==> jpeg_framed(j)
        }
}

/// Whether `r` is `message` with its files sorted, for some outcomes of re-encoding
/// its images.
pub open spec fn extracted(message: JsonView, r: ExtractionView) -> bool {
    exists|entries: Seq<EntryView>|
        #![trigger outcomes_of(message_files(message), entries)]
        outcomes_of(message_files(message), entries) && r == sorted_files(
            message_question(message),
            entries,
            entries.len(),
        )
}

/// Reads a message and sorts its files. Images are re-encoded as JPEG; one that cannot
/// be read is left out.
pub fn extract_fwa_parts(message: &Json) -> (r: Extraction)
    ensures
        extracted(message@, r@),
{
    let collected: Collected = collect_parts(message);
    let ghost files = message_files(message@);
    let ghost raw = collected.files@;
    let mut entries: Vec<(FilePart, Option<Vec<u8>>)> = Vec::new();
    for file in it: collected.files
        invariant
            it.seq() == raw,
            file_views(raw) == files,
            entries.len() == it.index(),
            forall|i: int|
                0 <= i < entries.len() ==> {
                    &&& (#[trigger] entries@[i]).0@ == files[i]
                    &&& files[i].class is Image ==> jpeg_outcome(
                        files[i].data,
                        opt_bytes(entries@[i].1),
                    )
                    &&& opt_bytes(entries@[i].1) matches Some(j) ==> jpeg_framed(j)
                },
    {
        assert(file == raw[it.index()]);
        assert(file@ == files[it.index()]);
        let jpeg: Option<Vec<u8>> = match file.class {
            FileClass::Image => match reencode_image_to_jpeg(file.data.as_slice()) {
                Ok(j) => Some(j),
                Err(_) => None,
            },
            _ => None,
        };
        entries.push((file, jpeg));
    }
    assert(outcomes_of(files, entry_views(entries@)));
    sort_files(collected.question, entries)
}

/// Where no file of a message is an image, only one extraction is possible.
pub proof fn law_extraction_without_images(message: JsonView, r1: ExtractionView, r2: ExtractionView)
    requires
        extracted(message, r1),
        extracted(message, r2),
        forall|i: int|
            0 <= i < message_files(message).len() ==> !((#[trigger] message_files(message)[i]).class
                is Image),
    ensures
        r1 == r2,
{
    let files = message_files(message);
    let question = message_question(message);
    let e1 = choose|e: Seq<EntryView>| #![trigger outcomes_of(files, e)]
        outcomes_of(files, e) && r1 == sorted_files(question, e, e.len());
    let e2 = choose|e: Seq<EntryView>| #![trigger outcomes_of(files, e)]
        outcomes_of(files, e) && r2 == sorted_files(question, e, e.len());
    assert forall|i: int| 0 <= i < files.len() implies (#[trigger] e1[i]).0 == e2[i].0 && !(
    e1[i].0.class is Image) by {
        assert(e1[i].0 == files[i]);
        assert(e2[i].0 == files[i]);
    }
    lemma_sorting_without_images(question, e1, e2, files.len());
}

proof fn lemma_sorting_without_images(
    question: Seq<char>,
    e1: Seq<EntryView>,
    e2: Seq<EntryView>,
    n: nat,
)
    requires
        n <= e1.len(),
        n <= e2.len(),
        forall|i: int|
            0 <= i < n ==> (#[trigger] e1[i]).0 == e2[i].0 && !(e1[i].0.class is Image),
    ensures
        sorted_files(question, e1, n) == sorted_files(question, e2, n),
    decreases n,
{
    if n > 0 {
        assert forall|i: int| 0 <= i < n - 1 implies (#[trigger] e1[i]).0 == e2[i].0 && !(
        e1[i].0.class is Image) by {}
        lemma_sorting_without_images(question, e1, e2, (n - 1) as nat);
        assert(e1[n - 1].0 == e2[n - 1].0);
    }
}

/// The lists of two sorted messages, end to end, under one question.
pub open spec fn joined(
    question: Seq<char>,
    a: ExtractionView,
    b: ExtractionView,
) -> ExtractionView {
    ExtractionView {
        parts: PartsView {
            question,
            images: a.parts.images + b.parts.images,
            pdf_texts: a.parts.pdf_texts + b.parts.pdf_texts,
            bbox_texts: a.parts.bbox_texts + b.parts.bbox_texts,
            text_files: a.parts.text_files + b.parts.text_files,
            video_frames: a.parts.video_frames + b.parts.video_frames,
        },
        pdfs: a.pdfs + b.pdfs,
        videos: a.videos + b.videos,
    }
}

proof fn lemma_sorted_prefix(
    q: Seq<char>,
    qa: Seq<char>,
    e1: Seq<EntryView>,
    e2: Seq<EntryView>,
    n: nat,
)
    requires
        n <= e1.len(),
    ensures
        sorted_files(q, e1 + e2, n) == joined(q, sorted_files(qa, e1, n), question_alone(q)),
    decreases n,
{
    if n > 0 {
        lemma_sorted_prefix(q, qa, e1, e2, (n - 1) as nat);
        assert((e1 + e2)[n - 1] == e1[n - 1]);
    }
    assert(sorted_files(q, e1 + e2, n) =~= joined(
        q,
        sorted_files(qa, e1, n),
        question_alone(q),
    ));
}

proof fn lemma_sorted_in_runs(
    q: Seq<char>,
    qa: Seq<char>,
    qb: Seq<char>,
    e1: Seq<EntryView>,
    e2: Seq<EntryView>,
    n: nat,
)
    requires
        n <= e2.len(),
    ensures
        sorted_files(q, e1 + e2, e1.len() + n) == joined(
            q,
            sorted_files(qa, e1, e1.len()),
            sorted_files(qb, e2, n),
        ),
    decreases n,
{
    let a = sorted_files(qa, e1, e1.len());
    if n == 0 {
        lemma_sorted_prefix(q, qa, e1, e2, e1.len());
    } else {
        lemma_sorted_in_runs(q, qa, qb, e1, e2, (n - 1) as nat);
        assert((e1 + e2)[e1.len() + n - 1] == e2[n - 1]);
    }
    assert(sorted_files(q, e1 + e2, e1.len() + n) =~= joined(q, a, sorted_files(qb, e2, n)));
}

/// Files are sorted one by one: the lists of two runs of files are those of the first run
/// and then those of the second, whatever the questions are.
pub proof fn law_files_are_sorted_in_runs(
    q: Seq<char>,
    qa: Seq<char>,
    qb: Seq<char>,
    e1: Seq<EntryView>,
    e2: Seq<EntryView>,
)
    ensures
        sorted_files(q, e1 + e2, (e1 + e2).len()) == joined(
            q,
            sorted_files(qa, e1, e1.len()),
            sorted_files(qb, e2, e2.len()),
        ),
{
    lemma_sorted_in_runs(q, qa, qb, e1, e2, e2.len());
}

proof fn lemma_files_prefix(a: Seq<JsonView>, b: Seq<JsonView>, n: nat)
    requires
        n <= a.len(),
    ensures
        files_of(a + b, n) == files_of(a, n),
    decreases n,
{
    if n > 0 {
        lemma_files_prefix(a, b, (n - 1) as nat);
    }
}

proof fn lemma_files_in_runs(a: Seq<JsonView>, b: Seq<JsonView>, n: nat)
    requires
        n <= b.len(),
    ensures
        files_of(a + b, a.len() + n) == files_of(a, a.len()) + files_of(b, n),
    decreases n,
{
    if n == 0 {
        lemma_files_prefix(a, b, a.len());
    } else {
        lemma_files_in_runs(a, b, (n - 1) as nat);
        assert((a + b)[a.len() + n - 1] == b[n - 1]);
    }
    assert(files_of(a + b, a.len() + n) =~= files_of(a, a.len()) + files_of(b, n));
}

/// A message made of two runs of parts has the files of the first and then those of the
/// second.
pub proof fn law_files_are_read_in_runs(a: JsonView, b: JsonView, ab: JsonView)
    requires
        parts_in(ab) == parts_in(a) + parts_in(b),
    ensures
        message_files(ab) == message_files(a) + message_files(b),
{
    lemma_files_in_runs(parts_in(a), parts_in(b), parts_in(b).len());
}

/// What comes out of a message made of two runs of parts are the lists of the first and
/// then those of the second.
pub proof fn law_extraction_splits(a: JsonView, b: JsonView, ab: JsonView, r: ExtractionView)
    requires
        parts_in(ab) == parts_in(a) + parts_in(b),
        extracted(ab, r),
    ensures
        exists|ra: ExtractionView, rb: ExtractionView| #[trigger]
            extracted(a, ra) && #[trigger] extracted(b, rb) && r == joined(
                message_question(ab),
                ra,
                rb,
            ),
{
    law_files_are_read_in_runs(a, b, ab);
    let (fa, fb, files) = (message_files(a), message_files(b), message_files(ab));
    let e = choose|e: Seq<EntryView>| #![trigger outcomes_of(files, e)]
        outcomes_of(files, e) && r == sorted_files(message_question(ab), e, e.len());
    let e1 = e.take(fa.len() as int);
    let e2 = e.skip(fa.len() as int);
    assert(e1 + e2 =~= e);
    assert(outcomes_of(fa, e1)) by {
        assert forall|i: int| 0 <= i < fa.len() implies {
            &&& (#[trigger] e1[i]).0 == fa[i]
            &&& fa[i].class is Image ==> jpeg_outcome(fa[i].data, e1[i].1)
            &&& e1[i].1 matches Some(j) ==> jpeg_framed(j)
        } by {
            assert(e[i] == e1[i] && files[i] == fa[i]);
        }
    }
    assert(outcomes_of(fb, e2)) by {
        assert forall|i: int| 0 <= i < fb.len() implies {
            &&& (#[trigger] e2[i]).0 == fb[i]
            &&& fb[i].class is Image ==> jpeg_outcome(fb[i].data, e2[i].1)
            &&& e2[i].1 matches Some(j) ==> jpeg_framed(j)
        } by {
            assert(e[fa.len() + i] == e2[i] && files[fa.len() + i] == fb[i]);
        }
    }
    let ra = sorted_files(message_question(a), e1, e1.len());
    let rb = sorted_files(message_question(b), e2, e2.len());
    assert(extracted(a, ra));
    assert(extracted(b, rb));
    law_files_are_sorted_in_runs(
        message_question(ab),
        message_question(a),
        message_question(b),
        e1,
        e2,
    );
}

/// What comes out of two runs of parts, end to end, comes out of the message made of both.
pub proof fn law_extraction_joins(
    a: JsonView,
    b: JsonView,
    ab: JsonView,
    ra: ExtractionView,
    rb: ExtractionView,
)
    requires
        parts_in(ab) == parts_in(a) + parts_in(b),
        extracted(a, ra),
        extracted(b, rb),
    ensures
        extracted(ab, joined(message_question(ab), ra, rb)),
{
    law_files_are_read_in_runs(a, b, ab);
    let (fa, fb, files) = (message_files(a), message_files(b), message_files(ab));
    let e1 = choose|e: Seq<EntryView>| #![trigger outcomes_of(fa, e)]
        outcomes_of(fa, e) && ra == sorted_files(message_question(a), e, e.len());
    let e2 = choose|e: Seq<EntryView>| #![trigger outcomes_of(fb, e)]
        outcomes_of(fb, e) && rb == sorted_files(message_question(b), e, e.len());
    let e = e1 + e2;
    assert(outcomes_of(files, e)) by {
        assert forall|i: int| 0 <= i < files.len() implies {
            &&& (#[trigger] e[i]).0 == files[i]
            &&& files[i].class is Image ==> jpeg_outcome(files[i].data, e[i].1)
            &&& e[i].1 matches Some(j) ==> jpeg_framed(j)
        } by {
            if i < fa.len() {
                assert(e[i] == e1[i] && files[i] == fa[i]);
            } else {
                assert(e[i] == e2[i - fa.len()] && files[i] == fb[i - fa.len()]);
            }
        }
    }
    law_files_are_sorted_in_runs(
        message_question(ab),
        message_question(a),
        message_question(b),
        e1,
        e2,
    );
}

proof fn lemma_question_prefix(a: Seq<JsonView>, b: Seq<JsonView>, n: nat)
    requires
        n <= a.len(),
    ensures
        question_of(a + b, n) == question_of(a, n),
    decreases n,
{
    if n > 0 {
        lemma_question_prefix(a, b, (n - 1) as nat);
    }
}

/// Behind the same question the same parts make the same question.
proof fn lemma_question_goes_on(a1: Seq<JsonView>, a2: Seq<JsonView>, b: Seq<JsonView>, n: nat)
    requires
        n <= b.len(),
        question_of(a1, a1.len()) == question_of(a2, a2.len()),
    ensures
        question_of(a1 + b, a1.len() + n) == question_of(a2 + b, a2.len() + n),
    decreases n,
{
    if n == 0 {
        lemma_question_prefix(a1, b, a1.len());
        lemma_question_prefix(a2, b, a2.len());
    } else {
        lemma_question_goes_on(a1, a2, b, (n - 1) as nat);
        assert((a1 + b)[a1.len() + n - 1] == b[n - 1]);
        assert((a2 + b)[a2.len() + n - 1] == b[n - 1]);
    }
}

/// A file whose bytes are missing or cannot be decoded adds nothing and disturbs nothing:
/// the message gives what it gives without that part.
pub proof fn law_undecodable_file_adds_nothing(
    before: Seq<JsonView>,
    part: JsonView,
    behind: Seq<JsonView>,
    with: JsonView,
    without: JsonView,
    r: ExtractionView,
)
    requires
        kind_of(part) == "file"@,
        file_in(part) is None,
        parts_in(with) == before.push(part) + behind,
        parts_in(without) == before + behind,
    ensures
        message_question(with) == message_question(without),
        message_files(with) == message_files(without),
        extracted(with, r) == extracted(without, r),
{
    let longer = before.push(part);
    reveal_strlit("text");
    reveal_strlit("file");
    assert("text"@[0] == 't' && "file"@[0] == 'f');
    assert(longer =~= before + seq![part]);
    lemma_question_prefix(before, seq![part], before.len());
    assert(question_of(longer, longer.len()) == question_of(before, before.len()));
    lemma_question_goes_on(longer, before, behind, behind.len());
    lemma_files_prefix(before, seq![part], before.len());
    assert(files_of(longer, longer.len()) == files_of(before, before.len()));
    lemma_files_in_runs(longer, behind, behind.len());
    lemma_files_in_runs(before, behind, behind.len());
}

/// Every image that is shown to a model is framed as JPEG, whatever it was sent as.
pub proof fn law_images_are_jpeg(message: JsonView, r: ExtractionView, i: int)
    requires
        extracted(message, r),
        0 <= i < r.parts.images.len(),
    ensures
        jpeg_framed(r.parts.images[i].1),
{
    let files = message_files(message);
    let question = message_question(message);
    let e = choose|e: Seq<EntryView>| #![trigger outcomes_of(files, e)]
        outcomes_of(files, e) && r == sorted_files(question, e, e.len());
    lemma_sorted_images_are_jpeg(question, e, e.len(), i);
}

proof fn lemma_sorted_images_are_jpeg(question: Seq<char>, e: Seq<EntryView>, n: nat, i: int)
    requires
        n <= e.len(),
        forall|k: int| 0 <= k < e.len() ==> ((#[trigger] e[k]).1 matches Some(j) ==> jpeg_framed(j)),
        0 <= i < sorted_files(question, e, n).parts.images.len(),
    ensures
        jpeg_framed(sorted_files(question, e, n).parts.images[i].1),
    decreases n,
{
    if n > 0 {
        let before = sorted_files(question, e, (n - 1) as nat);
        assert(e[n - 1] == e[n - 1]);
        if i < before.parts.images.len() {
            lemma_sorted_images_are_jpeg(question, e, (n - 1) as nat, i);
        }
    }
}

/// Every file is sorted into one list at most, and never takes another out: a file
/// adds one entry, or none where its class is unknown or its image cannot be read.
pub proof fn law_file_adds_one_entry(before: ExtractionView, file: FileView, jpeg: Option<Seq<u8>>)
    ensures
        entry_count(with_file(before, file, jpeg)) == entry_count(before) + if file.class is Unknown
            || (file.class is Image && jpeg is None) {
            0int
        } else {
            1int
        },
        with_file(before, file, jpeg).parts.question == before.parts.question,
{
}

/// How many files a sorted message shows or holds for opening.
pub open spec fn entry_count(e: ExtractionView) -> nat {
    e.parts.images.len() + e.parts.pdf_texts.len() + e.parts.bbox_texts.len()
        + e.parts.text_files.len() + e.pdfs.len() + e.videos.len()
}

/// The names of the frames of a video.
pub open spec fn frame_name(video: Seq<char>, i: nat) -> Seq<char> {
    video + "_frame_"@ + decimal_text(i)
}

/// The frames of a video, named after it and numbered.
pub open spec fn named_frames(video: Seq<char>, frames: Seq<Seq<u8>>) -> Seq<NamedBytes> {
    Seq::new(frames.len(), |i: int| (frame_name(video, i as nat), frames[i]))
}

/// A document and the text that came out of it, where some did.
pub type OpenedPdf = (Seq<char>, Option<Seq<char>>);

/// A video and the frames that came out of it.
pub type OpenedVideo = (Seq<char>, Seq<Seq<u8>>);

/// The content of each document with the text that came out of it.
pub open spec fn opened_pdfs(list: Seq<(String, Option<String>)>) -> Seq<OpenedPdf> {
    Seq::new(list.len(), |i: int| (list[i].0@, opt_chars(list[i].1)))
}

/// The content of each video with the frames that came out of it.
pub open spec fn opened_videos(list: Seq<(String, Vec<Vec<u8>>)>) -> Seq<OpenedVideo> {
    Seq::new(list.len(), |i: int| (list[i].0@, byte_lists(list[i].1@)))
}

/// The texts of the first `n` documents; one that gave none is left out.
pub open spec fn pdf_entries(list: Seq<OpenedPdf>, n: nat) -> Seq<NamedText>
    decreases n,
{
    if n == 0 || n > list.len() {
        Seq::empty()
    } else {
        let before = pdf_entries(list, (n - 1) as nat);
        match list[n - 1].1 {
            Some(text) => before.push((list[n - 1].0, text)),
            None => before,
        }
    }
}

/// The frames of the first `n` videos.
pub open spec fn video_entries(list: Seq<OpenedVideo>, n: nat) -> Seq<NamedBytes>
    decreases n,
{
    if n == 0 || n > list.len() {
        Seq::empty()
    } else {
        video_entries(list, (n - 1) as nat) + named_frames(list[n - 1].0, list[n - 1].1)
    }
}

/// The texts and the frames of two runs of documents and videos are those of the first and
/// then those of the second.
pub proof fn law_attachments_are_added_in_runs(
    p1: Seq<OpenedPdf>,
    p2: Seq<OpenedPdf>,
    v1: Seq<OpenedVideo>,
    v2: Seq<OpenedVideo>,
)
    ensures
        pdf_entries(p1 + p2, (p1 + p2).len()) == pdf_entries(p1, p1.len()) + pdf_entries(
            p2,
            p2.len(),
        ),
        video_entries(v1 + v2, (v1 + v2).len()) == video_entries(v1, v1.len()) + video_entries(
            v2,
            v2.len(),
        ),
{
    lemma_pdfs_in_runs(p1, p2, p2.len());
    lemma_videos_in_runs(v1, v2, v2.len());
}

proof fn lemma_pdfs_prefix(a: Seq<OpenedPdf>, b: Seq<OpenedPdf>, n: nat)
    requires
        n <= a.len(),
    ensures
        pdf_entries(a + b, n) == pdf_entries(a, n),
    decreases n,
{
    if n > 0 {
        lemma_pdfs_prefix(a, b, (n - 1) as nat);
    }
}

proof fn lemma_pdfs_in_runs(a: Seq<OpenedPdf>, b: Seq<OpenedPdf>, n: nat)
    requires
        n <= b.len(),
    ensures
        pdf_entries(a + b, a.len() + n) == pdf_entries(a, a.len()) + pdf_entries(b, n),
    decreases n,
{
    if n == 0 {
        lemma_pdfs_prefix(a, b, a.len());
    } else {
        lemma_pdfs_in_runs(a, b, (n - 1) as nat);
        assert((a + b)[a.len() + n - 1] == b[n - 1]);
    }
    assert(pdf_entries(a + b, a.len() + n) =~= pdf_entries(a, a.len()) + pdf_entries(b, n));
}

proof fn lemma_videos_prefix(a: Seq<OpenedVideo>, b: Seq<OpenedVideo>, n: nat)
    requires
        n <= a.len(),
    ensures
        video_entries(a + b, n) == video_entries(a, n),
    decreases n,
{
    if n > 0 {
        lemma_videos_prefix(a, b, (n - 1) as nat);
    }
}

proof fn lemma_videos_in_runs(a: Seq<OpenedVideo>, b: Seq<OpenedVideo>, n: nat)
    requires
        n <= b.len(),
    ensures
        video_entries(a + b, a.len() + n) == video_entries(a, a.len()) + video_entries(b, n),
    decreases n,
{
    if n == 0 {
        lemma_videos_prefix(a, b, a.len());
    } else {
        lemma_videos_in_runs(a, b, (n - 1) as nat);
        assert((a + b)[a.len() + n - 1] == b[n - 1]);
    }
    assert(video_entries(a + b, a.len() + n) =~= video_entries(a, a.len()) + video_entries(b, n));
}

impl FwaParts {
    /// Adds what came out of the documents and the videos of a message, in their order.
    pub fn add_opened(
        &mut self,
        pdfs: Vec<(String, Option<String>)>,
        videos: Vec<(String, Vec<Vec<u8>>)>,
    )
        ensures
            final(self)@ == (PartsView {
                pdf_texts: old(self)@.pdf_texts + pdf_entries(opened_pdfs(pdfs@), pdfs@.len()),
                video_frames: old(self)@.video_frames + video_entries(
                    opened_videos(videos@),
                    videos@.len(),
                ),
                ..old(self)@
            }),
    {
        let ghost start = self@;
        let ghost all_pdfs = pdfs@;
        let ghost all_videos = videos@;
        assert(start.pdf_texts + pdf_entries(opened_pdfs(all_pdfs), 0) =~= start.pdf_texts);
        for pdf in it: pdfs
            invariant
                it.seq() == all_pdfs,
                self@ == (PartsView {
                    pdf_texts: start.pdf_texts + pdf_entries(
                        opened_pdfs(all_pdfs),
                        it.index() as nat,
                    ),
                    ..start
                }),
        {
            assert(pdf == all_pdfs[it.index()]);
            self.add_pdf(pdf.0, pdf.1);
            assert(self@.pdf_texts =~= start.pdf_texts + pdf_entries(
                opened_pdfs(all_pdfs),
                (it.index() + 1) as nat,
            ));
        }
        let ghost middle = self@;
        assert(middle.video_frames + video_entries(opened_videos(all_videos), 0)
            =~= middle.video_frames);
        for video in it: videos
            invariant
                it.seq() == all_videos,
                self@ == (PartsView {
                    video_frames: middle.video_frames + video_entries(
                        opened_videos(all_videos),
                        it.index() as nat,
                    ),
                    ..middle
                }),
        {
            assert(video == all_videos[it.index()]);
            self.add_video(video.0.as_str(), video.1);
            assert(self@.video_frames =~= middle.video_frames + video_entries(
                opened_videos(all_videos),
                (it.index() + 1) as nat,
            ));
        }
    }

    /// Adds the text of a document, where there was one to be had.
    pub fn add_pdf(&mut self, name: String, text: Option<String>)
        ensures
            match text {
                Some(t) => final(self)@ == (PartsView {
                    pdf_texts: old(self)@.pdf_texts.push((name@, t@)),
                    ..old(self)@
                }),
                None => final(self)@ == old(self)@,
            },
    {
        let ghost before = self@;
        if let Some(t) = text {
            self.pdf_texts.push((name, t));
            assert(self@.pdf_texts =~= before.pdf_texts.push((name@, t@)));
        }
    }

    /// Adds the frames of a video, named after it and numbered from zero.
    pub fn add_video(&mut self, name: &str, frames: Vec<Vec<u8>>)
        ensures
            final(self)@ == (PartsView {
                video_frames: old(self)@.video_frames + named_frames(
                    name@,
                    byte_lists(frames@),
                ),
                ..old(self)@
            }),
    {
        let ghost before = self@;
        let ghost all = frames@;
        let ghost named = named_frames(name@, byte_lists(all));
        let total: usize = frames.len();
        let mut i: usize = 0;
        assert(before.video_frames + named.take(0) =~= before.video_frames);
        for frame in it: frames
            invariant
                it.seq() == all,
                all.len() == total,
                i == it.index(),
                named == named_frames(name@, byte_lists(all)),
                self@ == (PartsView {
                    video_frames: before.video_frames + named.take(i as int),
                    ..before
                }),
        {
            assert(frame == all[i as int]);
            let ghost done = self@.video_frames;
            let mut frame_title: String = name.to_owned();
            frame_title.append("_frame_");
            frame_title.append(decimal(i as u64).as_str());
            self.video_frames.push((frame_title, frame));
            assert(self@.video_frames =~= done.push(named[i as int]));
            assert(named.take(i + 1) =~= named.take(i as int).push(named[i as int]));
            i += 1;
        }
        assert(named.take(i as int) =~= named);
    }
}

/// A file is what it first looks like, by its name in lower case and by its media type as it
/// stands: bounding boxes, an image, a document, a video, a text, or nothing that is known.
pub proof fn law_files_are_what_they_look_like(name: Seq<char>, mime: Seq<char>)
    ensures
        ({
            let n = lowered(name);
            let boxes = holds(n, "bounding_box"@) || holds(n, "bbox"@);
            let image = begins(mime, "image/"@) || ends(n, ".jpg"@) || ends(n, ".jpeg"@) || ends(
                n,
                ".png"@,
            ) || ends(n, ".webp"@);
            let pdf = mime == "application/pdf"@ || ends(n, ".pdf"@);
            let video = begins(mime, "video/"@) || ends(n, ".mp4"@);
            let text = begins(mime, "text/"@) || ends(n, ".txt"@) || ends(n, ".csv"@) || ends(
                n,
                ".json"@,
            );
            &&& class_of(name, mime) == FileClass::BoundingBox <==> boxes
            &&& class_of(name, mime) == FileClass::Image <==> !boxes && image
            &&& class_of(name, mime) == FileClass::Pdf <==> !boxes && !image && pdf
            &&& class_of(name, mime) == FileClass::Video <==> !boxes && !image && !pdf && video
            &&& class_of(name, mime) == FileClass::Text <==> !boxes && !image && !pdf && !video
                && text
            &&& class_of(name, mime) == FileClass::Unknown <==> !boxes && !image && !pdf && !video
                && !text
        }),
{
}

/// The kind of a part is what it says under `kind`, else what it says under `type`.
pub proof fn law_parts_say_their_kind(part: JsonView, k: Seq<char>)
    ensures
        part.field("kind"@) == Some(JsonView::Str(k)) ==> kind_of(part) == k,
        part.str_field("kind"@) is None && part.field("type"@) == Some(JsonView::Str(k))
            ==> kind_of(part) == k,
        part.str_field("kind"@) is None && part.str_field("type"@) is None ==> kind_of(part)
            == ""@,
{
}

/// A file that was encoded is found again, byte for byte, under its name and as what it
/// looks like, whether its bytes stand alone or in a `data:` URI.
pub proof fn law_encoded_files_are_found(
    part: JsonView,
    file: JsonView,
    data: Seq<u8>,
    name: Seq<char>,
    mime: Seq<char>,
    head: Seq<char>,
)
    requires
        part.field("file"@) == Some(file),
        file.field("name"@) == Some(JsonView::Str(name)),
        file.field("mimeType"@) == Some(JsonView::Str(mime)),
        !head.contains(','),
        file.field("bytes"@) == Some(JsonView::Str(base64_text(data))) || file.field("bytes"@)
            == Some(JsonView::Str("data:"@ + head + seq![','] + base64_text(data))),
    ensures
        file_in(part) == Some(FileView { name, class: class_of(name, mime), data }),
{
    law_base64_reads_back(data);
    law_the_head_of_a_uri_is_taken_off(head, base64_text(data));
    lemma_base64_holds_no_comma(data);
    law_the_head_of_a_uri_is_taken_off(base64_text(data), seq![]);
}

proof fn lemma_base64_holds_no_comma(data: Seq<u8>)
    ensures
        !base64_text(data).contains(','),
    decreases data.len(),
{
    let s = base64_text(data);
    if data.len() >= 3 {
        lemma_base64_holds_no_comma(data.skip(3));
        assert forall|i: int| 0 <= i < s.len() implies #[trigger] s[i] != ',' by {
            if i >= 4 {
                let rest = base64_text(data.skip(3));
                assert(s[i] == rest[i - 4]);
                assert(rest.contains(rest[i - 4]));
            }
        }
    }
}

/// What a file leaves unsaid: without a name it is an attachment, an older spelling of the
/// media type counts where the newer is missing, and without bytes there is no file.
pub proof fn law_what_files_leave_unsaid(part: JsonView, file: JsonView, mime: Seq<char>)
    ensures
        file.str_field("name"@) is None ==> attachment_name(file) == "attachment"@,
        file.str_field("name"@) matches Some(n) ==> attachment_name(file) == n,
        file.field("mimeType"@) == Some(JsonView::Str(mime)) ==> attachment_mime(file) == mime,
        file.field("mimeType"@) is None && file.field("mime_type"@) == Some(JsonView::Str(mime))
            ==> attachment_mime(file) == mime,
        file.field("mimeType"@) matches Some(v) && !(v is Str) ==> attachment_mime(file) == ""@,
        file.field("mimeType"@) is None && file.str_field("mime_type"@) is None ==> attachment_mime(
            file,
        ) == ""@,
        part.field("file"@) is None ==> file_in(part) is None,
        part.field("file"@) == Some(file) && file.str_field("bytes"@) is None ==> file_in(part)
            is None,
        part.field("file"@) == Some(file) ==> (file_in(part) matches Some(f) ==> f.name
            == attachment_name(file) && f.class == class_of(
            attachment_name(file),
            attachment_mime(file),
        )),
{
}

/// A text is put on a line of its own behind the question so far, a file behind the files so
/// far, and any other part changes nothing.
pub proof fn law_parts_are_read_in_order(parts: Seq<JsonView>, p: JsonView)
    ensures
        ({
            let q = question_of(parts, parts.len());
            let files = files_of(parts, parts.len());
            let q2 = question_of(parts.push(p), parts.len() + 1);
            let files2 = files_of(parts.push(p), parts.len() + 1);
            &&& question_of(Seq::empty(), 0).len() == 0
            &&& files_of(Seq::empty(), 0).len() == 0
            &&& kind_of(p) == "text"@ && q.len() == 0 ==> (p.field("text"@) matches Some(
                JsonView::Str(t),
            ) ==> q2 == t)
            &&& kind_of(p) == "text"@ && q.len() > 0 ==> (p.field("text"@) matches Some(
                JsonView::Str(t),
            ) ==> q2 == q + "\n"@ + t)
            &&& kind_of(p) == "text"@ && p.str_field("text"@) is None ==> q2 == q
            &&& kind_of(p) != "text"@ ==> q2 == q
            &&& kind_of(p) == "file"@ ==> (file_in(p) matches Some(f) ==> files2 == files.push(f))
            &&& kind_of(p) == "file"@ && file_in(p) is None ==> files2 == files
            &&& kind_of(p) != "file"@ ==> files2 == files
        }),
{
    assert(parts.push(p) =~= parts + seq![p]);
    lemma_question_prefix(parts, seq![p], parts.len());
    lemma_files_prefix(parts, seq![p], parts.len());
}

/// The parts of a message are those that it lists.
pub proof fn law_listed_parts_are_read(message: JsonView, parts: Seq<JsonView>)
    ensures
        message.field("parts"@) == Some(JsonView::Array(parts)) ==> parts_in(message) == parts
            && message_question(message) == question_of(parts, parts.len()) && message_files(
            message,
        ) == files_of(parts, parts.len()),
        message.array_field("parts"@) is None ==> parts_in(message).len() == 0,
{
}

/// A file goes to the end of the one list that its class has, under its own name and with
/// its own content, and leaves everything else alone.
pub proof fn law_files_go_to_their_lists(
    before: ExtractionView,
    file: FileView,
    jpeg: Option<Seq<u8>>,
)
    ensures
        ({
            let after = with_file(before, file, jpeg);
            let text = (file.name, text_of_bytes(file.data));
            let raw = (file.name, file.data);
            &&& after.parts.question == before.parts.question
            &&& after.parts.pdf_texts == before.parts.pdf_texts
            &&& after.parts.video_frames == before.parts.video_frames
            &&& after.parts.bbox_texts == if file.class is BoundingBox {
                before.parts.bbox_texts.push(text)
            } else {
                before.parts.bbox_texts
            }
            &&& after.parts.text_files == if file.class is Text {
                before.parts.text_files.push(text)
            } else {
                before.parts.text_files
            }
            &&& after.pdfs == if file.class is Pdf {
                before.pdfs.push(raw)
            } else {
                before.pdfs
            }
            &&& after.videos == if file.class is Video {
                before.videos.push(raw)
            } else {
                before.videos
            }
            &&& after.parts.images == if file.class is Image && jpeg is Some {
                before.parts.images.push((file.name, jpeg->0))
            } else {
                before.parts.images
            }
        }),
{
}

/// Nothing is in the lists before the first file, and each file is sorted behind those
/// before it.
pub proof fn law_sorting_goes_file_by_file(
    question: Seq<char>,
    entries: Seq<EntryView>,
    file: FileView,
    jpeg: Option<Seq<u8>>,
)
    ensures
        ({
            let none = sorted_files(question, Seq::empty(), 0);
            &&& none.parts.question == question
            &&& none.parts.images.len() == 0 && none.parts.pdf_texts.len() == 0
            &&& none.parts.bbox_texts.len() == 0 && none.parts.text_files.len() == 0
            &&& none.parts.video_frames.len() == 0 && none.pdfs.len() == 0 && none.videos.len() == 0
        }),
        sorted_files(question, entries.push((file, jpeg)), entries.len() + 1) == with_file(
            sorted_files(question, entries, entries.len()),
            file,
            jpeg,
        ),
{
    let more = seq![(file, jpeg)];
    assert(entries.push((file, jpeg)) =~= entries + more);
    lemma_sorted_prefix(question, question, entries, more, entries.len());
    let before = sorted_files(question, entries, entries.len());
    lemma_sorted_keeps_question(question, entries, entries.len());
    assert(joined(question, before, question_alone(question)) =~= before);
}

proof fn lemma_sorted_keeps_question(question: Seq<char>, entries: Seq<EntryView>, n: nat)
    requires
        n <= entries.len(),
    ensures
        sorted_files(question, entries, n).parts.question == question,
    decreases n,
{
    if n > 0 {
        lemma_sorted_keeps_question(question, entries, (n - 1) as nat);
    }
}

/// An image that comes alone is shown as what its re-encoding came to, under its own name,
/// and left out only where the re-encoding of its own bytes failed.
pub proof fn law_an_image_is_reencoded(message: JsonView, r: ExtractionView, image: FileView)
    requires
        message_files(message) == seq![image],
        image.class is Image,
        extracted(message, r),
    ensures
        r.parts.question == message_question(message),
        r.parts.images.len() == 0 ==> jpeg_outcome(image.data, None),
        r.parts.images.len() > 0 ==> r.parts.images.len() == 1 && r.parts.images[0].0 == image.name
            && jpeg_outcome(image.data, Some(r.parts.images[0].1)) && jpeg_framed(
            r.parts.images[0].1,
        ),
{
    let files = message_files(message);
    let question = message_question(message);
    let e = choose|e: Seq<EntryView>| #![trigger outcomes_of(files, e)]
        outcomes_of(files, e) && r == sorted_files(question, e, e.len());
    assert(e[0].0 == files[0]);
    reveal_with_fuel(sorted_files, 2);
}

/// Each frame is named after its video and numbered from zero, and holds its own bytes.
pub proof fn law_frames_are_named_after_their_video(
    video: Seq<char>,
    frames: Seq<Seq<u8>>,
    i: int,
)
    requires
        0 <= i < frames.len(),
    ensures
        named_frames(video, frames).len() == frames.len(),
        named_frames(video, frames)[i].0 == video + "_frame_"@ + decimal_text(i as nat),
        named_frames(video, frames)[i].1 == frames[i],
{
}

/// A document that gave a text adds it under its name, and a video adds its frames; one that
/// gave none adds nothing.
pub proof fn law_attachments_are_added_one_by_one(
    pdfs: Seq<OpenedPdf>,
    pdf: OpenedPdf,
    videos: Seq<OpenedVideo>,
    video: OpenedVideo,
)
    ensures
        pdf_entries(Seq::empty(), 0).len() == 0,
        pdf.1 matches Some(text) ==> pdf_entries(pdfs.push(pdf), pdfs.len() + 1) == pdf_entries(
            pdfs,
            pdfs.len(),
        ).push((pdf.0, text)),
        pdf.1 is None ==> pdf_entries(pdfs.push(pdf), pdfs.len() + 1) == pdf_entries(
            pdfs,
            pdfs.len(),
        ),
        video_entries(Seq::empty(), 0).len() == 0,
        video_entries(videos.push(video), videos.len() + 1) == video_entries(videos, videos.len())
            + named_frames(video.0, video.1),
{
    assert(pdfs.push(pdf) =~= pdfs + seq![pdf]);
    assert(videos.push(video) =~= videos + seq![video]);
    lemma_pdfs_prefix(pdfs, seq![pdf], pdfs.len());
    lemma_videos_prefix(videos, seq![video], videos.len());
}

/// The lists of a message are told entry by entry, in order.
pub proof fn law_entries_are_told_in_order(
    parts: FwaParts,
    files: Seq<FilePart>,
    entries: Seq<(FilePart, Option<Vec<u8>>)>,
    i: int,
)
    ensures
        parts@.question == parts.question@,
        parts@.images.len() == parts.images@.len() && parts@.pdf_texts.len()
            == parts.pdf_texts@.len() && parts@.bbox_texts.len() == parts.bbox_texts@.len(),
        parts@.text_files.len() == parts.text_files@.len() && parts@.video_frames.len()
            == parts.video_frames@.len(),
        0 <= i < parts.images@.len() ==> parts@.images[i] == (
            parts.images@[i].0@,
            parts.images@[i].1@,
        ),
        0 <= i < parts.pdf_texts@.len() ==> parts@.pdf_texts[i] == (
            parts.pdf_texts@[i].0@,
            parts.pdf_texts@[i].1@,
        ),
        0 <= i < parts.bbox_texts@.len() ==> parts@.bbox_texts[i] == (
            parts.bbox_texts@[i].0@,
            parts.bbox_texts@[i].1@,
        ),
        0 <= i < parts.text_files@.len() ==> parts@.text_files[i] == (
            parts.text_files@[i].0@,
            parts.text_files@[i].1@,
        ),
        0 <= i < parts.video_frames@.len() ==> parts@.video_frames[i] == (
            parts.video_frames@[i].0@,
            parts.video_frames@[i].1@,
        ),
        file_views(files).len() == files.len(),
        0 <= i < files.len() ==> file_views(files)[i] == (FileView {
            name: files[i].name@,
            class: files[i].class,
            data: files[i].data@,
        }),
        entry_views(entries).len() == entries.len(),
        0 <= i < entries.len() ==> entry_views(entries)[i] == (
            entries[i].0@,
            opt_bytes(entries[i].1),
        ),
{
}

/// What came out of documents and videos is told one by one, in order.
pub proof fn law_opened_attachments_are_told_in_order(
    pdfs: Seq<(String, Option<String>)>,
    videos: Seq<(String, Vec<Vec<u8>>)>,
    i: int,
)
    ensures
        opened_pdfs(pdfs).len() == pdfs.len() && opened_videos(videos).len() == videos.len(),
        0 <= i < pdfs.len() ==> opened_pdfs(pdfs)[i] == (pdfs[i].0@, opt_chars(pdfs[i].1)),
        0 <= i < videos.len() ==> opened_videos(videos)[i] == (
            videos[i].0@,
            byte_lists(videos[i].1@),
        ),
{
}

/// A message without files gives its question and nothing else.
pub proof fn law_a_question_comes_alone(message: JsonView, r: ExtractionView)
    requires
        message_files(message).len() == 0,
        extracted(message, r),
    ensures
        r.parts.question == message_question(message),
        r.parts.images.len() == 0 && r.parts.pdf_texts.len() == 0 && r.parts.bbox_texts.len() == 0,
        r.parts.text_files.len() == 0 && r.parts.video_frames.len() == 0,
        r.pdfs.len() == 0 && r.videos.len() == 0,
{
}

/// A file that comes alone is shown, or held for opening, under its own name and with its
/// own content.
pub proof fn law_a_file_is_sorted(message: JsonView, r: ExtractionView, file: FileView)
    requires
        message_files(message) == seq![file],
        extracted(message, r),
    ensures
        file.class is BoundingBox ==> r.parts.bbox_texts == seq![
            (file.name, text_of_bytes(file.data)),
        ],
        file.class is Text ==> r.parts.text_files == seq![(file.name, text_of_bytes(file.data))],
        file.class is Pdf ==> r.pdfs == seq![(file.name, file.data)],
        file.class is Video ==> r.videos == seq![(file.name, file.data)],
        !(file.class is BoundingBox) ==> r.parts.bbox_texts.len() == 0,
        !(file.class is Text) ==> r.parts.text_files.len() == 0,
        !(file.class is Pdf) ==> r.pdfs.len() == 0,
        !(file.class is Video) ==> r.videos.len() == 0,
        !(file.class is Image) ==> r.parts.images.len() == 0,
        r.parts.pdf_texts.len() == 0 && r.parts.video_frames.len() == 0,
{
    let files = message_files(message);
    let question = message_question(message);
    let e = choose|e: Seq<EntryView>| #![trigger outcomes_of(files, e)]
        outcomes_of(files, e) && r == sorted_files(question, e, e.len());
    assert(e[0].0 == files[0]);
    reveal_with_fuel(sorted_files, 2);
}

/// A sorted message and a file in it are told as they are.
pub proof fn law_extractions_are_told(e: Extraction, file: FilePart, i: int)
    ensures
        e@.parts == e.parts@,
        e@.pdfs.len() == e.pdfs@.len() && e@.videos.len() == e.videos@.len(),
        0 <= i < e.pdfs@.len() ==> e@.pdfs[i] == (e.pdfs@[i].0@, e.pdfs@[i].1@),
        0 <= i < e.videos@.len() ==> e@.videos[i] == (e.videos@[i].0@, e.videos@[i].1@),
        opt_file(Some(file)) == Some(file@),
        opt_file(None) is None,
        file@.name == file.name@ && file@.class == file.class && file@.data == file.data@,
{
}

} // verus!
