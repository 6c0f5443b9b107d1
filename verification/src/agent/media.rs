//! Media: base64, the re-encoding of images, and the frames of videos.

use base64::Engine;
use vstd::prelude::*;
use vstd::string::*;

use crate::text::{
    all_digits, begins, chars_of, decimal, decimal_text, digits_value, find_char,
    law_numerals_read_back, starts_with, texts,
};

verus! {

/// The base64 symbol of a six-bit value.
pub open spec fn base64_symbol(v: int) -> char {
    if v < 26 {
        ((65 + v) as u32) as char
    } else if v < 52 {
        ((71 + v) as u32) as char
    } else if v < 62 {
        ((v - 4) as u32) as char
    } else if v == 62 {
        '+'
    } else {
        '/'
    }
}

/// The base64 form of `bytes`, with padding: three bytes give four symbols.
pub open spec fn base64_text(bytes: Seq<u8>) -> Seq<char>
    decreases bytes.len(),
{
    if bytes.len() == 0 {
        Seq::empty()
    } else if bytes.len() == 1 {
        seq![
            base64_symbol(bytes[0] as int / 4),
            base64_symbol(bytes[0] as int % 4 * 16),
            '=',
            '=',
        ]
    } else if bytes.len() == 2 {
        seq![
            base64_symbol(bytes[0] as int / 4),
            base64_symbol(bytes[0] as int % 4 * 16 + bytes[1] as int / 16),
            base64_symbol(bytes[1] as int % 16 * 4),
            '=',
        ]
    } else {
        seq![
            base64_symbol(bytes[0] as int / 4),
            base64_symbol(bytes[0] as int % 4 * 16 + bytes[1] as int / 16),
            base64_symbol(bytes[1] as int % 16 * 4 + bytes[2] as int / 64),
            base64_symbol(bytes[2] as int % 64),
        ] + base64_text(bytes.skip(3))
    }
}

/// The bytes whose base64 form is `text`, where there are such.
pub open spec fn base64_bytes(text: Seq<char>) -> Option<Seq<u8>> {
    if exists|b: Seq<u8>| base64_text(b) == text {
        Some(choose|b: Seq<u8>| base64_text(b) == text)
    } else {
        None
    }
}

proof fn lemma_symbols_differ(v: int, w: int)
    requires
        0 <= v < 64,
        0 <= w < 64,
    ensures
        base64_symbol(v) != '=',
        base64_symbol(v) == base64_symbol(w) ==> v == w,
{
}

/// Three bytes are told by the four six-bit values that they are cut into.
proof fn lemma_sextets_give_bytes(a0: int, a1: int, a2: int, b0: int, b1: int, b2: int)
    requires
        0 <= a0 < 256 && 0 <= a1 < 256 && 0 <= a2 < 256,
        0 <= b0 < 256 && 0 <= b1 < 256 && 0 <= b2 < 256,
        a0 / 4 == b0 / 4,
        a0 % 4 * 16 + a1 / 16 == b0 % 4 * 16 + b1 / 16,
        a1 % 16 * 4 + a2 / 64 == b1 % 16 * 4 + b2 / 64,
        a2 % 64 == b2 % 64,
    ensures
        a0 == b0 && a1 == b1 && a2 == b2,
{
}

/// Different bytes have different base64 forms.
pub proof fn law_base64_injective(a: Seq<u8>, b: Seq<u8>)
    requires
        base64_text(a) == base64_text(b),
    ensures
        a == b,
    decreases a.len(),
{
    let s = base64_text(a);
    let t = base64_text(b);
    if a.len() == 0 || b.len() == 0 {
        assert(a.len() == 0 && b.len() == 0) by {
            assert(a.len() > 0 ==> s.len() >= 4);
            assert(b.len() > 0 ==> t.len() >= 4);
        }
        assert(a =~= b);
    } else {
        let a1 = if a.len() > 1 { a[1] as int } else { 0 };
        let b1 = if b.len() > 1 { b[1] as int } else { 0 };
        let a2 = if a.len() > 2 { a[2] as int } else { 0 };
        let b2 = if b.len() > 2 { b[2] as int } else { 0 };
        lemma_symbols_differ(a[0] as int / 4, b[0] as int / 4);
        lemma_symbols_differ(a[0] as int % 4 * 16 + a1 / 16, b[0] as int % 4 * 16 + b1 / 16);
        lemma_symbols_differ(a1 % 16 * 4 + a2 / 64, b1 % 16 * 4 + b2 / 64);
        lemma_symbols_differ(b1 % 16 * 4 + b2 / 64, a1 % 16 * 4 + a2 / 64);
        lemma_symbols_differ(a2 % 64, b2 % 64);
        lemma_symbols_differ(b2 % 64, a2 % 64);
        assert(s[0] == t[0] && s[1] == t[1] && s[2] == t[2] && s[3] == t[3]);
        assert((s[2] == '=') == (a.len() == 1));
        assert((t[2] == '=') == (b.len() == 1));
        assert((s[3] == '=') == (a.len() < 3));
        assert((t[3] == '=') == (b.len() < 3));
        assert(s[0] == base64_symbol(a[0] as int / 4) && t[0] == base64_symbol(b[0] as int / 4));
        assert(s[1] == base64_symbol(a[0] as int % 4 * 16 + a1 / 16));
        assert(t[1] == base64_symbol(b[0] as int % 4 * 16 + b1 / 16));
        assert(a.len() > 1 ==> s[2] == base64_symbol(a1 % 16 * 4 + a2 / 64));
        assert(b.len() > 1 ==> t[2] == base64_symbol(b1 % 16 * 4 + b2 / 64));
        assert(a.len() > 2 ==> s[3] == base64_symbol(a2 % 64));
        assert(b.len() > 2 ==> t[3] == base64_symbol(b2 % 64));
        lemma_sextets_give_bytes(a[0] as int, a1, a2, b[0] as int, b1, b2);
        if a.len() >= 3 {
            assert(s.skip(4) =~= base64_text(a.skip(3)));
            assert(t.skip(4) =~= base64_text(b.skip(3)));
            law_base64_injective(a.skip(3), b.skip(3));
            assert(a =~= seq![a[0], a[1], a[2]] + a.skip(3));
            assert(b =~= seq![b[0], b[1], b[2]] + b.skip(3));
        } else {
            assert(a =~= b);
        }
    }
}

/// What is encoded is decoded again: the base64 form of `bytes` stands for `bytes`.
pub proof fn law_base64_reads_back(bytes: Seq<u8>)
    ensures
        base64_bytes(base64_text(bytes)) == Some(bytes),
{
    let text = base64_text(bytes);
    let found = choose|b: Seq<u8>| base64_text(b) == text;
    assert(base64_text(bytes) == text);
    law_base64_injective(found, bytes);
}

/// The error of the base64 decoder.
#[verifier::external_type_specification]
#[verifier::external_body]
pub struct ExDecodeError(base64::DecodeError);

/// `Engine::encode` of `base64::engine::general_purpose::STANDARD`: the base64 form
/// of `bytes` in the standard alphabet, padded with `=`.
#[verifier::external_body]
pub(crate) fn b64_encode(bytes: &[u8]) -> (r: String)
    ensures
        r@ == base64_text(bytes@),
{
    base64::engine::general_purpose::STANDARD.encode(bytes)
}

/// `Engine::decode` of `base64::engine::general_purpose::STANDARD`: the bytes whose
/// base64 form is `s`, padding included; an error where `s` is the form of none.
#[verifier::external_body]
fn b64_decode(s: &str) -> (r: Result<Vec<u8>, base64::DecodeError>)
    ensures
        match r {
            Ok(bytes) => base64_text(bytes@) == s@,
            Err(_) => forall|b: Seq<u8>| base64_text(b) != s@,
        },
{
    base64::engine::general_purpose::STANDARD.decode(s)
}

/// The content of bytes that may be missing.
pub open spec fn opt_bytes(o: Option<Vec<u8>>) -> Option<Seq<u8>> {
    match o {
        Some(b) => Some(b@),
        None => None,
    }
}

/// The base64 text in a `bytes` field: what follows the first comma where that comma
/// ends the head of a `data:` URI, else the whole field.
pub open spec fn base64_payload(field: Seq<char>) -> Seq<char> {
    if field.contains(',') && begins(field.take(field.index_of_first(',')->0), "data:"@) {
        field.skip(field.index_of_first(',')->0 + 1)
    } else {
        field
    }
}

/// The bytes in a `bytes` field, plain base64 or a `data:` URI; none where they
/// cannot be decoded.
pub fn decode_payload(field: &str) -> (r: Option<Vec<u8>>)
    ensures
        opt_bytes(r) == base64_bytes(base64_payload(field@)),
{
    let chars: Vec<char> = chars_of(field);
    let payload: &str = match find_char(&chars, ',') {
        Some(i) => {
            let head: &str = field.substring_char(0, i);
            proof {
                field@.index_of_first_ensures(',');
                assert(field@.contains(field@[i as int]));
                assert(field@.index_of_first(',') == Some(i as int));
                assert(head@ =~= field@.take(i as int));
            }
            if starts_with(head, "data:") {
                let rest: &str = field.substring_char(i + 1, chars.len());
                assert(rest@ =~= field@.skip(i + 1));
                rest
            } else {
                field
            }
        },
        None => {
            assert(!field@.contains(','));
            field
        },
    };
    match b64_decode(payload) {
        Ok(bytes) => {
            proof {
                law_base64_reads_back(bytes@);
            }
            Some(bytes)
        },
        Err(_) => None,
    }
}

/// Whether re-encoding `data` as a JPEG image may come to `outcome`: the bytes of the
/// image, or none where `data` is no image that can be read.
///
/// It tells outcomes that can come from those that cannot, and does not say that only
/// one can: colours may be rounded in another way on another machine.
pub uninterp spec fn jpeg_outcome(data: Seq<u8>, outcome: Option<Seq<u8>>) -> bool;

/// Whether `b` is framed as a JPEG image: it begins with the start marker and ends
/// with the end marker.
pub open spec fn jpeg_framed(b: Seq<u8>) -> bool {
    &&& b.len() >= 4
    &&& b[0] == 0xff
    &&& b[1] == 0xd8
    &&& b[b.len() - 2] == 0xff
    &&& b[b.len() - 1] == 0xd9
}

/// The error of the image decoders and encoders.
#[verifier::external_type_specification]
#[verifier::external_body]
pub struct ExImageError(image::ImageError);

/// `image::load_from_memory`, `DynamicImage::to_rgb8` and `DynamicImage::write_to` with
/// `ImageFormat::Jpeg`, one after the other: `data` in whatever format it is, as a JPEG
/// image without transparency, or the error of the first that fails. The encoder writes
/// the start marker first and the end marker last. Which colours the image has is not
/// stated.
#[verifier::external_body]
pub(crate) fn reencode_image_to_jpeg(data: &[u8]) -> (r: Result<Vec<u8>, image::ImageError>)
    ensures
        match r {
            Ok(jpeg) => jpeg_framed(jpeg@) && jpeg_outcome(data@, Some(jpeg@)),
            Err(_) => jpeg_outcome(data@, None),
        },
{
    let rgb = image::load_from_memory(data)?.to_rgb8();
    let mut out = Vec::new();
    let dyn_img = image::DynamicImage::ImageRgb8(rgb);
    dyn_img.write_to(&mut std::io::Cursor::new(&mut out), image::ImageFormat::Jpeg)?;
    Ok(out)
}

/// The most frames that are taken from one video.
pub const MAX_VIDEO_FRAMES: usize = 8;

/// The decimal numeral of `n` with zeros in front, three characters at least.
pub open spec fn three_digits(n: nat) -> Seq<char> {
    if n < 10 {
        "00"@ + decimal_text(n)
    } else if n < 100 {
        "0"@ + decimal_text(n)
    } else {
        decimal_text(n)
    }
}

/// The name of the file that holds frame number `i` of a video.
pub open spec fn frame_file(i: nat) -> Seq<char> {
    "frame_"@ + three_digits(i) + ".jpg"@
}

/// The name of the file that holds frame number `i` of a video.
pub fn frame_file_name(i: usize) -> (r: String)
    ensures
        r@ == frame_file(i as nat),
{
    let mut name: String = "frame_".to_owned();
    if i < 10 {
        name.append("00");
    } else if i < 100 {
        name.append("0");
    }
    name.append(decimal(i as u64).as_str());
    name.append(".jpg");
    assert(name@ =~= frame_file(i as nat));
    name
}

/// The names of the files that hold frames 1 to `max_frames` of a video, in order.
pub fn frame_files(max_frames: usize) -> (r: Vec<String>)
    ensures
        texts(r@) == Seq::new(max_frames as nat, |i: int| frame_file((i + 1) as nat)),
{
    let mut names: Vec<String> = Vec::new();
    for i in 0..max_frames
        invariant
            names.len() == i,
            forall|j: int| 0 <= j < i ==> (#[trigger] names[j])@ == frame_file((j + 1) as nat),
    {
        names.push(frame_file_name(i + 1));
    }
    assert(texts(names@) =~= Seq::new(max_frames as nat, |i: int| frame_file((i + 1) as nat)));
    names
}

/// The filter that picks one frame each second, at most 1024 wide.
pub open spec fn frame_filter(max_frames: nat) -> Seq<char> {
    "fps=1,scale=iw*sar:ih,scale='min(1024,iw)':-2,select='lte(n\\,"@ + decimal_text(max_frames)
        + ")'"@
}

/// The command line, after the program's name, that has `ffmpeg` take up to
/// `max_frames` frames out of a video.
pub open spec fn ffmpeg_command(
    video: Seq<char>,
    pattern: Seq<char>,
    max_frames: nat,
) -> Seq<Seq<char>> {
    seq![
        "-v"@,
        "error"@,
        "-i"@,
        video,
        "-vf"@,
        frame_filter(max_frames),
        "-frames:v"@,
        decimal_text(max_frames),
        "-q:v"@,
        "5"@,
        pattern,
    ]
}

/// The command line, after the program's name, that has `ffmpeg` take up to
/// `max_frames` frames out of a video.
pub fn ffmpeg_arguments(video: &str, pattern: &str, max_frames: usize) -> (r: Vec<String>)
    ensures
        texts(r@) == ffmpeg_command(video@, pattern@, max_frames as nat),
{
    let count: String = decimal(max_frames as u64);
    let mut filter: String =
        "fps=1,scale=iw*sar:ih,scale='min(1024,iw)':-2,select='lte(n\\,".to_owned();
    filter.append(count.as_str());
    filter.append(")'");
    let mut r: Vec<String> = Vec::new();
    r.push("-v".to_owned());
    r.push("error".to_owned());
    r.push("-i".to_owned());
    r.push(video.to_owned());
    r.push("-vf".to_owned());
    r.push(filter);
    r.push("-frames:v".to_owned());
    r.push(count);
    r.push("-q:v".to_owned());
    r.push("5".to_owned());
    r.push(pattern.to_owned());
    assert(texts(r@) =~= ffmpeg_command(video@, pattern@, max_frames as nat));
    r
}

/// What became of one of the files that frames are written to.
#[derive(Debug)]
pub enum FrameFile {
    /// There is no such file.
    Missing,
    /// It is there and cannot be read.
    Unreadable,
    /// It holds these bytes.
    Frame(Vec<u8>),
}

/// The frames in the first `n` files: all that can be read, up to the first that is
/// missing.
pub open spec fn frames_read(files: Seq<FrameFile>, n: nat) -> Seq<Seq<u8>>
    decreases n,
{
    if n == 0 || n > files.len() {
        Seq::empty()
    } else {
        let before = frames_read(files, (n - 1) as nat);
        if exists|i: int| 0 <= i < n && files[i] is Missing {
            before
        } else {
            match files[n - 1] {
                FrameFile::Frame(bytes) => before.push(bytes@),
                _ => before,
            }
        }
    }
}

/// The content of each list of bytes.
pub open spec fn byte_lists(list: Seq<Vec<u8>>) -> Seq<Seq<u8>> {
    Seq::new(list.len(), |i: int| list[i]@)
}

/// There are no more frames than files.
pub proof fn law_frames_are_bounded(files: Seq<FrameFile>, n: nat)
    ensures
        frames_read(files, n).len() <= n,
    decreases n,
{
    if 0 < n <= files.len() {
        law_frames_are_bounded(files, (n - 1) as nat);
    }
}

/// No file behind a missing one adds a frame.
proof fn lemma_frames_end_at_gap(files: Seq<FrameFile>, gap: nat, n: nat)
    requires
        gap < n <= files.len(),
        files[gap as int] is Missing,
    ensures
        frames_read(files, n) == frames_read(files, gap),
    decreases n,
{
    assert(files[gap as int] is Missing);
    if gap + 1 < n {
        lemma_frames_end_at_gap(files, gap, (n - 1) as nat);
    }
}

/// The frames in `files`, in order: all that can be read, up to the first file that is
/// missing.
pub fn collect_frames(files: Vec<FrameFile>) -> (r: Vec<Vec<u8>>)
    ensures
        byte_lists(r@) == frames_read(files@, files@.len()),
{
    let ghost all = files@;
    let mut frames: Vec<Vec<u8>> = Vec::new();
    assert(byte_lists(frames@) =~= Seq::empty());
    for file in it: files
        invariant
            it.seq() == all,
            byte_lists(frames@) == frames_read(all, it.index() as nat),
            forall|i: int| 0 <= i < it.index() ==> !(all[i] is Missing),
    {
        let ghost n = it.index();
        assert(file == all[n]);
        match file {
            FrameFile::Missing => {
                proof {
                    lemma_frames_end_at_gap(all, n as nat, all.len());
                }
                return frames;
            },
            FrameFile::Unreadable => {},
            FrameFile::Frame(bytes) => {
                let ghost before = frames@;
                frames.push(bytes);
                assert(byte_lists(frames@) =~= byte_lists(before).push(bytes@));
            },
        }
    }
    frames
}

/// The frames of a video: those in `files` where the program that takes them succeeded,
/// and none where it failed or could not be started.
pub fn frames_of_run(succeeded: bool, files: Vec<FrameFile>) -> (r: Vec<Vec<u8>>)
    ensures
        byte_lists(r@) == (if succeeded {
            frames_read(files@, files@.len())
        } else {
            Seq::empty()
        }),
        r@.len() <= files@.len(),
{
    proof {
        law_frames_are_bounded(files@, files@.len());
    }
    if succeeded {
        let frames: Vec<Vec<u8>> = collect_frames(files);
        assert(byte_lists(frames@).len() == frames@.len());
        frames
    } else {
        let none: Vec<Vec<u8>> = Vec::new();
        assert(byte_lists(none@) =~= Seq::empty());
        none
    }
}

/// The head of a `data:` URI is taken off, whatever it says; a field without a comma, or
/// with something else in front of its first comma, is taken as it is.
pub proof fn law_the_head_of_a_uri_is_taken_off(head: Seq<char>, payload: Seq<char>)
    requires
        !head.contains(','),
    ensures
        base64_payload("data:"@ + head + seq![','] + payload) == payload,
        base64_payload(head) == head,
        !begins(head, "data:"@) ==> base64_payload(head + seq![','] + payload) == head + seq![',']
            + payload,
{
    reveal_strlit("data:");
    let d = "data:"@ + head;
    assert(!d.contains(',')) by {
        assert forall|i: int| 0 <= i < d.len() implies #[trigger] d[i] != ',' by {
            if i >= 5 {
                assert(d[i] == head[i - 5]);
                assert(head.contains(head[i - 5]));
            }
        }
    }
    lemma_first_comma(d, payload);
    lemma_first_comma(head, payload);
    let uri = d + seq![','] + payload;
    assert(uri.take(d.len() as int) =~= d);
    assert(d.subrange(0, 5) =~= "data:"@);
    assert(uri.skip((d.len() + 1) as int) =~= payload);
    assert((head + seq![','] + payload).take(head.len() as int) =~= head);
}

proof fn lemma_first_comma(head: Seq<char>, payload: Seq<char>)
    requires
        !head.contains(','),
    ensures
        (head + seq![','] + payload).contains(','),
        (head + seq![','] + payload).index_of_first(',') == Some(head.len() as int),
{
    let s = head + seq![','] + payload;
    assert(s[head.len() as int] == ',');
    assert(s.contains(s[head.len() as int]));
    s.index_of_first_ensures(',');
    let i = s.index_of_first(',')->0;
    if i < head.len() {
        assert(head[i] == ',');
        assert(head.contains(head[i]));
    }
}

/// The name of a frame's file holds the number of the frame, with three digits at least.
pub proof fn law_frame_files_are_numbered(i: nat)
    ensures
        exists|digits: Seq<char>|
            frame_file(i) == #[trigger] ("frame_"@ + digits + ".jpg"@) && all_digits(digits)
                && digits_value(digits) == i && digits.len() >= 3 && (i < 1000 ==> digits.len()
                == 3),
{
    reveal_strlit("0");
    reveal_strlit("00");
    let d = decimal_text(i);
    law_numerals_read_back(i, i);
    assert(digits_value(d) == i);
    lemma_numeral_length(i);
    if i < 10 {
        let z = seq!['0'];
        assert("00"@ =~= seq!['0', '0']);
        assert(z + d =~= seq!['0'] + d);
        lemma_zero_in_front(d);
        lemma_zero_in_front(z + d);
        assert("00"@ + d =~= seq!['0'] + (seq!['0'] + d));
    } else if i < 100 {
        assert("0"@ =~= seq!['0']);
        lemma_zero_in_front(d);
    }
    assert(frame_file(i) == "frame_"@ + three_digits(i) + ".jpg"@);
}

proof fn lemma_numeral_length(n: nat)
    ensures
        n < 10 ==> decimal_text(n).len() == 1,
        10 <= n < 100 ==> decimal_text(n).len() == 2,
        100 <= n < 1000 ==> decimal_text(n).len() == 3,
        n >= 100 ==> decimal_text(n).len() >= 3,
{
    reveal_with_fuel(decimal_text, 4);
    if n >= 100 {
        law_numerals_read_back(n / 100, n);
        assert(n / 10 / 10 == n / 100);
    }
}

proof fn lemma_zero_in_front(d: Seq<char>)
    requires
        all_digits(d),
    ensures
        all_digits(seq!['0'] + d),
        digits_value(seq!['0'] + d) == digits_value(d),
    decreases d.len(),
{
    let s = seq!['0'] + d;
    assert forall|i: int| 0 <= i < s.len() implies '0' <= #[trigger] s[i] <= '9' by {
        if i > 0 {
            assert(s[i] == d[i - 1]);
        }
    }
    if d.len() == 0 {
        assert(s.drop_last() =~= Seq::empty());
        reveal_with_fuel(digits_value, 2);
    } else {
        let e = d.drop_last();
        assert forall|i: int| 0 <= i < e.len() implies '0' <= #[trigger] e[i] <= '9' by {
            assert(e[i] == d[i]);
        }
        lemma_zero_in_front(e);
        assert(s.drop_last() =~= seq!['0'] + e);
    }
}

/// The command reads the video that is given, writes to the files that are given, and stops
/// at the number of frames that is given.
pub proof fn law_the_command_is_about_the_video(
    video: Seq<char>,
    pattern: Seq<char>,
    max_frames: nat,
)
    ensures
        ffmpeg_command(video, pattern, max_frames) == seq![
            "-v"@,
            "error"@,
            "-i"@,
            video,
            "-vf"@,
            "fps=1,scale=iw*sar:ih,scale='min(1024,iw)':-2,select='lte(n\\,"@ + decimal_text(
                max_frames,
            ) + ")'"@,
            "-frames:v"@,
            decimal_text(max_frames),
            "-q:v"@,
            "5"@,
            pattern,
        ],
{
}

/// Files are read in order: one that can be read adds its frame, one that cannot adds none,
/// and behind a missing one nothing is added any more.
pub proof fn law_frames_are_read_in_order(files: Seq<FrameFile>, next: FrameFile)
    ensures
        frames_read(Seq::empty(), 0).len() == 0,
        (exists|i: int| 0 <= i < files.len() && files[i] is Missing) ==> frames_read(
            files.push(next),
            files.len() + 1,
        ) == frames_read(files, files.len()),
        !(exists|i: int| 0 <= i < files.len() && files[i] is Missing) ==> (match next {
            FrameFile::Frame(bytes) => frames_read(files.push(next), files.len() + 1)
                == frames_read(files, files.len()).push(bytes@),
            _ => frames_read(files.push(next), files.len() + 1) == frames_read(files, files.len()),
        }),
{
    let longer = files.push(next);
    lemma_frames_prefix(files, next, files.len());
    if exists|i: int| 0 <= i < files.len() && files[i] is Missing {
        let i = choose|i: int| 0 <= i < files.len() && files[i] is Missing;
        assert(longer[i] is Missing);
    } else if !(next is Missing) {
        assert forall|i: int| 0 <= i < longer.len() implies !(#[trigger] longer[i] is Missing) by {
            if i < files.len() {
                assert(longer[i] == files[i]);
            }
        }
    }
    assert(longer[files.len() as int] == next);
}

proof fn lemma_frames_prefix(files: Seq<FrameFile>, next: FrameFile, n: nat)
    requires
        n <= files.len(),
    ensures
        frames_read(files.push(next), n) == frames_read(files, n),
    decreases n,
{
    let longer = files.push(next);
    if n > 0 {
        lemma_frames_prefix(files, next, (n - 1) as nat);
        if exists|i: int| 0 <= i < n && files[i] is Missing {
            let i = choose|i: int| 0 <= i < n && files[i] is Missing;
            assert(longer[i] is Missing);
        }
        if exists|i: int| 0 <= i < n && longer[i] is Missing {
            let i = choose|i: int| 0 <= i < n && longer[i] is Missing;
            assert(files[i] is Missing);
        }
    }
}

/// Lists of bytes are told one by one, in order.
pub proof fn law_bytes_are_told_in_order(list: Seq<Vec<u8>>, i: int)
    requires
        0 <= i < list.len(),
    ensures
        byte_lists(list).len() == list.len(),
        byte_lists(list)[i] == list[i]@,
        opt_bytes(Some(list[i])) == Some(list[i]@),
        opt_bytes(None) is None,
{
}

/// Bytes come only out of their own base64 form; any other text gives none.
pub proof fn law_only_base64_is_decoded(text: Seq<char>, bytes: Seq<u8>)
    ensures
        base64_bytes(text) == Some(bytes) <==> base64_text(bytes) == text,
{
    law_base64_reads_back(bytes);
}

} // verus!
