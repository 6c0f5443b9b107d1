//! What the model is shown: the question, the texts and the images of a message, as
//! the content of one chat message.

use vstd::prelude::*;
use vstd::string::*;

use crate::agent::media::{
    b64_encode, base64_bytes, base64_payload, base64_text, law_base64_reads_back,
};
use crate::agent::parts::{named_bytes, named_texts, FwaParts, NamedBytes, NamedText, PartsView};
use crate::json::{array_json, views, Json, JsonView, Members};
use crate::text::{begins, decimal, decimal_text, ends, law_pieces_are_found};

verus! {

/// A text, as a piece of the content.
pub open spec fn text_piece(text: Seq<char>) -> JsonView {
    JsonView::Object(map!["type"@ => JsonView::Str("text"@), "text"@ => JsonView::Str(text)])
}

/// A JPEG image as a URI that holds it.
pub open spec fn data_uri(jpeg: Seq<u8>) -> Seq<char> {
    "data:image/jpeg;base64,"@ + base64_text(jpeg)
}

/// A JPEG image, as a piece of the content.
pub open spec fn image_piece(jpeg: Seq<u8>, detail: Seq<char>) -> JsonView {
    JsonView::Object(
        map![
            "type"@ => JsonView::Str("image_url"@),
            "image_url"@ => JsonView::Object(
                map![
                    "url"@ => JsonView::Str(data_uri(jpeg)),
                    "detail"@ => JsonView::Str(detail),
                ],
            ),
        ],
    )
}

/// The question, where there is one.
pub open spec fn question_pieces(question: Seq<char>) -> Seq<JsonView> {
    if question.len() == 0 {
        Seq::empty()
    } else {
        seq![text_piece(question)]
    }
}

/// Texts from files, each under the name of its file; `heading` stands between the two.
pub open spec fn text_pieces(list: Seq<NamedText>, heading: Seq<char>) -> Seq<JsonView> {
    Seq::new(
        list.len(),
        |i: int| text_piece("Content of "@ + list[i].0 + heading + list[i].1),
    )
}

/// The first `n` images, each behind its caption.
pub open spec fn image_pieces(
    list: Seq<NamedBytes>,
    caption: Seq<char>,
    detail: Seq<char>,
    n: nat,
) -> Seq<JsonView>
    decreases n,
{
    if n == 0 || n > list.len() {
        Seq::empty()
    } else {
        image_pieces(list, caption, detail, (n - 1) as nat) + seq![
            text_piece(caption + list[n - 1].0),
            image_piece(list[n - 1].1, detail),
        ]
    }
}

/// The line that says how many frames follow.
pub open spec fn frames_line(count: nat) -> Seq<char> {
    "Video: "@ + decimal_text(count) + " frames extracted at 1-second intervals."@
}

/// The frames of the videos, behind a line that counts them.
pub open spec fn video_pieces(frames: Seq<NamedBytes>) -> Seq<JsonView> {
    if frames.len() == 0 {
        Seq::empty()
    } else {
        seq![text_piece(frames_line(frames.len()))] + image_pieces(
            frames,
            "Frame: "@,
            "low"@,
            frames.len(),
        )
    }
}

/// All that a message holds, in the order in which the model is shown it.
pub open spec fn all_pieces(parts: PartsView) -> Seq<JsonView> {
    question_pieces(parts.question) + text_pieces(parts.bbox_texts, ":\n\n"@) + text_pieces(
        parts.text_files,
        ":\n\n"@,
    ) + text_pieces(parts.pdf_texts, " (extracted text):\n\n"@) + image_pieces(
        parts.images,
        "Image: "@,
        "high"@,
        parts.images.len(),
    ) + video_pieces(parts.video_frames)
}

/// What the model is shown: all that the message holds, or a line that says that there
/// is nothing.
pub open spec fn user_content(parts: PartsView) -> Seq<JsonView> {
    if all_pieces(parts).len() == 0 {
        seq![text_piece("(empty task)"@)]
    } else {
        all_pieces(parts)
    }
}

fn text_item(text: &str) -> (r: Json)
    ensures
        r@ == text_piece(text@),
{
    Members::new().with_text("type", "text").with_text("text", text).object()
}

fn image_item(jpeg: &[u8], detail: &str) -> (r: Json)
    ensures
        r@ == image_piece(jpeg@, detail@),
{
    let mut uri: String = "data:image/jpeg;base64,".to_owned();
    uri.append(b64_encode(jpeg).as_str());
    let image: Json = Members::new().with_text("url", uri.as_str()).with_text(
        "detail",
        detail,
    ).object();
    Members::new().with_text("type", "image_url").with("image_url", image).object()
}

fn push_texts(content: &mut Vec<Json>, list: &Vec<(String, String)>, heading: &str)
    ensures
        views(final(content)@) == views(old(content)@) + text_pieces(
            named_texts(list@),
            heading@,
        ),
{
    let ghost start = views(content@);
    let ghost pieces = text_pieces(named_texts(list@), heading@);
    assert(start + pieces.take(0) =~= start);
    for i in 0..list.len()
        invariant
            pieces == text_pieces(named_texts(list@), heading@),
            views(content@) == start + pieces.take(i as int),
    {
        let ghost before = views(content@);
        let mut text: String = "Content of ".to_owned();
        text.append(list[i].0.as_str());
        text.append(heading);
        text.append(list[i].1.as_str());
        content.push(text_item(text.as_str()));
        assert(views(content@) =~= before.push(pieces[i as int]));
        assert(pieces.take(i + 1) =~= pieces.take(i as int).push(pieces[i as int]));
    }
    assert(pieces.take(list@.len() as int) =~= pieces);
}

fn push_images(content: &mut Vec<Json>, list: &Vec<(String, Vec<u8>)>, caption: &str, detail: &str)
    ensures
        views(final(content)@) == views(old(content)@) + image_pieces(
            named_bytes(list@),
            caption@,
            detail@,
            list@.len(),
        ),
{
    let ghost start = views(content@);
    let ghost named = named_bytes(list@);
    assert(start + image_pieces(named, caption@, detail@, 0) =~= start);
    for i in 0..list.len()
        invariant
            named == named_bytes(list@),
            views(content@) == start + image_pieces(named, caption@, detail@, i as nat),
    {
        let ghost before = views(content@);
        let mut text: String = caption.to_owned();
        text.append(list[i].0.as_str());
        content.push(text_item(text.as_str()));
        content.push(image_item(list[i].1.as_slice(), detail));
        assert(views(content@) =~= before + seq![
            text_piece(caption@ + named[i as int].0),
            image_piece(named[i as int].1, detail@),
        ]);
        assert(views(content@) =~= start + image_pieces(named, caption@, detail@, (i + 1) as nat));
    }
}

/// What the model is shown, as the content of a chat message.
pub fn build_user_content(parts: &FwaParts) -> (r: Json)
    ensures
        r@ == JsonView::Array(user_content(parts@)),
{
    let mut content: Vec<Json> = Vec::new();
    assert(views(content@) =~= Seq::empty());
    if !parts.question.as_str().is_empty() {
        content.push(text_item(parts.question.as_str()));
    }
    assert(views(content@) =~= question_pieces(parts@.question));
    push_texts(&mut content, &parts.bbox_texts, ":\n\n");
    push_texts(&mut content, &parts.text_files, ":\n\n");
    push_texts(&mut content, &parts.pdf_texts, " (extracted text):\n\n");
    push_images(&mut content, &parts.images, "Image: ", "high");
    let ghost before = views(content@);
    if parts.video_frames.len() > 0 {
        let mut line: String = "Video: ".to_owned();
        line.append(decimal(parts.video_frames.len() as u64).as_str());
        line.append(" frames extracted at 1-second intervals.");
        content.push(text_item(line.as_str()));
        assert(views(content@) =~= before.push(text_piece(line@)));
        push_images(&mut content, &parts.video_frames, "Frame: ", "low");
    }
    assert(views(content@) =~= before + video_pieces(parts@.video_frames));
    assert(views(content@) == all_pieces(parts@));
    if content.len() == 0 {
        content.push(text_item("(empty task)"));
        assert(views(content@) =~= seq![text_piece("(empty task)"@)]);
    }
    array_json(content)
}

/// The model is always shown something.
pub proof fn law_content_never_empty(parts: PartsView)
    ensures
        user_content(parts).len() > 0,
{
}

/// The content leads with the question wherever there is one.
pub proof fn law_content_leads_with_question(parts: PartsView)
    requires
        parts.question.len() > 0,
    ensures
        user_content(parts)[0] == text_piece(parts.question),
{
    assert(all_pieces(parts)[0] == text_piece(parts.question));
}

/// What a reader decodes out of the URI of an image is the image, byte for byte.
pub proof fn law_data_uri_reads_back(jpeg: Seq<u8>)
    ensures
        base64_bytes(base64_payload(data_uri(jpeg))) == Some(jpeg),
{
    let uri = data_uri(jpeg);
    reveal_strlit("data:image/jpeg;base64,");
    reveal_strlit("data:");
    assert(uri[22] == ',');
    assert(uri.contains(uri[22]));
    uri.index_of_first_ensures(',');
    assert(uri.index_of_first(',') == Some(22int));
    assert(uri.take(22).subrange(0, 5) =~= "data:"@);
    assert(uri.skip(23) =~= base64_text(jpeg));
    law_base64_reads_back(jpeg);
}

proof fn lemma_piece_members_differ()
    ensures
        "type"@ != "text"@,
        "type"@ != "image_url"@,
        "url"@ != "detail"@,
{
    reveal_strlit("type");
    reveal_strlit("text");
    reveal_strlit("image_url");
    reveal_strlit("url");
    reveal_strlit("detail");
    assert("type"@[1] == 'y' && "text"@[1] == 'e');
    assert("image_url"@.len() == 9 && "url"@.len() == 3 && "detail"@.len() == 6);
}

/// A piece of text says that it is one and holds the text; a piece that is an image says so
/// and holds the image and how closely it is to be looked at.
pub proof fn law_pieces_hold_what_they_show(text: Seq<char>, jpeg: Seq<u8>, detail: Seq<char>)
    ensures
        text_piece(text).field("type"@) == Some(JsonView::Str("text"@)),
        text_piece(text).field("text"@) == Some(JsonView::Str(text)),
        image_piece(jpeg, detail).field("type"@) == Some(JsonView::Str("image_url"@)),
        image_piece(jpeg, detail).nested("image_url"@, "detail"@) == Some(JsonView::Str(detail)),
        image_piece(jpeg, detail).nested("image_url"@, "url"@) == Some(
            JsonView::Str("data:image/jpeg;base64,"@ + base64_text(jpeg)),
        ),
{
    lemma_piece_members_differ();
}

/// The text of each file is shown under its own name: the piece at its place begins with
/// the name and ends with the text, and nothing but the heading stands between.
pub proof fn law_texts_stand_under_their_names(list: Seq<NamedText>, heading: Seq<char>, i: int)
    requires
        0 <= i < list.len(),
    ensures
        text_pieces(list, heading).len() == list.len(),
        text_pieces(list, heading)[i].str_field("text"@) == Some(
            "Content of "@ + list[i].0 + heading + list[i].1,
        ),
        begins(
            text_pieces(list, heading)[i].str_field("text"@)->0,
            "Content of "@ + list[i].0 + heading,
        ),
        ends(text_pieces(list, heading)[i].str_field("text"@)->0, list[i].1),
{
    law_pieces_hold_what_they_show("Content of "@ + list[i].0 + heading + list[i].1, seq![], seq![]);
    law_pieces_are_found("Content of "@ + list[i].0 + heading, list[i].1, seq![]);
}

/// Files that differ in the text of any one of them are shown in another way.
pub proof fn law_texts_are_told_apart(
    a: Seq<NamedText>,
    b: Seq<NamedText>,
    heading: Seq<char>,
    i: int,
)
    requires
        a.len() == b.len(),
        0 <= i < a.len(),
        a[i].0 == b[i].0,
        a[i].1 != b[i].1,
    ensures
        text_pieces(a, heading)[i] != text_pieces(b, heading)[i],
        text_pieces(a, heading) != text_pieces(b, heading),
{
    law_texts_stand_under_their_names(a, heading, i);
    law_texts_stand_under_their_names(b, heading, i);
    let head = "Content of "@ + a[i].0 + heading;
    if head + a[i].1 == head + b[i].1 {
        assert((head + a[i].1).skip(head.len() as int) =~= a[i].1);
        assert((head + b[i].1).skip(head.len() as int) =~= b[i].1);
    }
}

/// The pieces of two runs of files are those of the first and then those of the second.
pub proof fn law_texts_are_shown_in_runs(a: Seq<NamedText>, b: Seq<NamedText>, heading: Seq<char>)
    ensures
        text_pieces(a + b, heading) == text_pieces(a, heading) + text_pieces(b, heading),
{
    assert(text_pieces(a + b, heading) =~= text_pieces(a, heading) + text_pieces(b, heading));
}

/// Each image is shown behind its own caption: two pieces for each, in order.
pub proof fn law_images_stand_behind_their_captions(
    list: Seq<NamedBytes>,
    caption: Seq<char>,
    detail: Seq<char>,
    n: nat,
    i: int,
)
    requires
        n <= list.len(),
        0 <= i < n,
    ensures
        image_pieces(list, caption, detail, n).len() == 2 * n,
        image_pieces(list, caption, detail, n)[2 * i].str_field("text"@) == Some(
            caption + list[i].0,
        ),
        image_pieces(list, caption, detail, n)[2 * i + 1].nested("image_url"@, "url"@) == Some(
            JsonView::Str("data:image/jpeg;base64,"@ + base64_text(list[i].1)),
        ),
        image_pieces(list, caption, detail, n)[2 * i + 1].nested("image_url"@, "detail"@) == Some(
            JsonView::Str(detail),
        ),
    decreases n,
{
    lemma_image_piece_count(list, caption, detail, (n - 1) as nat);
    law_pieces_hold_what_they_show(caption + list[n - 1].0, list[n - 1].1, detail);
    if i < n - 1 {
        law_images_stand_behind_their_captions(list, caption, detail, (n - 1) as nat, i);
    }
}

proof fn lemma_image_piece_count(
    list: Seq<NamedBytes>,
    caption: Seq<char>,
    detail: Seq<char>,
    n: nat,
)
    requires
        n <= list.len(),
    ensures
        image_pieces(list, caption, detail, n).len() == 2 * n,
    decreases n,
{
    if n > 0 {
        lemma_image_piece_count(list, caption, detail, (n - 1) as nat);
    }
}

/// Frames are counted in front and shown like images, but to be looked at less closely; no
/// frames are not mentioned at all.
pub proof fn law_frames_are_counted(frames: Seq<NamedBytes>, i: int)
    ensures
        frames.len() == 0 ==> video_pieces(frames).len() == 0,
        frames.len() > 0 ==> video_pieces(frames).len() == 1 + 2 * frames.len(),
        frames.len() > 0 ==> video_pieces(frames)[0].str_field("text"@) == Some(
            "Video: "@ + decimal_text(frames.len()) + " frames extracted at 1-second intervals."@,
        ),
        0 <= i < frames.len() ==> video_pieces(frames)[1 + 2 * i].str_field("text"@) == Some(
            "Frame: "@ + frames[i].0,
        ),
        0 <= i < frames.len() ==> video_pieces(frames)[2 + 2 * i].nested("image_url"@, "url"@)
            == Some(JsonView::Str("data:image/jpeg;base64,"@ + base64_text(frames[i].1))),
        0 <= i < frames.len() ==> video_pieces(frames)[2 + 2 * i].nested("image_url"@, "detail"@)
            == Some(JsonView::Str("low"@)),
{
    lemma_image_piece_count(frames, "Frame: "@, "low"@, frames.len());
    law_pieces_hold_what_they_show(frames_line(frames.len()), seq![], seq![]);
    if 0 <= i < frames.len() {
        law_images_stand_behind_their_captions(frames, "Frame: "@, "low"@, frames.len(), i);
        let shown = image_pieces(frames, "Frame: "@, "low"@, frames.len());
        assert(video_pieces(frames)[1 + 2 * i] == shown[2 * i]);
        assert(video_pieces(frames)[2 + 2 * i] == shown[2 * i + 1]);
    }
}

/// Everything in a message is shown, and in this order: the question, the bounding boxes,
/// the text files, the documents, the images, the frames. Nothing is shown beside it, and
/// only where there is nothing does a stub stand in.
pub proof fn law_everything_is_shown_in_order(parts: PartsView, i: int)
    ensures
        ({
            let q: int = if parts.question.len() > 0 {
                1
            } else {
                0
            };
            let b = q + parts.bbox_texts.len();
            let t = b + parts.text_files.len();
            let d = t + parts.pdf_texts.len();
            let m = d + 2 * parts.images.len();
            let shown = user_content(parts);
            let count = m + if parts.video_frames.len() > 0 {
                1 + 2 * parts.video_frames.len()
            } else {
                0
            };
            &&& count > 0 ==> shown.len() == count
            &&& count == 0 ==> shown == seq![text_piece("(empty task)"@)]
            &&& q == 1 ==> shown[0].str_field("text"@) == Some(parts.question)
            &&& 0 <= i < parts.bbox_texts.len() ==> shown[q + i].str_field("text"@) == Some(
                "Content of "@ + parts.bbox_texts[i].0 + ":\n\n"@ + parts.bbox_texts[i].1,
            )
            &&& 0 <= i < parts.text_files.len() ==> shown[b + i].str_field("text"@) == Some(
                "Content of "@ + parts.text_files[i].0 + ":\n\n"@ + parts.text_files[i].1,
            )
            &&& 0 <= i < parts.pdf_texts.len() ==> shown[t + i].str_field("text"@) == Some(
                "Content of "@ + parts.pdf_texts[i].0 + " (extracted text):\n\n"@
                    + parts.pdf_texts[i].1,
            )
            &&& 0 <= i < parts.images.len() ==> shown[d + 2 * i].str_field("text"@) == Some(
                "Image: "@ + parts.images[i].0,
            )
            &&& 0 <= i < parts.images.len() ==> shown[d + 2 * i + 1].nested("image_url"@, "url"@)
                == Some(
                JsonView::Str("data:image/jpeg;base64,"@ + base64_text(parts.images[i].1)),
            )
            &&& 0 <= i < parts.images.len() ==> shown[d + 2 * i + 1].nested(
                "image_url"@,
                "detail"@,
            ) == Some(JsonView::Str("high"@))
            &&& parts.video_frames.len() > 0 ==> shown[m].str_field("text"@) == Some(
                "Video: "@ + decimal_text(parts.video_frames.len())
                    + " frames extracted at 1-second intervals."@,
            )
            &&& 0 <= i < parts.video_frames.len() ==> shown[m + 1 + 2 * i].str_field("text"@)
                == Some("Frame: "@ + parts.video_frames[i].0)
            &&& 0 <= i < parts.video_frames.len() ==> shown[m + 2 + 2 * i].nested(
                "image_url"@,
                "url"@,
            ) == Some(
                JsonView::Str("data:image/jpeg;base64,"@ + base64_text(parts.video_frames[i].1)),
            )
        }),
{
    let question = question_pieces(parts.question);
    let boxes = text_pieces(parts.bbox_texts, ":\n\n"@);
    let files = text_pieces(parts.text_files, ":\n\n"@);
    let documents = text_pieces(parts.pdf_texts, " (extracted text):\n\n"@);
    let images = image_pieces(parts.images, "Image: "@, "high"@, parts.images.len());
    let frames = video_pieces(parts.video_frames);
    lemma_image_piece_count(parts.images, "Image: "@, "high"@, parts.images.len());
    law_frames_are_counted(parts.video_frames, i);
    law_pieces_hold_what_they_show(parts.question, seq![], seq![]);
    let q = question.len() as int;
    let b = q + boxes.len();
    let t = b + files.len();
    let d = t + documents.len();
    let m = d + images.len();
    let shown = all_pieces(parts);
    assert(shown =~= question + boxes + files + documents + images + frames);
    if 0 <= i < parts.bbox_texts.len() {
        law_texts_stand_under_their_names(parts.bbox_texts, ":\n\n"@, i);
        assert(shown[q + i] == boxes[i]);
    }
    if 0 <= i < parts.text_files.len() {
        law_texts_stand_under_their_names(parts.text_files, ":\n\n"@, i);
        assert(shown[b + i] == files[i]);
    }
    if 0 <= i < parts.pdf_texts.len() {
        law_texts_stand_under_their_names(parts.pdf_texts, " (extracted text):\n\n"@, i);
        assert(shown[t + i] == documents[i]);
    }
    if 0 <= i < parts.images.len() {
        law_images_stand_behind_their_captions(
            parts.images,
            "Image: "@,
            "high"@,
            parts.images.len(),
            i,
        );
        assert(shown[d + 2 * i] == images[2 * i]);
        assert(shown[d + 2 * i + 1] == images[2 * i + 1]);
    }
    if parts.video_frames.len() > 0 {
        assert(shown[m] == frames[0]);
    }
    if 0 <= i < parts.video_frames.len() {
        assert(shown[m + 1 + 2 * i] == frames[1 + 2 * i]);
        assert(shown[m + 2 + 2 * i] == frames[2 + 2 * i]);
    }
}

} // verus!
