//! The agent's reading of a message, and what the model is shown of it.

use base64::Engine;
use capability_router::agent::content::build_user_content;
use capability_router::agent::hint::{infer_task_hint, reasoning_effort, system_prompt, TaskHint};
use capability_router::agent::media::{
    collect_frames, decode_payload, ffmpeg_arguments, frame_file_name, frame_files, frames_of_run,
    FrameFile, MAX_VIDEO_FRAMES,
};
use capability_router::agent::parts::{
    classify_file, collect_parts, extract_fwa_parts, sort_files, FileClass, FilePart, FwaParts,
};
use capability_router::agent::prompts::{
    FWA_SYSTEM_PROMPT, JSON_ARRAY_ADDENDUM, JSON_REPORT_ADDENDUM, NUMERICAL_ADDENDUM,
};
use capability_router::wire::{json_from_bytes, json_to_text};
use capability_router::Json;

fn doc(text: &str) -> Json {
    json_from_bytes(text.as_bytes()).unwrap()
}

fn b64(bytes: &[u8]) -> String {
    base64::engine::general_purpose::STANDARD.encode(bytes)
}

fn file(name: &str, mime: &str, bytes: &[u8]) -> String {
    format!(
        r#"{{"kind": "file", "file": {{"name": "{name}", "mimeType": "{mime}", "bytes": "{}"}}}}"#,
        b64(bytes)
    )
}

fn message(parts: &[String]) -> Json {
    doc(&format!("{{\"parts\": [{}]}}", parts.join(",")))
}

fn png() -> Vec<u8> {
    let picture = image::RgbaImage::from_pixel(2, 3, image::Rgba([200, 10, 10, 128]));
    let mut out = Vec::new();
    image::DynamicImage::ImageRgba8(picture)
        .write_to(&mut std::io::Cursor::new(&mut out), image::ImageFormat::Png)
        .unwrap();
    out
}

fn empty() -> FwaParts {
    FwaParts {
        question: String::new(),
        images: vec![],
        pdf_texts: vec![],
        bbox_texts: vec![],
        text_files: vec![],
        video_frames: vec![],
    }
}

#[test]
fn base64_is_decoded_strictly() {
    assert_eq!(decode_payload("aGk="), Some(b"hi".to_vec()));
    assert_eq!(decode_payload(""), Some(vec![]));
    assert_eq!(decode_payload("data:text/plain;base64,aGk="), Some(b"hi".to_vec()));
    assert_eq!(decode_payload("/+8="), Some(vec![0xff, 0xef]));
    for bad in ["aGk", "aGl=", "aG k=", "aGk==", "x,aGk=", "date:,aGk=", "data:,a,GE="] {
        assert_eq!(decode_payload(bad), None, "{bad}");
    }
}

#[test]
fn files_are_classified_by_the_first_class_that_fits() {
    for (name, mime, class) in [
        ("Bounding_Box.json", "image/png", FileClass::BoundingBox),
        ("my.BBOX", "", FileClass::BoundingBox),
        ("a.pdf", "image/jpeg", FileClass::Image),
        ("A.WEBP", "", FileClass::Image),
        ("a.jpg", "text/plain", FileClass::Image),
        ("a.txt", "application/pdf", FileClass::Pdf),
        ("a.PDF", "", FileClass::Pdf),
        ("a", "video/webm", FileClass::Video),
        ("a.mp4", "text/plain", FileClass::Video),
        ("a", "text/x", FileClass::Text),
        ("a.csv", "", FileClass::Text),
        ("a.json", "", FileClass::Text),
        ("a", "IMAGE/PNG", FileClass::Unknown),
        ("a.md", "", FileClass::Unknown),
    ] {
        assert_eq!(classify_file(name, mime), class, "{name} {mime}");
    }
}

#[test]
fn a_message_is_read_in_order() {
    let m = message(&[
        r#"{"kind": "text", "text": "one"}"#.to_string(),
        r#"{"type": "text", "text": "two"}"#.to_string(),
        r#"{"kind": "text"}"#.to_string(),
        r#"{"kind": "data", "text": "no"}"#.to_string(),
        file("b.txt", "", b"B"),
        r#"{"kind": "file"}"#.to_string(),
        r#"{"kind": "file", "file": {"name": "c.txt"}}"#.to_string(),
        r#"{"kind": "file", "file": {"name": "c.txt", "bytes": "%"}}"#.to_string(),
        r#"{"kind": "file", "file": {"mime_type": "text/plain", "bytes": "Qw=="}}"#.to_string(),
        r#"{"kind": "file", "file": {"mimeType": null, "mime_type": "text/plain", "bytes": "RA=="}}"#
            .to_string(),
    ]);
    let c = collect_parts(&m);
    assert_eq!(c.question, "one\ntwo");
    let files: Vec<(&str, FileClass, &[u8])> =
        c.files.iter().map(|f| (f.name.as_str(), f.class, f.data.as_slice())).collect();
    assert_eq!(
        files,
        vec![
            ("b.txt", FileClass::Text, &b"B"[..]),
            ("attachment", FileClass::Text, &b"C"[..]),
            ("attachment", FileClass::Unknown, &b"D"[..]),
        ]
    );
    assert_eq!(collect_parts(&doc(r#"{"parts": 3}"#)).question, "");
    assert_eq!(collect_parts(&Json::Null).files.len(), 0);
}

#[test]
fn an_empty_text_leaves_no_line_in_front() {
    let m = message(&[
        r#"{"kind": "text", "text": ""}"#.to_string(),
        r#"{"kind": "text", "text": "x"}"#.to_string(),
        r#"{"kind": "text", "text": ""}"#.to_string(),
    ]);
    assert_eq!(collect_parts(&m).question, "x\n");
}

#[test]
fn extraction_sorts_the_files() {
    let m = message(&[
        r#"{"kind": "text", "text": "q"}"#.to_string(),
        file("p.pdf", "application/pdf", b"%PDF"),
        file("a.png", "image/png", &png()),
        file("broken.png", "image/png", b"nonsense"),
        file("v.mp4", "video/mp4", b"movie"),
        file("bbox.txt", "text/plain", &[b'1', 0xff]),
        file("n.txt", "text/plain", b"note"),
        file("x.bin", "", b"?"),
    ]);
    let e = extract_fwa_parts(&m);
    assert_eq!(e.parts.question, "q");
    assert_eq!(e.pdfs, vec![("p.pdf".to_string(), b"%PDF".to_vec())]);
    assert_eq!(e.videos, vec![("v.mp4".to_string(), b"movie".to_vec())]);
    assert_eq!(e.parts.bbox_texts, vec![("bbox.txt".to_string(), "1\u{fffd}".to_string())]);
    assert_eq!(e.parts.text_files, vec![("n.txt".to_string(), "note".to_string())]);
    assert_eq!(e.parts.pdf_texts.len(), 0);
    assert_eq!(e.parts.images.len(), 1);
    assert_eq!(e.parts.images[0].0, "a.png");
    let jpeg = &e.parts.images[0].1;
    assert_ne!(jpeg, &png());
    assert_eq!(&jpeg[..2], &[0xff, 0xd8]);
    assert_eq!(&jpeg[jpeg.len() - 2..], &[0xff, 0xd9]);
    assert_eq!(image::guess_format(jpeg).unwrap(), image::ImageFormat::Jpeg);
    let back = image::load_from_memory(jpeg).unwrap();
    assert_eq!((back.width(), back.height()), (2, 3));
}

#[test]
fn an_image_that_cannot_be_read_is_left_out() {
    let part = |jpeg: Option<Vec<u8>>| {
        sort_files(
            "q".to_string(),
            vec![(
                FilePart { name: "a".to_string(), class: FileClass::Image, data: vec![1] },
                jpeg,
            )],
        )
    };
    assert_eq!(part(None).parts.images, vec![]);
    assert_eq!(part(Some(vec![7])).parts.images, vec![("a".to_string(), vec![7])]);
}

#[test]
fn documents_and_videos_are_added() {
    let mut parts = empty();
    parts.add_opened(
        vec![
            ("a.pdf".to_string(), Some("text".to_string())),
            ("b.pdf".to_string(), None),
        ],
        vec![("v.mp4".to_string(), vec![vec![1], vec![2]]), ("w.mp4".to_string(), vec![])],
    );
    parts.add_video("x.mp4", vec![vec![3]]);
    assert_eq!(parts.pdf_texts, vec![("a.pdf".to_string(), "text".to_string())]);
    assert_eq!(
        parts.video_frames,
        vec![
            ("v.mp4_frame_0".to_string(), vec![1]),
            ("v.mp4_frame_1".to_string(), vec![2]),
            ("x.mp4_frame_0".to_string(), vec![3]),
        ]
    );
}

#[test]
fn frames_are_taken_up_to_the_first_gap() {
    let frames = collect_frames(vec![
        FrameFile::Frame(vec![1]),
        FrameFile::Unreadable,
        FrameFile::Frame(vec![2]),
        FrameFile::Missing,
        FrameFile::Frame(vec![3]),
    ]);
    assert_eq!(frames, vec![vec![1], vec![2]]);
    assert_eq!(collect_frames(vec![FrameFile::Missing]), Vec::<Vec<u8>>::new());
    assert_eq!(frames_of_run(true, vec![FrameFile::Frame(vec![1])]), vec![vec![1]]);
    assert_eq!(frames_of_run(false, vec![FrameFile::Frame(vec![1])]), Vec::<Vec<u8>>::new());
}

#[test]
fn the_frame_command_is_spelled_out() {
    assert_eq!(frame_file_name(1), "frame_001.jpg");
    assert_eq!(frame_files(0), Vec::<String>::new());
    assert_eq!(frame_files(2), vec!["frame_001.jpg", "frame_002.jpg"]);
    assert_eq!(frame_files(MAX_VIDEO_FRAMES).len(), 8);
    assert_eq!(frame_file_name(42), "frame_042.jpg");
    assert_eq!(frame_file_name(1000), "frame_1000.jpg");
    assert_eq!(
        ffmpeg_arguments("/t/in.mp4", "/t/frame_%03d.jpg", MAX_VIDEO_FRAMES),
        vec![
            "-v",
            "error",
            "-i",
            "/t/in.mp4",
            "-vf",
            "fps=1,scale=iw*sar:ih,scale='min(1024,iw)':-2,select='lte(n\\,8)'",
            "-frames:v",
            "8",
            "-q:v",
            "5",
            "/t/frame_%03d.jpg",
        ]
    );
}

#[test]
fn the_model_is_shown_everything_in_order() {
    let parts = FwaParts {
        question: "q?".to_string(),
        images: vec![("i.png".to_string(), vec![0xff, 0xef])],
        pdf_texts: vec![("p.pdf".to_string(), "P".to_string())],
        bbox_texts: vec![("bbox".to_string(), "B".to_string())],
        text_files: vec![("t.txt".to_string(), "T".to_string())],
        video_frames: vec![("v_frame_0".to_string(), vec![1]), ("v_frame_1".to_string(), vec![])],
    };
    assert_eq!(
        json_to_text(&build_user_content(&parts)),
        concat_pieces(&[
            r#"{"text":"q?","type":"text"}"#,
            r#"{"text":"Content of bbox:\n\nB","type":"text"}"#,
            r#"{"text":"Content of t.txt:\n\nT","type":"text"}"#,
            r#"{"text":"Content of p.pdf (extracted text):\n\nP","type":"text"}"#,
            r#"{"text":"Image: i.png","type":"text"}"#,
            r#"{"image_url":{"detail":"high","url":"data:image/jpeg;base64,/+8="},"type":"image_url"}"#,
            r#"{"text":"Video: 2 frames extracted at 1-second intervals.","type":"text"}"#,
            r#"{"text":"Frame: v_frame_0","type":"text"}"#,
            r#"{"image_url":{"detail":"low","url":"data:image/jpeg;base64,AQ=="},"type":"image_url"}"#,
            r#"{"text":"Frame: v_frame_1","type":"text"}"#,
            r#"{"image_url":{"detail":"low","url":"data:image/jpeg;base64,"},"type":"image_url"}"#,
        ])
    );
}

fn concat_pieces(pieces: &[&str]) -> String {
    format!("[{}]", pieces.join(","))
}

#[test]
fn the_model_is_always_shown_something() {
    assert_eq!(
        json_to_text(&build_user_content(&empty())),
        r#"[{"text":"(empty task)","type":"text"}]"#
    );
}

#[test]
fn what_is_shown_can_be_decoded_again() {
    let jpeg: Vec<u8> = (0..=255u8).collect();
    let parts = FwaParts { images: vec![("i".to_string(), jpeg.clone())], ..empty() };
    let content = build_user_content(&parts);
    let pieces = content.as_array().unwrap();
    let url = pieces[1].nested("image_url", "url").unwrap().as_str().unwrap();
    assert_eq!(decode_payload(url), Some(jpeg));
}

#[test]
fn the_question_tells_the_kind_of_answer() {
    for (question, hint) in [
        ("Answer in JSON.", TaskHint::JsonArray),
        ("Create a new issue for each case", TaskHint::JsonReport),
        ("The Report should begin with the total", TaskHint::JsonReport),
        ("use the field \"id\"", TaskHint::JsonArray),
        ("json with TOTAL_VIOLATIONS", TaskHint::JsonReport),
        ("total number of violations", TaskHint::General),
        ("How many workers?", TaskHint::Numerical),
        ("five meters", TaskHint::Numerical),
        ("Describe the scene.", TaskHint::General),
        ("", TaskHint::General),
    ] {
        assert_eq!(infer_task_hint(question), hint, "{question}");
    }
}

#[test]
fn the_kind_of_answer_decides_what_the_model_is_told() {
    assert_eq!(reasoning_effort(TaskHint::JsonReport), "high");
    assert_eq!(reasoning_effort(TaskHint::JsonArray), "high");
    assert_eq!(reasoning_effort(TaskHint::Numerical), "high");
    assert_eq!(reasoning_effort(TaskHint::General), "medium");
    assert_eq!(system_prompt(TaskHint::General), FWA_SYSTEM_PROMPT);
    for (hint, addendum) in [
        (TaskHint::JsonReport, JSON_REPORT_ADDENDUM),
        (TaskHint::JsonArray, JSON_ARRAY_ADDENDUM),
        (TaskHint::Numerical, NUMERICAL_ADDENDUM),
    ] {
        assert_eq!(system_prompt(hint), format!("{FWA_SYSTEM_PROMPT}\n{addendum}"));
    }
}

#[test]
fn without_images_an_extraction_is_always_the_same() {
    let m = message(&[file("a.txt", "", b"A"), file("b.pdf", "", b"B"), file("c", "", b"C")]);
    let (x, y) = (extract_fwa_parts(&m), extract_fwa_parts(&m));
    assert_eq!(x.parts.text_files, y.parts.text_files);
    assert_eq!(x.pdfs, y.pdfs);
    assert_eq!(x.parts.text_files.len() + x.pdfs.len() + x.videos.len(), 2);
}

#[test]
fn two_runs_of_parts_are_sorted_end_to_end() {
    let a = vec![file("a.txt", "", b"A"), file("p.pdf", "", b"P"), file("i.png", "", &png())];
    let b = vec![file("b.txt", "", b"B"), file("v.mp4", "", b"V"), file("q.pdf", "", b"Q")];
    let undecodable = r#"{"kind": "file", "file": {"name": "z.txt", "bytes": "%"}}"#.to_string();
    let both = [a.clone(), vec![undecodable], b.clone()].concat();
    let (x, y, xy) =
        (extract_fwa_parts(&message(&a)), extract_fwa_parts(&message(&b)), extract_fwa_parts(&message(&both)));
    assert_eq!(xy.parts.text_files, [x.parts.text_files, y.parts.text_files].concat());
    assert_eq!(xy.parts.images, [x.parts.images, y.parts.images].concat());
    assert_eq!(xy.pdfs, [x.pdfs, y.pdfs].concat());
    assert_eq!(xy.videos, [x.videos, y.videos].concat());
    assert_eq!((xy.parts.text_files.len(), xy.pdfs.len(), xy.videos.len()), (2, 2, 1));
}
