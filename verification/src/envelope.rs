//! The shape of an incoming request: its message parts and the features that
//! the probes look for in them.
//!
//! A feature is a matter of structure alone: which members a part has, what kind
//! it is of, how a file's name ends and which media type it declares.

use vstd::prelude::*;

use crate::json::{views, Json, JsonView};
use crate::text::{begins, contains, ends, ends_with, holds, lower, lowered, same_text, starts_with};

verus! {

/// The parts of the message that a request carries: `params.message.parts`, where
/// that is an array.
pub open spec fn message_parts(req: JsonView) -> Option<Seq<JsonView>> {
    match req.nested("params"@, "message"@) {
        Some(message) => message.array_field("parts"@),
        None => None,
    }
}

/// The parts of the message that a request carries.
pub fn parts_of(req: &Json) -> (r: Option<&Vec<Json>>)
    ensures
        match r {
            Some(parts) => message_parts(req@) == Some(views(parts@)),
            None => message_parts(req@) is None,
        },
{
    match req.nested("params", "message") {
        Some(message) => message.array_field("parts"),
        None => None,
    }
}

/// A part without the `root` envelope that some clients put around it.
pub open spec fn unwrapped(part: JsonView) -> JsonView {
    match part.field("root"@) {
        Some(inner) => inner,
        None => part,
    }
}

/// A part without the `root` envelope that some clients put around it.
pub fn unwrap_part(part: &Json) -> (r: &Json)
    ensures
        r@ == unwrapped(part@),
{
    match part.get("root") {
        Some(inner) => inner,
        None => part,
    }
}

/// Whether a part says that it is of this kind.
pub open spec fn of_kind(p: JsonView, kind: Seq<char>) -> bool {
    p.str_field("kind"@) == Some(kind)
}

fn is_kind(p: &Json, kind: &str) -> (r: bool)
    ensures
        r == of_kind(p@, kind@),
{
    match p.str_field("kind") {
        Some(k) => same_text(k, kind),
        None => false,
    }
}

/// Whether a part is of this kind by its `kind` or, where it has none, its `type`.
pub open spec fn of_kind_or_type(p: JsonView, kind: Seq<char>) -> bool {
    if p.has("kind"@) {
        of_kind(p, kind)
    } else {
        p.str_field("type"@) == Some(kind)
    }
}

fn is_kind_or_type(p: &Json, kind: &str) -> (r: bool)
    ensures
        r == of_kind_or_type(p@, kind@),
{
    if p.has("kind") {
        is_kind(p, kind)
    } else {
        match p.str_field("type") {
            Some(k) => same_text(k, kind),
            None => false,
        }
    }
}

/// A string that the `file` of a part holds, in lower case; empty where there is
/// none.
pub open spec fn file_text(p: JsonView, key: Seq<char>) -> Seq<char> {
    match p.nested("file"@, key) {
        Some(JsonView::Str(s)) => lowered(s),
        _ => Seq::empty(),
    }
}

fn lower_file_text(p: &Json, key: &str) -> (r: String)
    ensures
        r@ == file_text(p@, key@),
{
    match p.nested("file", key) {
        Some(v) => match v.as_str() {
            Some(s) => lower(s),
            None => String::new(),
        },
        None => String::new(),
    }
}

/// The lower-case name of the file in a part.
pub open spec fn file_name(p: JsonView) -> Seq<char> {
    file_text(p, "name"@)
}

/// The lower-case media type of the file in a part.
pub open spec fn file_mime(p: JsonView) -> Seq<char> {
    file_text(p, "mimeType"@)
}

/// Whether a name is that of a source archive.
pub open spec fn archive_name(name: Seq<char>) -> bool {
    ||| ends(name, ".tar.gz"@)
    ||| ends(name, ".tgz"@)
    ||| ends(name, ".tar"@)
}

fn is_archive_name(name: &str) -> (r: bool)
    ensures
        r == archive_name(name@),
{
    ends_with(name, ".tar.gz") || ends_with(name, ".tgz") || ends_with(name, ".tar")
}

/// Whether a name is that of a patch.
pub open spec fn patch_name(name: Seq<char>) -> bool {
    ||| ends(name, ".diff"@)
    ||| ends(name, ".patch"@)
}

fn is_patch_name(name: &str) -> (r: bool)
    ensures
        r == patch_name(name@),
{
    ends_with(name, ".diff") || ends_with(name, ".patch")
}

/// Whether a file is a screenshot: an image by its media type, or a PNG or JPEG by
/// its name.
pub open spec fn screenshot(mime: Seq<char>, name: Seq<char>) -> bool {
    ||| begins(mime, "image/"@)
    ||| ends(name, ".png"@)
    ||| ends(name, ".jpg"@)
    ||| ends(name, ".jpeg"@)
}

fn is_screenshot(mime: &str, name: &str) -> (r: bool)
    ensures
        r == screenshot(mime@, name@),
{
    starts_with(mime, "image/") || ends_with(name, ".png") || ends_with(name, ".jpg") || ends_with(
        name,
        ".jpeg",
    )
}

/// Whether a file is a document that an answer is to be grounded in.
pub open spec fn document(mime: Seq<char>, name: Seq<char>) -> bool {
    ||| mime == "application/pdf"@
    ||| ends(name, ".pdf"@)
    ||| begins(mime, "text/"@)
    ||| ends(name, ".txt"@)
    ||| ends(name, ".csv"@)
    ||| ends(name, ".md"@)
    ||| ends(name, ".json"@)
    ||| holds(name, "bounding_box"@)
}

fn is_document(mime: &str, name: &str) -> (r: bool)
    ensures
        r == document(mime@, name@),
{
    same_text(mime, "application/pdf") || ends_with(name, ".pdf") || starts_with(mime, "text/")
        || ends_with(name, ".txt") || ends_with(name, ".csv") || ends_with(name, ".md")
        || ends_with(name, ".json") || contains(name, "bounding_box")
}

/// Whether `data` carries a desktop-observation channel.
pub open spec fn desktop_observation(data: JsonView) -> bool {
    ||| data.has("accessibility_tree"@)
    ||| data.has("a11y_tree"@)
    ||| data.has("terminal"@)
}

/// Whether `data` carries a desktop-observation channel.
pub fn is_desktop_observation(data: &Json) -> (r: bool)
    ensures
        r == desktop_observation(data@),
{
    data.has("accessibility_tree") || data.has("a11y_tree") || data.has("terminal")
}

/// Whether an object declares how the agent acts on a desktop and what it sees.
pub open spec fn action_contract(obj: JsonView) -> bool {
    &&& obj.has("action_space"@)
    &&& obj.has("observation_type"@) || obj.has("screen_size"@) || obj.has("observation"@)
}

fn is_action_contract(obj: &Json) -> (r: bool)
    ensures
        r == action_contract(obj@),
{
    obj.has("action_space") && (obj.has("observation_type") || obj.has("screen_size") || obj.has(
        "observation",
    ))
}

/// Whether `data` is an environment contract for desktop control, nested under
/// `env_config` or flat.
pub open spec fn gui_env_config(data: JsonView) -> bool {
    ||| data.field("env_config"@) matches Some(env) && action_contract(env)
    ||| action_contract(data)
}

/// Whether `data` is an environment contract for desktop control.
pub fn is_gui_env_config(data: &Json) -> (r: bool)
    ensures
        r == gui_env_config(data@),
{
    if let Some(env) = data.get("env_config") {
        if is_action_contract(env) {
            return true;
        }
    }
    is_action_contract(data)
}

/// Whether `data` belongs to desktop control: an action space, nested or flat, or
/// an observation channel.
pub open spec fn gui_fingerprint(data: JsonView) -> bool {
    ||| data.field("env_config"@) matches Some(env) && env.has("action_space"@)
    ||| data.has("action_space"@)
    ||| desktop_observation(data)
}

/// Whether `data` belongs to desktop control.
pub fn has_gui_fingerprint(data: &Json) -> (r: bool)
    ensures
        r == gui_fingerprint(data@),
{
    if let Some(env) = data.get("env_config") {
        if env.has("action_space") {
            return true;
        }
    }
    data.has("action_space") || is_desktop_observation(data)
}

/// Whether `data` carries a signal of another capability: a member that belongs to tool
/// use or to feedback on a run, or anything that belongs to desktop control.
pub open spec fn claimed_data(data: JsonView) -> bool {
    ||| data.has("bootstrap"@)
    ||| data.has("messages"@)
    ||| data.has("tools"@)
    ||| data.has("exit_code"@)
    ||| data.has("context_id"@)
    ||| data.has_items("benchmark_context"@)
    ||| gui_fingerprint(data)
}

fn is_claimed_data(data: &Json) -> (r: bool)
    ensures
        r == claimed_data(data@),
{
    data.has("bootstrap") || data.has("messages") || data.has("tools") || data.has("exit_code")
        || data.has("context_id") || data.has_items("benchmark_context") || has_gui_fingerprint(data)
}

/// A structural feature of a message part.
#[derive(Debug, Clone, Copy, PartialEq, Eq, Structural)]
pub enum Feature {
    /// A file that is a source archive.
    Archive,
    /// A file that is a patch.
    Patch,
    /// Data with the exit code of a run.
    ExitCode,
    /// A file that is a screenshot.
    Screenshot,
    /// A file that is a raster image.
    Image,
    /// A file that is a document.
    Document,
    /// A text that is not empty.
    Question,
    /// Data that belongs to desktop control.
    GuiFingerprint,
    /// Data that is an environment contract for desktop control.
    GuiEnvConfig,
    /// Data with a desktop-observation channel.
    DesktopObservation,
    /// A prompt: a text that is not empty, or data with a query.
    Prompt,
    /// A part that is no part of a text-only request: a file, or claimed data.
    Claimed,
}

/// Whether the part `p`, which has no envelope, shows the feature.
pub open spec fn shows(p: JsonView, feature: Feature) -> bool {
    match feature {
        Feature::Archive => of_kind(p, "file"@) && archive_name(file_name(p)),
        Feature::Patch => of_kind(p, "file"@) && patch_name(file_name(p)),
        Feature::ExitCode => of_kind(p, "data"@) && p.nested("data"@, "exit_code"@) is Some,
        Feature::Screenshot => of_kind(p, "file"@) && screenshot(file_mime(p), file_name(p)),
        Feature::Image => of_kind(p, "file"@) && (screenshot(file_mime(p), file_name(p)) || ends(
            file_name(p),
            ".webp"@,
        )),
        Feature::Document => of_kind(p, "file"@) && document(file_mime(p), file_name(p)),
        Feature::Question => of_kind(p, "text"@) && p.has_text("text"@),
        Feature::GuiFingerprint => of_kind(p, "data"@) && (p.field("data"@) matches Some(data)
            && gui_fingerprint(data)),
        Feature::GuiEnvConfig => of_kind(p, "data"@) && (p.field("data"@) matches Some(data)
            && gui_env_config(data)),
        Feature::DesktopObservation => of_kind(p, "data"@) && (p.field("data"@) matches Some(data)
            && desktop_observation(data)),
        Feature::Prompt => {
            ||| of_kind_or_type(p, "text"@) && p.has_text("text"@)
            ||| of_kind_or_type(p, "data"@) && (p.field("data"@) matches Some(data)
                && data.has_text("query"@))
        },
        Feature::Claimed => {
            ||| of_kind_or_type(p, "file"@)
            ||| of_kind_or_type(p, "data"@) && (p.field("data"@) matches Some(data)
                && claimed_data(data))
        },
    }
}

/// Whether the part `p`, which has no envelope, shows the feature.
pub fn part_shows(p: &Json, feature: Feature) -> (r: bool)
    ensures
        r == shows(p@, feature),
{
    match feature {
        Feature::Archive => is_kind(p, "file") && is_archive_name(
            lower_file_text(p, "name").as_str(),
        ),
        Feature::Patch => is_kind(p, "file") && is_patch_name(lower_file_text(p, "name").as_str()),
        Feature::ExitCode => is_kind(p, "data") && p.nested("data", "exit_code").is_some(),
        Feature::Screenshot => is_kind(p, "file") && is_screenshot(
            lower_file_text(p, "mimeType").as_str(),
            lower_file_text(p, "name").as_str(),
        ),
        Feature::Image => is_kind(p, "file") && (is_screenshot(
            lower_file_text(p, "mimeType").as_str(),
            lower_file_text(p, "name").as_str(),
        ) || ends_with(lower_file_text(p, "name").as_str(), ".webp")),
        Feature::Document => is_kind(p, "file") && is_document(
            lower_file_text(p, "mimeType").as_str(),
            lower_file_text(p, "name").as_str(),
        ),
        Feature::Question => is_kind(p, "text") && p.has_text("text"),
        Feature::GuiFingerprint => is_kind(p, "data") && match p.get("data") {
            Some(data) => has_gui_fingerprint(data),
            None => false,
        },
        Feature::GuiEnvConfig => is_kind(p, "data") && match p.get("data") {
            Some(data) => is_gui_env_config(data),
            None => false,
        },
        Feature::DesktopObservation => is_kind(p, "data") && match p.get("data") {
            Some(data) => is_desktop_observation(data),
            None => false,
        },
        Feature::Prompt => {
            (is_kind_or_type(p, "text") && p.has_text("text")) || (is_kind_or_type(p, "data")
                && match p.get("data") {
                Some(data) => data.has_text("query"),
                None => false,
            })
        },
        Feature::Claimed => {
            is_kind_or_type(p, "file") || (is_kind_or_type(p, "data") && match p.get("data") {
                Some(data) => is_claimed_data(data),
                None => false,
            })
        },
    }
}

/// Whether some part of a message shows the feature.
pub open spec fn some_part(parts: Seq<JsonView>, feature: Feature) -> bool {
    exists|i: int| 0 <= i < parts.len() && shows(unwrapped(#[trigger] parts[i]), feature)
}

/// Whether some part of a message shows the feature.
pub fn any_part(parts: &Vec<Json>, feature: Feature) -> (r: bool)
    ensures
        r == some_part(views(parts@), feature),
{
    for i in 0..parts.len()
        invariant
            forall|j: int| 0 <= j < i ==> !shows(unwrapped(#[trigger] views(parts@)[j]), feature),
    {
        if part_shows(unwrap_part(&parts[i]), feature) {
            assert(views(parts@)[i as int] == parts[i as int]@);
            return true;
        }
    }
    false
}

} // verus!
