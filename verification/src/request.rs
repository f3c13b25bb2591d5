use vstd::prelude::*;

use crate::failure::{failure, PluginFailure, INTERNAL_ERROR, INVALID_PARAMS};
use crate::item::{copy_strings, kind_files, kind_image, opt_view, ClipboardItem};
use crate::store::{first_with_id, has_id, HistoryStore};
use crate::text::{chars_of, string_views, trim, trimmed};

verus! {

broadcast use vstd::string::group_string_axioms;

/// Whether two strings hold the same characters.
pub fn same_text(a: &str, b: &str) -> (r: bool)
    ensures
        r == (a@ == b@),
{
    let x = chars_of(a);
    let y = chars_of(b);
    if x.len() != y.len() {
        return false;
    }
    let mut i: usize = 0;
    while i < x.len()
        invariant
            x@ == a@,
            y@ == b@,
            x@.len() == y@.len(),
            i <= x@.len(),
            forall|k: int| 0 <= k < i ==> x@[k] == y@[k],
        decreases x@.len() - i,
    {
        if x[i] != y[i] {
            return false;
        }
        i = i + 1;
    }
    assert(x@ =~= y@);
    true
}

fn copy_opt(s: &Option<String>) -> (r: Option<String>)
    ensures
        opt_view(r) == opt_view(*s),
{
    match s {
        Some(v) => Some(v.clone()),
        None => None,
    }
}

/// The parameters of a request that the handler reads: each present only
/// where the request gave it as a string.
#[derive(Debug)]
pub struct RequestParams {
    pub id: Option<String>,
    pub query: Option<String>,
    pub path: Option<String>,
}

/// What a request asks for.
#[derive(Debug)]
pub enum Command {
    List { query: Option<String> },
    Copy { id: String },
    Delete { id: String },
    Clear,
    Capture,
    Media { id: String },
    OpenPath { path: String },
}

/// Why a request was refused before any work.
#[derive(Debug)]
pub enum RouteError {
    /// No such method.
    MethodNotFound(String),
    /// A parameter is missing.
    Invalid(PluginFailure),
}

/// Whether the outcome is a refusal for a missing parameter with `message`.
pub open spec fn missing_param(r: Result<Command, RouteError>, message: Seq<char>) -> bool {
    r matches Err(RouteError::Invalid(f)) && f.code == INVALID_PARAMS && f.message@ == message
}

/// The `id` parameter, or the refusal `Missing id`.
pub fn require_id(params: &RequestParams) -> (r: Result<String, PluginFailure>)
    ensures
        params.id matches Some(id) ==> (r matches Ok(v) && v@ == id@),
        params.id is None ==> (r matches Err(f) && f.code == INVALID_PARAMS && f.message@
            == "Missing id"@),
{
    match &params.id {
        Some(id) => Ok(id.clone()),
        None => Err(failure(INVALID_PARAMS, "Missing id")),
    }
}

/// Whether `r` is the command numbered `which` (0 copy, 1 delete, 2 media) for
/// the id parameter `id`, or the refusal for a missing id.
pub open spec fn id_routed(r: Result<Command, RouteError>, id: Option<String>, which: int) -> bool {
    match id {
        Some(v) => match r {
            Ok(Command::Copy { id: x }) => which == 0 && x@ == v@,
            Ok(Command::Delete { id: x }) => which == 1 && x@ == v@,
            Ok(Command::Media { id: x }) => which == 2 && x@ == v@,
            _ => false,
        },
        None => missing_param(r, "Missing id"@),
    }
}

/// Whether `r` is the listing for the query parameter `query`.
pub open spec fn list_routed(r: Result<Command, RouteError>, query: Option<String>) -> bool {
    match r {
        Ok(Command::List { query: q }) => opt_view(q) == opt_view(query),
        _ => false,
    }
}

/// Whether `r` reveals the path parameter `path`, or refuses a missing one.
pub open spec fn path_routed(r: Result<Command, RouteError>, path: Option<String>) -> bool {
    match path {
        Some(v) => match r {
            Ok(Command::OpenPath { path: x }) => x@ == v@,
            _ => false,
        },
        None => missing_param(r, "Missing path"@),
    }
}

/// Whether `method` names one of the handler's methods.
pub open spec fn known_method(method: Seq<char>) -> bool {
    ||| method == "clipboard/list"@
    ||| method == "clipboard/copy"@
    ||| method == "clipboard/delete"@
    ||| method == "clipboard/clear"@
    ||| method == "clipboard/capture"@
    ||| method == "clipboard/media"@
    ||| method == "clipboard/open-path"@
}

fn id_command(params: &RequestParams, which: u8) -> (r: Result<Command, RouteError>)
    requires
        which <= 2,
    ensures
        id_routed(r, params.id, which as int),
{
    match require_id(params) {
        Ok(id) => if which == 0 {
            Ok(Command::Copy { id })
        } else if which == 1 {
            Ok(Command::Delete { id })
        } else {
            Ok(Command::Media { id })
        },
        Err(f) => Err(RouteError::Invalid(f)),
    }
}

/// The command that `method` with `params` asks for: the seven `clipboard/...`
/// methods, each refused where it lacks its `id` (or, to open a path, its `path`).
pub fn route(method: &str, params: &RequestParams) -> (r: Result<Command, RouteError>)
    ensures
        method@ == "clipboard/list"@ ==> list_routed(r, params.query),
        method@ == "clipboard/copy"@ ==> id_routed(r, params.id, 0),
        method@ == "clipboard/delete"@ ==> id_routed(r, params.id, 1),
        method@ == "clipboard/clear"@ ==> r matches Ok(Command::Clear),
        method@ == "clipboard/capture"@ ==> r matches Ok(Command::Capture),
        method@ == "clipboard/media"@ ==> id_routed(r, params.id, 2),
        method@ == "clipboard/open-path"@ ==> path_routed(r, params.path),
        !known_method(method@) ==> (r matches Err(RouteError::MethodNotFound(m)) && m@ == method@),
{
    proof {
        reveal_strlit("clipboard/list");
        reveal_strlit("clipboard/copy");
        reveal_strlit("clipboard/delete");
        reveal_strlit("clipboard/clear");
        reveal_strlit("clipboard/capture");
        reveal_strlit("clipboard/media");
        reveal_strlit("clipboard/open-path");
        assert("clipboard/list"@[10] == 'l' && "clipboard/list"@[11] == 'i');
        assert("clipboard/copy"@[10] == 'c' && "clipboard/copy"@[11] == 'o');
        assert("clipboard/delete"@[10] == 'd' && "clipboard/delete"@[11] == 'e');
        assert("clipboard/clear"@[10] == 'c' && "clipboard/clear"@[11] == 'l');
        assert("clipboard/capture"@[10] == 'c' && "clipboard/capture"@[11] == 'a');
        assert("clipboard/media"@[10] == 'm' && "clipboard/media"@[11] == 'e');
        assert("clipboard/open-path"@[10] == 'o' && "clipboard/open-path"@[11] == 'p');
    }
    if same_text(method, "clipboard/list") {
        Ok(Command::List { query: copy_opt(&params.query) })
    } else if same_text(method, "clipboard/copy") {
        id_command(params, 0)
    } else if same_text(method, "clipboard/delete") {
        id_command(params, 1)
    } else if same_text(method, "clipboard/clear") {
        Ok(Command::Clear)
    } else if same_text(method, "clipboard/capture") {
        Ok(Command::Capture)
    } else if same_text(method, "clipboard/media") {
        id_command(params, 2)
    } else if same_text(method, "clipboard/open-path") {
        match &params.path {
            Some(p) => Ok(Command::OpenPath { path: p.clone() }),
            None => Err(RouteError::Invalid(failure(INVALID_PARAMS, "Missing path"))),
        }
    } else {
        Err(RouteError::MethodNotFound(String::from_str(method)))
    }
}

/// A copy of the first item with id `id`, or the refusal `Clipboard item not found`.
pub fn require_item(store: &HistoryStore, id: &str) -> (r: Result<ClipboardItem, PluginFailure>)
    ensures
        r matches Ok(item) ==> exists|p: int|
            first_with_id(store@.items, id@, p) && item@ == #[trigger] store@.items[p],
        r is Err <==> !has_id(store@.items, id@),
        r matches Err(f) ==> f.code == INVALID_PARAMS && f.message@
            == "Clipboard item not found"@,
{
    match store.get(id) {
        Some(item) => Ok(item.duplicate()),
        None => Err(failure(INVALID_PARAMS, "Clipboard item not found")),
    }
}

/// What writing an item back to the clipboard puts there.
#[derive(Debug)]
pub enum ClipboardPayload {
    /// The image whose blob is at this path, relative to the data directory.
    ImageBlob(String),
    /// These file paths.
    Files(Vec<String>),
    /// This text.
    Text(String),
}

/// What writing `item` back to the clipboard puts there: an image item its
/// blob, a file-list item its paths, any other item its text.
pub fn clipboard_payload(item: &ClipboardItem) -> (r: Result<ClipboardPayload, PluginFailure>)
    ensures
        item@.kind == kind_image() ==> match item@.media_file {
            Some(rel) => r matches Ok(ClipboardPayload::ImageBlob(v)) && v@ == rel,
            None => r matches Err(f) && f.code == INTERNAL_ERROR && f.message@
                == "Image blob missing"@,
        },
        item@.kind == kind_files() ==> match item@.paths {
            Some(ps) => r matches Ok(ClipboardPayload::Files(v)) && string_views(v@) == ps,
            None => r matches Err(f) && f.code == INTERNAL_ERROR && f.message@
                == "File paths missing"@,
        },
        item@.kind != kind_image() && item@.kind != kind_files() ==> (r matches Ok(ClipboardPayload::Text(t))
            && t@ == item@.text),
{
    proof {
        reveal_strlit("image");
        reveal_strlit("files");
        assert("image"@ =~= kind_image());
        assert("files"@ =~= kind_files());
    }
    if same_text(item.kind.as_str(), "image") {
        match &item.media_file {
            Some(rel) => Ok(ClipboardPayload::ImageBlob(rel.clone())),
            None => Err(failure(INTERNAL_ERROR, "Image blob missing")),
        }
    } else if same_text(item.kind.as_str(), "files") {
        match &item.paths {
            Some(ps) => Ok(ClipboardPayload::Files(copy_strings(ps))),
            None => Err(failure(INTERNAL_ERROR, "File paths missing")),
        }
    } else {
        Ok(ClipboardPayload::Text(item.text.clone()))
    }
}

/// The blob of an image item to show enlarged: refused for an item that is not
/// an image, and failing where the item has no blob.
pub fn media_blob(item: &ClipboardItem) -> (r: Result<String, PluginFailure>)
    ensures
        item@.kind != kind_image() ==> (r matches Err(f) && f.code == INVALID_PARAMS && f.message@
            == "Item is not an image"@),
        item@.kind == kind_image() ==> match item@.media_file {
            Some(rel) => r matches Ok(v) && v@ == rel,
            None => r matches Err(f) && f.code == INTERNAL_ERROR && f.message@
                == "Image blob missing"@,
        },
{
    proof {
        reveal_strlit("image");
        assert("image"@ =~= kind_image());
    }
    if !same_text(item.kind.as_str(), "image") {
        return Err(failure(INVALID_PARAMS, "Item is not an image"));
    }
    match &item.media_file {
        Some(rel) => Ok(rel.clone()),
        None => Err(failure(INTERNAL_ERROR, "Image blob missing")),
    }
}

/// std's `Path::is_absolute` for the path `raw`. Its answer depends on the
/// platform's path rules and is not stated.
#[verifier::external_body]
fn path_is_absolute(raw: &str) -> bool {
    std::path::Path::new(raw).is_absolute()
}

/// Decides whether a path may be revealed, given whether the platform counts it
/// as absolute: a blank path is refused, then a relative one.
pub fn check_open_path(raw: &str, absolute: bool) -> (r: Result<(), PluginFailure>)
    ensures
        trimmed(raw@).len() == 0 ==> (r matches Err(f) && f.code == INVALID_PARAMS && f.message@
            == "Path is empty"@),
        trimmed(raw@).len() > 0 && !absolute ==> (r matches Err(f) && f.code == INVALID_PARAMS
            && f.message@ == "Path must be absolute"@),
        trimmed(raw@).len() > 0 && absolute ==> r is Ok,
{
    let t = trim(raw);
    if t.as_str().is_empty() {
        return Err(failure(INVALID_PARAMS, "Path is empty"));
    }
    if !absolute {
        return Err(failure(INVALID_PARAMS, "Path must be absolute"));
    }
    Ok(())
}

/// The checks on a path to reveal that need no file system: not blank, and
/// absolute by the platform's rules.
pub fn open_path_problem(raw: &str) -> (r: Result<(), PluginFailure>)
    ensures
        trimmed(raw@).len() == 0 ==> (r matches Err(f) && f.code == INVALID_PARAMS && f.message@
            == "Path is empty"@),
        trimmed(raw@).len() > 0 ==> (r is Ok || (r matches Err(f) && f.code == INVALID_PARAMS
            && f.message@ == "Path must be absolute"@)),
{
    let absolute = path_is_absolute(raw);
    check_open_path(raw, absolute)
}

} // verus!
