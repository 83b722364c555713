//! IPC payloads and the app state shared by the commands.

use vstd::prelude::*;

use crate::manifest::{title_from_source, title_text};
use crate::sidecar::CancelFlag;
use crate::text::{
    chars_of, lemma_back_ws_from_bounds, lemma_skip_ws_from_bounds, push_str, skip_ws_from,
    string_from, trim, trim_exec,
};

use std::sync::Mutex;

use base64::Engine;

verus! {

broadcast use vstd::string::group_string_axioms;

/// `std::sync::Mutex`, carried through unchanged.
#[verifier::external_type_specification]
#[verifier::external_body]
#[verifier::reject_recursive_types(T)]
pub struct ExMutex<T: ?Sized>(Mutex<T>);

/// std `Mutex::new`. Nothing is stated of the new mutex: its contents are not
/// visible to verified code.
#[verifier::external_body]
fn new_running_flag(running: bool) -> Mutex<bool> {
    Mutex::new(running)
}

pub struct AppState {
    pub cancel: CancelFlag,
    pub running: Mutex<bool>,
}

impl AppState {
    pub fn new() -> (r: Self) {
        Self { cancel: CancelFlag::new(), running: new_running_flag(false) }
    }
}

/// A request field that is absent or only whitespace counts as not given.
pub open spec fn given(value: Option<String>) -> Option<String> {
    match value {
        Some(s) => if trim(s@).len() > 0 {
            Some(s)
        } else {
            None
        },
        None => None,
    }
}

/// The field when it holds more than whitespace, else `None`.
pub fn nonblank(value: Option<String>) -> (r: Option<String>)
    ensures
        r == given(value),
{
    match value {
        Some(s) => {
            let t = trim_exec(&chars_of(s.as_str()));
            if t.len() > 0 {
                Some(s)
            } else {
                None
            }
        },
        None => None,
    }
}

/// A path field of a run request: kept unless it is empty (a field of only
/// spaces is kept, as a path).
pub fn nonempty_field(value: Option<String>) -> (r: Option<String>)
    ensures
        r == (match value {
            Some(s) => if s@.len() > 0 {
                Some(s)
            } else {
                None
            },
            None => None,
        }),
{
    match value {
        Some(s) => if s.as_str().unicode_len() > 0 {
            Some(s)
        } else {
            None
        },
        None => None,
    }
}

/// A new project's title: the one asked for unless blank, else one made from
/// the source's file name.
pub fn project_title(title: Option<String>, source: &str) -> (r: String)
    ensures
        given(title) matches Some(t) ==> r == t,
        given(title) is None ==> r@ == title_text(source@),
{
    match nonblank(title) {
        Some(t) => t,
        None => title_from_source(source),
    }
}

/// A new project's title is never empty, whatever was asked for.
pub proof fn law_project_title_is_never_empty(title: Option<String>, source: Seq<char>)
    ensures
        (match given(title) {
            Some(t) => t@,
            None => title_text(source),
        }).len() > 0,
{
    crate::manifest::law_title_is_never_blank(source);
    if let Some(t) = given(title) {
        let s = t@;
        lemma_skip_ws_from_bounds(s, 0);
        let front = s.skip(skip_ws_from(s, 0));
        lemma_back_ws_from_bounds(front, front.len() as int);
    }
}

/// What the `base64` crate's `STANDARD` engine decodes `text` to: the bytes,
/// or the text of its `DecodeError`; a function of the text alone.
pub uninterp spec fn base64_standard_decoded(text: Seq<char>) -> Result<Seq<u8>, Seq<char>>;

/// base64 `engine::general_purpose::STANDARD.decode`. Claims only that the
/// outcome is the crate's decoding of the text, with the error as its
/// displayed text.
#[verifier::external_body]
fn base64_decode(text: &str) -> (r: Result<Vec<u8>, String>)
    ensures
        match r {
            Ok(bytes) => base64_standard_decoded(text@) == Ok::<Seq<u8>, Seq<char>>(bytes@),
            Err(e) => base64_standard_decoded(text@) == Err::<Seq<u8>, Seq<char>>(e@),
        },
{
    match base64::engine::general_purpose::STANDARD.decode(text) {
        Ok(bytes) => Ok(bytes),
        Err(err) => Err(err.to_string()),
    }
}

pub open spec fn invalid_poster_text(error: Seq<char>) -> Seq<char> {
    "Invalid preview image: "@ + error
}

/// A decoded poster as the archive takes it; a decoding error becomes the
/// message the user sees.
pub fn poster_from_decoded(decoded: Result<Vec<u8>, String>) -> (r: Result<Vec<u8>, String>)
    ensures
        decoded matches Ok(bytes) ==> r == Ok::<Vec<u8>, String>(bytes),
        decoded matches Err(e) ==> r matches Err(m) && m@ == invalid_poster_text(e@),
{
    match decoded {
        Ok(bytes) => Ok(bytes),
        Err(e) => {
            let mut m: Vec<char> = chars_of("Invalid preview image: ");
            push_str(&mut m, e.as_str());
            Err(string_from(&m))
        },
    }
}

/// The poster bytes sent by the viewer as base64 text (surrounding
/// whitespace ignored), or the message for text that does not decode.
pub fn decode_poster(jpeg_base64: &str) -> (r: Result<Vec<u8>, String>)
    ensures
        match base64_standard_decoded(trim(jpeg_base64@)) {
            Ok(bytes) => r matches Ok(v) && v@ == bytes,
            Err(e) => r matches Err(m) && m@ == invalid_poster_text(e),
        },
{
    let t = string_from(&trim_exec(&chars_of(jpeg_base64)));
    poster_from_decoded(base64_decode(t.as_str()))
}

#[derive(Debug, Clone, PartialEq, Eq)]
pub struct ProgressPayload {
    pub stage: String,
    pub percent: u8,
    pub message: String,
}

#[derive(Debug, Clone, PartialEq, Eq)]
pub struct RunResult {
    pub ply_path: String,
    pub archive_id: Option<String>,
    pub archive_error: Option<String>,
    pub completed_stage: String,
    pub project_dir: String,
}

} // verus!
