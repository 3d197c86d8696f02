//! Saving the files of a multipart body while it streams in: which field
//! is being collected, where a field's file is created, and where each
//! finished field goes. The file operations themselves are the caller's.

use vstd::prelude::*;
use crate::framework_http::request::multipart_form::{
    HttpMultiPartFormDataField, SaveMetadataForMultipart, FieldText, opt_view, file_path_for, find_saving_rule,
    saving_file_path,
};
use crate::text::{str_eq, extend_bytes};

verus! {

/// Where a multipart body's saving stands: the field being collected, the
/// index of the rule it is saved by (when it is saved to a file), and the
/// bytes gathered for it (when it is not).
pub struct SaveState {
    pub working: Option<HttpMultiPartFormDataField>,
    pub saving: Option<usize>,
    pub collected: Vec<u8>,
}

/// A field whose data is complete.
pub enum FinishedField {
    /// A field kept in memory, with its bytes.
    Rest(HttpMultiPartFormDataField, Vec<u8>),
    /// A field that was saved to the file created for it.
    Saved(HttpMultiPartFormDataField),
}

/// What the caller does for one chunk of field data: hand on the field
/// that ended, create the file for the field that starts, and write the
/// chunk to the field's file.
pub struct SaveAction {
    pub finished: Option<FinishedField>,
    pub create_at: Option<String>,
    pub write: bool,
}

/// The headers of an optional field.
pub open spec fn working_text(w: Option<HttpMultiPartFormDataField>) -> Option<FieldText> {
    match w {
        Some(f) => Some(f.text()),
        None => None,
    }
}

/// Whether `i` is the index of the first rule for the field name `name`
/// (none when no rule names it).
pub open spec fn first_rule(rules: Seq<SaveMetadataForMultipart>, name: Seq<char>, i: Option<usize>) -> bool {
    match i {
        Some(k) => k < rules.len() && rules[k as int].field_name@ == name && forall|j: int|
            0 <= j < k ==> rules[j].field_name@ != name,
        None => forall|j: int| 0 <= j < rules.len() ==> rules[j].field_name@ != name,
    }
}

impl SaveState {
    /// Nothing collected yet.
    pub fn new() -> (r: Self)
        ensures
            r.working is None,
            r.saving is None,
            r.collected@ == Seq::<u8>::empty(),
    {
        SaveState { working: None, saving: None, collected: Vec::new() }
    }
}

/// Whether two optional file names are the same.
fn same_file_name(a: Option<&String>, b: Option<&String>) -> (r: bool)
    ensures
        r == (opt_view(match a {
            Some(s) => Some(*s),
            None => None,
        }) == opt_view(match b {
            Some(s) => Some(*s),
            None => None,
        })),
{
    match (a, b) {
        (Some(x), Some(y)) => str_eq(x.as_str(), y.as_str()),
        (None, None) => true,
        _ => false,
    }
}

/// One chunk `data` of the multipart field `field`. A field with another
/// file name than the one being collected ends that one: it is handed on
/// with its bytes, or as saved when it was being saved. A field that
/// starts is saved by the first rule with its name, at the path that rule
/// gives (the file is created there); without such a rule its bytes are
/// gathered. The chunk is then written to the field's file, or appended
/// to its bytes.
pub fn save_step(
    state: &mut SaveState,
    field: &HttpMultiPartFormDataField,
    data: &[u8],
    rules: &[SaveMetadataForMultipart],
) -> (a: SaveAction)
    ensures
        ({
            let before = *old(state);
            let after = *final(state);
            let switching = before.working matches Some(w) && w.text().1 != field.text().1;
            let starting = before.working is None || switching;
            let kept = if starting { Seq::<u8>::empty() } else { before.collected@ };
            &&& (a.finished is Some <==> switching)
            &&& (switching && before.saving is Some ==> (a.finished matches Some(FinishedField::Saved(f))
                && f.text() == before.working->0.text()))
            &&& (switching && before.saving is None ==> (a.finished matches Some(FinishedField::Rest(f, b))
                && f.text() == before.working->0.text() && b@ == before.collected@))
            &&& (starting ==> working_text(after.working) == Some(field.text()) && first_rule(
                rules@,
                field.text().0,
                after.saving,
            ) && match after.saving {
                Some(k) => a.create_at matches Some(p) && p@ == saving_file_path(
                    rules@[k as int].saving_path@,
                    field.text().1,
                ),
                None => a.create_at is None,
            })
            &&& (!starting ==> working_text(after.working) == working_text(before.working) && after.saving
                == before.saving && a.create_at is None)
            &&& (after.saving is Some ==> a.write && after.collected@ == kept)
            &&& (after.saving is None ==> !a.write && after.collected@ == kept + data@)
        }),
{
    let mut finished: Option<FinishedField> = None;
    let switching = match &state.working {
        Some(w) => !same_file_name(w.get_file_name(), field.get_file_name()),
        None => false,
    };
    let starting = state.working.is_none() || switching;
    if switching {
        let w = state.working.as_ref().unwrap().duplicate();
        if state.saving.is_some() {
            finished = Some(FinishedField::Saved(w));
        } else {
            let mut gathered: Vec<u8> = Vec::new();
            std::mem::swap(&mut gathered, &mut state.collected);
            finished = Some(FinishedField::Rest(w, gathered));
        }
    }
    let mut create_at: Option<String> = None;
    if starting {
        state.collected = Vec::new();
        state.working = Some(field.duplicate());
        state.saving = find_saving_rule(rules, field);
        match state.saving {
            Some(k) => {
                create_at = Some(file_path_for(&rules[k], field));
            },
            None => {},
        }
    }
    let write = state.saving.is_some();
    if !write {
        extend_bytes(&mut state.collected, data);
    }
    SaveAction { finished, create_at, write }
}

/// What ends when the body does: the field being collected, as saved when
/// it was being saved, else with its bytes when it has any.
pub fn save_finish(state: SaveState) -> (r: Option<FinishedField>)
    ensures
        state.working is None ==> r is None,
        state.working is Some && state.saving is Some ==> (r matches Some(FinishedField::Saved(f)) && f.text()
            == state.working->0.text()),
        state.working is Some && state.saving is None && state.collected@.len() > 0 ==> (r matches Some(
            FinishedField::Rest(f, b),
        ) && f.text() == state.working->0.text() && b@ == state.collected@),
        state.saving is None && state.collected@.len() == 0 ==> r is None,
{
    match state.working {
        None => None,
        Some(w) => {
            if state.saving.is_some() {
                Some(FinishedField::Saved(w))
            } else if state.collected.len() > 0 {
                Some(FinishedField::Rest(w, state.collected))
            } else {
                None
            }
        },
    }
}

} // verus!
