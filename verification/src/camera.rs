//! Rules on cameras: what a camera needs to be stored, under which name its
//! stream is published, and how it is kept in step with the media server.

use crate::error::{EngineError, Failure};
use crate::models::{Camera, CameraStatus};
use crate::text::{contains_text, decimal_text, has_text, push_decimal, told};
use vstd::prelude::*;

verus! {

/// The name under which the media server publishes the camera `name`.
pub open spec fn stream_name(name: Seq<char>) -> Seq<char> {
    "camera-"@ + name
}

/// What a request to store a camera named `name` at `host` comes to: a
/// camera needs a name and a host.
pub open spec fn camera_outcome(name: Seq<char>, host: Seq<char>) -> Result<Seq<char>, Failure> {
    if name.len() == 0 || host.len() == 0 {
        Err(Failure::InvalidState("name y host son requeridos"@))
    } else {
        Ok(stream_name(name))
    }
}

/// Decides whether the camera `cam` may be stored. A camera without a name
/// or without a host is refused as invalid; for any other the result is
/// the name under which its stream is published and its snapshots are
/// captured.
pub fn create_camera(cam: &Camera) -> (r: Result<String, EngineError>)
    ensures
        match camera_outcome(cam.name@, cam.host@) {
            Ok(stream) => r is Ok && r->Ok_0@ == stream,
            Err(failure) => r is Err && r->Err_0@ == failure,
        },
{
    if cam.name.as_str().is_empty() || cam.host.as_str().is_empty() {
        return Err(EngineError::invalid_state("name y host son requeridos"));
    }
    let mut stream = String::from_str("camera-");
    stream.append(cam.name.as_str());
    Ok(stream)
}

/// Decides whether the camera record `previous` may be replaced by `cam`. A
/// camera without a name or without a host is refused as invalid. For any
/// other the result says which path is to be taken off the media server
/// first: the name of the previous record where there was one under
/// another name, else none.
pub fn update_camera<'a>(cam: &Camera, previous: Option<&'a Camera>) -> (r: Result<
    Option<&'a str>,
    EngineError,
>)
    ensures
        camera_outcome(cam.name@, cam.host@) is Err ==> r is Err && r->Err_0@ == camera_outcome(
            cam.name@,
            cam.host@,
        )->Err_0,
        camera_outcome(cam.name@, cam.host@) is Ok ==> r is Ok && match previous {
            Some(old) => if old.name@ != cam.name@ {
                r->Ok_0 is Some && r->Ok_0->0@ == old.name@
            } else {
                r->Ok_0 is None
            },
            None => r->Ok_0 is None,
        },
{
    if cam.name.as_str().is_empty() || cam.host.as_str().is_empty() {
        return Err(EngineError::invalid_state("name y host son requeridos"));
    }
    match previous {
        Some(old) => {
            if old.name != cam.name {
                Ok(Some(old.name.as_str()))
            } else {
                Ok(None)
            }
        },
        None => Ok(None),
    }
}

/// What a caller is told when the store refused a record: `duplicate` when
/// the store's words `error` speak of a uniqueness rule, else those words.
pub open spec fn storage_complaint(error: Seq<char>, duplicate: Seq<char>) -> Seq<char> {
    if contains_text(error, "UNIQUE"@) {
        duplicate
    } else {
        error
    }
}

/// Makes the failure for a record that the store refused with the words
/// `error`: an invalid state, told as `duplicate` when the store speaks of a
/// uniqueness rule and in the store's own words otherwise.
pub fn storage_failure(error: &str, duplicate: &str) -> (e: EngineError)
    ensures
        e@ == Failure::InvalidState(storage_complaint(error@, duplicate@)),
{
    if has_text(error, "UNIQUE") {
        EngineError::invalid_state(duplicate)
    } else {
        EngineError::invalid_state(error)
    }
}

/// The number of `outcomes` that are `wanted`.
pub open spec fn tally(outcomes: Seq<bool>, wanted: bool) -> nat
    decreases outcomes.len(),
{
    if outcomes.len() == 0 {
        0
    } else {
        tally(outcomes.drop_last(), wanted) + if outcomes.last() == wanted {
            1nat
        } else {
            0nat
        }
    }
}

/// What is told after all enabled cameras were sent to the media server.
pub open spec fn sync_summary(synced: nat, errors: nat) -> Seq<char> {
    "Sync completado: "@ + decimal_text(synced) + " cámaras sincronizadas, "@ + decimal_text(
        errors,
    ) + " errores"@
}

/// Sums up the synchronisation of all enabled cameras with the media
/// server: `outcomes` says of each whether it succeeded.
pub fn sync_all_cameras(outcomes: &Vec<bool>) -> (summary: String)
    ensures
        summary@ == sync_summary(tally(outcomes@, true), tally(outcomes@, false)),
{
    let mut synced: usize = 0;
    let mut errors: usize = 0;
    let mut i: usize = 0;
    assert(outcomes@.take(0) =~= Seq::<bool>::empty());
    while i < outcomes.len()
        invariant
            i <= outcomes.len(),
            synced == tally(outcomes@.take(i as int), true),
            errors == tally(outcomes@.take(i as int), false),
            synced + errors == i,
        decreases outcomes.len() - i,
    {
        proof {
            let next = outcomes@.take(i + 1);
            assert(next.drop_last() =~= outcomes@.take(i as int));
            assert(next.last() == outcomes@[i as int]);
        }
        if outcomes[i] {
            synced += 1;
        } else {
            errors += 1;
        }
        i += 1;
    }
    assert(outcomes@.take(outcomes@.len() as int) =~= outcomes@);
    let mut summary = String::from_str("Sync completado: ");
    push_decimal(&mut summary, synced as u64);
    summary.append(" cámaras sincronizadas, ");
    push_decimal(&mut summary, errors as u64);
    summary.append(" errores");
    summary
}

/// The address of the media server's control plane at `api_url` that does
/// `action` to the configured path `name`.
pub open spec fn path_url(api_url: Seq<char>, action: Seq<char>, name: Seq<char>) -> Seq<char> {
    api_url + "/v3/config/paths/"@ + action + "/"@ + name
}

/// Writes the address that does `action` (`add`, `patch` or `delete`) to the
/// configured path `name` on the control plane at `api_url`.
pub fn path_url_of(api_url: &str, action: &str, name: &str) -> (url: String)
    ensures
        url@ == path_url(api_url@, action@, name@),
{
    let mut url = String::from_str(api_url);
    url.append("/v3/config/paths/");
    url.append(action);
    url.append("/");
    url.append(name);
    url
}

/// Writes the address that lists the paths on the control plane at
/// `api_url`.
pub fn paths_list_url(api_url: &str) -> (url: String)
    ensures
        url@ == api_url@ + "/v3/paths/list"@,
{
    let mut url = String::from_str(api_url);
    url.append("/v3/paths/list");
    url
}

/// What follows an attempt to add a path to the media server.
#[derive(Clone, Debug, PartialEq, Eq)]
pub enum AfterAdd {
    /// The path was added: nothing is left to do.
    Done,
    /// The server refused: the path may exist already, so it is to be
    /// patched.
    Patch,
    /// The server could not be reached, for the reason given.
    Failed(String),
}

/// Decides what follows an attempt to add a path: `added` says whether the
/// server accepted, or why it could not be reached.
pub fn after_add(added: Result<bool, String>) -> (next: AfterAdd)
    ensures
        match added {
            Ok(accepted) => if accepted {
                next == AfterAdd::Done
            } else {
                next == AfterAdd::Patch
            },
            Err(reason) => next == AfterAdd::Failed(reason),
        },
{
    match added {
        Ok(accepted) => {
            if accepted {
                AfterAdd::Done
            } else {
                AfterAdd::Patch
            }
        },
        Err(reason) => AfterAdd::Failed(reason),
    }
}

/// Judges an attempt to patch a path: `patched` says whether the server
/// accepted, or why it could not be reached. Anything but acceptance is a
/// failure of the synchronisation.
pub fn after_patch(patched: Result<bool, String>) -> (r: Result<(), String>)
    ensures
        told(patched) == Ok::<bool, Seq<char>>(true) ==> r is Ok,
        told(patched) != Ok::<bool, Seq<char>>(true) ==> r is Err && r->Err_0@
            == "Error sincronizando con MediaMTX"@,
{
    match patched {
        Ok(accepted) => {
            if accepted {
                Ok(())
            } else {
                Err(String::from_str("Error sincronizando con MediaMTX"))
            }
        },
        Err(_) => Err(String::from_str("Error sincronizando con MediaMTX")),
    }
}

/// The statuses among the first `upto` paths reported by the media server:
/// a path without a name is passed over, and a path that does not say
/// whether it is ready counts as not ready.
pub open spec fn statuses_upto(items: Seq<(Option<String>, Option<bool>)>, upto: int) -> Seq<
    (Seq<char>, bool),
>
    decreases upto,
{
    if upto <= 0 {
        Seq::empty()
    } else {
        match items[upto - 1].0 {
            Some(name) => statuses_upto(items, upto - 1).push(
                (
                    name@,
                    match items[upto - 1].1 {
                        Some(ready) => ready,
                        None => false,
                    },
                ),
            ),
            None => statuses_upto(items, upto - 1),
        }
    }
}

/// What a list of statuses holds, as mathematical values.
pub open spec fn status_values(statuses: Seq<CameraStatus>) -> Seq<(Seq<char>, bool)> {
    Seq::new(statuses.len(), |i: int| (statuses[i].name@, statuses[i].ready))
}

/// Reads the statuses of the cameras from the paths that the media server
/// reported, each given as its name and its readiness where it has them.
pub fn camera_statuses(items: &Vec<(Option<String>, Option<bool>)>) -> (statuses: Vec<
    CameraStatus,
>)
    ensures
        status_values(statuses@) == statuses_upto(items@, items@.len() as int),
{
    let mut statuses: Vec<CameraStatus> = Vec::new();
    let mut i: usize = 0;
    assert(status_values(statuses@) =~= statuses_upto(items@, 0));
    while i < items.len()
        invariant
            i <= items.len(),
            status_values(statuses@) == statuses_upto(items@, i as int),
        decreases items.len() - i,
    {
        match &items[i].0 {
            Some(name) => {
                let ready: bool = match items[i].1 {
                    Some(ready) => ready,
                    None => false,
                };
                let ghost before = status_values(statuses@);
                statuses.push(CameraStatus { name: name.clone(), ready });
                assert(status_values(statuses@) =~= before.push((name@, ready)));
            },
            None => {},
        }
        i += 1;
    }
    statuses
}

} // verus!
