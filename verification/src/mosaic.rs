//! The life cycle of a mosaic: what it takes to start its stream, what is
//! recorded once the transcoder runs, and how it is stopped and removed.
//!
//! Nothing here touches a process or a store. Each step takes the record as
//! it was read and says what to do next: the command to run, the signal to
//! send, the state to write back.

use crate::error::{EngineError, Failure};
use crate::filter_graph::{synthesize, synthesized, Geometry, CELL_HEIGHT, CELL_WIDTH};
use crate::layout::{capacity, layout_max_cameras, layout_of, layout_room, parse_layout};
use crate::models::{
    CreateMosaicRequest, Mosaic, MosaicCamera, MosaicWithCameras, UpdateMosaicRequest,
};
use crate::text::{
    before_first, decimal_text, find_char, lemma_first_index, push_arg, push_decimal,
    push_owned, push_signed_decimal, remove_all, signed_decimal_text, string_of, texts,
    to_chars, told, without,
};
use vstd::prelude::*;

verus! {

/// Whether a mosaic's stream is running, and as which process.
#[derive(Clone, Copy, Debug, PartialEq, Eq)]
pub enum ActivationState {
    /// No process runs for the mosaic.
    Inactive,
    /// The process with this identifier was started for the mosaic. Nothing
    /// says that it still runs.
    Active(i64),
}

impl Mosaic {
    /// The activation state that the record holds. An active record without
    /// a process identifier counts as process 0, the identifier recorded for
    /// a process that gave none.
    pub open spec fn activation(&self) -> ActivationState {
        if self.active {
            ActivationState::Active(
                match self.pid {
                    Some(pid) => pid,
                    None => 0,
                },
            )
        } else {
            ActivationState::Inactive
        }
    }

    /// The record with the activation state `state` and everything else as
    /// it is.
    pub open spec fn with_activation(self, state: ActivationState) -> Mosaic {
        match state {
            ActivationState::Inactive => Mosaic { active: false, pid: None, ..self },
            ActivationState::Active(pid) => Mosaic { active: true, pid: Some(pid), ..self },
        }
    }

    /// The activation state that the record holds.
    pub fn activation_state(&self) -> (state: ActivationState)
        ensures
            state == self.activation(),
    {
        if self.active {
            match self.pid {
                Some(pid) => ActivationState::Active(pid),
                None => ActivationState::Active(0),
            }
        } else {
            ActivationState::Inactive
        }
    }

    /// Writes the activation state `state` into the record.
    pub fn set_activation(&mut self, state: ActivationState)
        ensures
            *final(self) == old(self).with_activation(state),
            final(self).activation() == state,
    {
        match state {
            ActivationState::Inactive => {
                self.active = false;
                self.pid = None;
            },
            ActivationState::Active(pid) => {
                self.active = true;
                self.pid = Some(pid);
            },
        }
    }
}

/// The host of the media server, taken from the address of its control
/// plane: the address without any `http://` and then without any `https://`,
/// up to its first `:`.
pub open spec fn media_host(api_url: Seq<char>) -> Seq<char> {
    before_first(without(without(api_url, "http://"@), "https://"@), ':')
}

/// The path under which the mosaic named `name` is published.
pub open spec fn output_path(name: Seq<char>) -> Seq<char> {
    "mosaic-"@ + name
}

/// The address to which the transcoder publishes the stream of `path` on the
/// media server `host`.
pub open spec fn output_url(host: Seq<char>, path: Seq<char>) -> Seq<char> {
    "rtsp://"@ + host + ":8554/"@ + path
}

/// What a caller is told once the stream of `path` runs: where to play it.
pub open spec fn playback_hint(path: Seq<char>) -> Seq<char> {
    "Mosaico iniciado. Stream: http://localhost:8888/"@ + path + "/index.m3u8"@
}

/// The arguments that make the transcoder read the source at `url`: over
/// TCP, giving up a connection after five seconds.
pub open spec fn source_args(url: Seq<char>) -> Seq<Seq<char>> {
    seq!["-rtsp_transport"@, "tcp"@, "-timeout"@, "5000000"@, "-i"@, url]
}

/// The arguments for all the members `cameras`, in their order.
pub open spec fn input_args(cameras: Seq<MosaicCamera>) -> Seq<Seq<char>>
    decreases cameras.len(),
{
    if cameras.len() == 0 {
        Seq::empty()
    } else {
        input_args(cameras.drop_last()) + source_args(cameras.last().spec_url())
    }
}

/// The arguments that make the transcoder run the filter graph `filter`,
/// encode its output tap as H.264 at the lowest latency with a key frame
/// every 30 frames and no audio, and publish it to `url` over TCP.
pub open spec fn output_args(filter: Seq<char>, url: Seq<char>) -> Seq<Seq<char>> {
    seq![
        "-filter_complex"@,
        filter,
        "-map"@,
        "[out]"@,
        "-c:v"@,
        "libx264"@,
        "-preset"@,
        "ultrafast"@,
        "-tune"@,
        "zerolatency"@,
        "-g"@,
        "30"@,
        "-an"@,
        "-f"@,
        "rtsp"@,
        "-rtsp_transport"@,
        "tcp"@,
        url,
    ]
}

/// The geometry of the grid that the layout text `layout` describes, with
/// cells of the usual size.
pub open spec fn layout_geometry(layout: Seq<char>) -> Geometry {
    Geometry {
        cols: layout_of(layout).0,
        rows: layout_of(layout).1,
        cell_w: CELL_WIDTH,
        cell_h: CELL_HEIGHT,
    }
}

/// The filter expression for the mosaic `m`.
pub open spec fn mosaic_filter(m: MosaicWithCameras) -> Seq<char> {
    synthesized(layout_geometry(m.mosaic.layout@), m.cameras@.len()).text()
}

/// What it takes to start the stream of a mosaic.
#[derive(Clone, Debug, PartialEq, Eq)]
pub struct StartPlan {
    /// The arguments of the transcoder.
    pub args: Vec<String>,
    /// The path under which the stream is published.
    pub output_path: String,
    /// The address to which the transcoder publishes.
    pub output_url: String,
}

/// A start plan as mathematical values.
pub struct StartPlanView {
    pub args: Seq<Seq<char>>,
    pub output_path: Seq<char>,
    pub output_url: Seq<char>,
}

impl View for StartPlan {
    type V = StartPlanView;

    open spec fn view(&self) -> StartPlanView {
        StartPlanView {
            args: texts(self.args@),
            output_path: self.output_path@,
            output_url: self.output_url@,
        }
    }
}

/// The plan to start the mosaic `m` against the media server whose control
/// plane is at `api_url`: overwrite without asking, read every member, run
/// the filter graph of the layout, publish under the mosaic's name.
pub open spec fn start_plan(m: MosaicWithCameras, api_url: Seq<char>) -> StartPlanView {
    let path = output_path(m.mosaic.name@);
    let url = output_url(media_host(api_url), path);
    StartPlanView {
        args: seq!["-y"@] + input_args(m.cameras@) + output_args(mosaic_filter(m), url),
        output_path: path,
        output_url: url,
    }
}

/// What a request to start a mosaic comes to, given the record that was
/// found for it: a mosaic must exist, must not be active, and must have at
/// least one member.
pub open spec fn start_outcome(found: Option<MosaicWithCameras>, api_url: Seq<char>) -> Result<
    StartPlanView,
    Failure,
> {
    match found {
        None => Err(Failure::NotFound("Mosaico no encontrado"@)),
        Some(m) => if m.mosaic.active {
            Err(Failure::Conflict("Mosaico ya está activo"@))
        } else if m.cameras@.len() == 0 {
            Err(Failure::InvalidState("Mosaico no tiene cámaras asignadas"@))
        } else {
            Ok(start_plan(m, api_url))
        },
    }
}

/// The host of the media server whose control plane is at `api_url`.
pub fn media_host_of(api_url: &str) -> (host: String)
    ensures
        host@ == media_host(api_url@),
{
    let url = to_chars(api_url);
    let plain = to_chars("http://");
    let secure = to_chars("https://");
    let bare = remove_all(&remove_all(&url, &plain), &secure);
    let at = find_char(&bare, 0, ':');
    proof {
        lemma_first_index(bare@, ':', at as int);
        assert(bare@.subrange(0, at as int) =~= bare@.take(at as int));
    }
    string_of(&bare, 0, at)
}

/// The path under which the mosaic named `name` is published.
pub fn output_path_of(name: &str) -> (path: String)
    ensures
        path@ == output_path(name@),
{
    let mut path = String::from_str("mosaic-");
    path.append(name);
    path
}

/// The plan to start the mosaic `m`.
fn plan_start(m: &MosaicWithCameras, api_url: &str) -> (plan: StartPlan)
    ensures
        plan@ == start_plan(*m, api_url@),
{
    let mut args: Vec<String> = Vec::new();
    push_arg(&mut args, "-y");
    assert(texts(args@) =~= seq!["-y"@]);
    let n: usize = m.cameras.len();
    let mut i: usize = 0;
    assert(m.cameras@.take(0) =~= Seq::<MosaicCamera>::empty());
    assert(texts(args@) =~= seq!["-y"@] + input_args(m.cameras@.take(0)));
    while i < n
        invariant
            i <= n,
            n == m.cameras.len(),
            texts(args@) == seq!["-y"@] + input_args(m.cameras@.take(i as int)),
        decreases n - i,
    {
        let url = m.cameras[i].url();
        let ghost before = texts(args@);
        push_arg(&mut args, "-rtsp_transport");
        push_arg(&mut args, "tcp");
        push_arg(&mut args, "-timeout");
        push_arg(&mut args, "5000000");
        push_arg(&mut args, "-i");
        push_owned(&mut args, url);
        proof {
            let next = m.cameras@.take(i + 1);
            assert(next.drop_last() =~= m.cameras@.take(i as int));
            assert(next.last() == m.cameras@[i as int]);
            assert(texts(args@) =~= before + source_args(m.cameras@[i as int].spec_url()));
            assert(texts(args@) =~= seq!["-y"@] + input_args(next));
        }
        i += 1;
    }
    assert(m.cameras@.take(n as int) =~= m.cameras@);
    let (cols, rows) = parse_layout(m.mosaic.layout.as_str());
    let graph = synthesize(Geometry::standard(cols, rows), n);
    let filter = graph.render();
    let host = media_host_of(api_url);
    let output_path = output_path_of(m.mosaic.name.as_str());
    let mut target = String::from_str("rtsp://");
    target.append(host.as_str());
    target.append(":8554/");
    target.append(output_path.as_str());
    assert(target@ =~= output_url(media_host(api_url@), output_path@));
    let ghost inputs = texts(args@);
    push_arg(&mut args, "-filter_complex");
    push_owned(&mut args, filter);
    push_arg(&mut args, "-map");
    push_arg(&mut args, graph.output_tap());
    push_arg(&mut args, "-c:v");
    push_arg(&mut args, "libx264");
    push_arg(&mut args, "-preset");
    push_arg(&mut args, "ultrafast");
    push_arg(&mut args, "-tune");
    push_arg(&mut args, "zerolatency");
    push_arg(&mut args, "-g");
    push_arg(&mut args, "30");
    push_arg(&mut args, "-an");
    push_arg(&mut args, "-f");
    push_arg(&mut args, "rtsp");
    push_arg(&mut args, "-rtsp_transport");
    push_arg(&mut args, "tcp");
    push_arg(&mut args, target.as_str());
    assert(texts(args@) =~= inputs + output_args(mosaic_filter(*m), target@));
    StartPlan { args, output_path, output_url: target }
}

/// Decides a request to start a mosaic, given the record that was found for
/// it. An absent mosaic is not found, an active one is a conflict, one
/// without members is in an invalid state; for any other the result is the
/// plan to start it. Nothing is started and nothing is changed here.
pub fn start_mosaic(found: Option<&MosaicWithCameras>, mediamtx_api_url: &str) -> (r: Result<
    StartPlan,
    EngineError,
>)
    ensures
        match start_outcome(
            match found {
                Some(m) => Some(*m),
                None => None,
            },
            mediamtx_api_url@,
        ) {
            Ok(plan) => r is Ok && r->Ok_0@ == plan,
            Err(failure) => r is Err && r->Err_0@ == failure,
        },
{
    match found {
        None => Err(EngineError::not_found("Mosaico no encontrado")),
        Some(m) => {
            if m.mosaic.active {
                Err(EngineError::conflict("Mosaico ya está activo"))
            } else if m.cameras.len() == 0 {
                Err(EngineError::invalid_state("Mosaico no tiene cámaras asignadas"))
            } else {
                Ok(plan_start(m, mediamtx_api_url))
            }
        },
    }
}

/// The process identifier that is recorded for a started transcoder: its
/// own where the system gave one, else 0.
pub open spec fn recorded_pid(id: Option<u32>) -> i64 {
    match id {
        Some(pid) => pid as i64,
        None => 0,
    }
}

/// The record of a mosaic after an attempt to start its transcoder. Only a
/// mosaic that is not active yet becomes active, and only when the
/// transcoder did start; in every other case the record stays as it is.
pub open spec fn after_start(m: Mosaic, spawned: Result<Option<u32>, Seq<char>>) -> Mosaic {
    if m.active {
        m
    } else {
        match spawned {
            Ok(id) => m.with_activation(ActivationState::Active(recorded_pid(id))),
            Err(_) => m,
        }
    }
}

/// What the caller is told after an attempt to start the transcoder for the
/// mosaic `m` with the stream path `path`.
pub open spec fn start_reply(
    m: Mosaic,
    path: Seq<char>,
    spawned: Result<Option<u32>, Seq<char>>,
) -> Result<Seq<char>, Failure> {
    if m.active {
        Err(Failure::Conflict("Mosaico ya está activo"@))
    } else {
        match spawned {
            Ok(_) => Ok(playback_hint(path)),
            Err(reason) => Err(Failure::InvocationFailed("Error iniciando FFmpeg: "@ + reason)),
        }
    }
}

/// Records what came of starting the transcoder with `plan`: `spawned` is
/// the identifier of the new process, where the system gave one, or the
/// reason why none was started.
///
/// The record becomes active only if it was not active and the transcoder
/// started. A record found active is left alone and the caller told of the
/// conflict: two starts of one mosaic never both take effect.
pub fn record_start(mosaic: &mut Mosaic, plan: &StartPlan, spawned: Result<Option<u32>, String>) -> (reply:
    Result<String, EngineError>)
    ensures
        *final(mosaic) == after_start(*old(mosaic), told(spawned)),
        match start_reply(*old(mosaic), plan.output_path@, told(spawned)) {
            Ok(hint) => reply is Ok && reply->Ok_0@ == hint,
            Err(failure) => reply is Err && reply->Err_0@ == failure,
        },
{
    if mosaic.active {
        return Err(EngineError::conflict("Mosaico ya está activo"));
    }
    match spawned {
        Ok(id) => {
            let pid: i64 = match id {
                Some(pid) => pid as i64,
                None => 0,
            };
            mosaic.set_activation(ActivationState::Active(pid));
            let mut hint = String::from_str("Mosaico iniciado. Stream: http://localhost:8888/");
            hint.append(plan.output_path.as_str());
            hint.append("/index.m3u8");
            Ok(hint)
        },
        Err(reason) => {
            let mut message = String::from_str("Error iniciando FFmpeg: ");
            message.append(reason.as_str());
            Err(EngineError::InvocationFailed(message))
        },
    }
}

/// What it takes to stop the stream of a mosaic: the recorded process to
/// signal, if one was recorded.
#[derive(Clone, Copy, Debug, PartialEq, Eq)]
pub struct StopPlan {
    pub pid: Option<i64>,
}

/// What a request to stop a mosaic comes to, given the record that was found
/// for it: a mosaic must exist and must be active.
pub open spec fn stop_outcome(found: Option<MosaicWithCameras>) -> Result<StopPlan, Failure> {
    match found {
        None => Err(Failure::NotFound("Mosaico no encontrado"@)),
        Some(m) => if !m.mosaic.active {
            Err(Failure::Conflict("Mosaico no está activo"@))
        } else {
            Ok(StopPlan { pid: m.mosaic.pid })
        },
    }
}

/// Decides a request to stop a mosaic, given the record that was found for
/// it. An absent mosaic is not found, an inactive one is a conflict, and no
/// signal is to be sent for either; for an active one the result names the
/// recorded process.
pub fn stop_mosaic(found: Option<&MosaicWithCameras>) -> (r: Result<StopPlan, EngineError>)
    ensures
        match stop_outcome(
            match found {
                Some(m) => Some(*m),
                None => None,
            },
        ) {
            Ok(plan) => r == Ok::<StopPlan, EngineError>(plan),
            Err(failure) => r is Err && r->Err_0@ == failure,
        },
{
    match found {
        None => Err(EngineError::not_found("Mosaico no encontrado")),
        Some(m) => {
            if !m.mosaic.active {
                Err(EngineError::conflict("Mosaico no está activo"))
            } else {
                Ok(StopPlan { pid: m.mosaic.pid })
            }
        },
    }
}

/// The arguments of `kill` that ask process `pid` to end.
pub open spec fn signal_args(pid: i64) -> Seq<Seq<char>> {
    seq!["-TERM"@, signed_decimal_text(pid as int)]
}

/// The arguments of `kill` that ask the recorded process to end, or the
/// reason why no signal can be sent: no process was recorded.
pub fn stop_ffmpeg(pid: Option<i64>) -> (r: Result<Vec<String>, String>)
    ensures
        match pid {
            Some(p) => r is Ok && texts(r->Ok_0@) == signal_args(p),
            None => r is Err && r->Err_0@ == "No PID disponible"@,
        },
{
    match pid {
        Some(p) => {
            let mut args: Vec<String> = Vec::new();
            push_arg(&mut args, "-TERM");
            let mut number = String::new();
            push_signed_decimal(&mut number, p);
            assert(number@ =~= signed_decimal_text(p as int));
            push_owned(&mut args, number);
            assert(texts(args@) =~= signal_args(p));
            Ok(args)
        },
        None => Err(String::from_str("No PID disponible")),
    }
}

/// What came of running `kill`: it ran and succeeded, it ran and failed with
/// the exit status `status`, or it could not be run for the reason given.
pub open spec fn signal_outcome(ran: Result<bool, Seq<char>>, status: Seq<char>) -> Result<
    (),
    Seq<char>,
> {
    match ran {
        Ok(success) => if success {
            Ok(())
        } else {
            Err("kill failed: "@ + status)
        },
        Err(reason) => Err("Error ejecutando kill: "@ + reason),
    }
}

/// Judges a run of `kill`: `ran` says whether it exited with success, or
/// why it could not be run, and `status` is its exit status in words.
pub fn signal_report(ran: Result<bool, String>, status: &str) -> (r: Result<(), String>)
    ensures
        match signal_outcome(told(ran), status@) {
            Ok(_) => r is Ok,
            Err(reason) => r is Err && r->Err_0@ == reason,
        },
{
    match ran {
        Ok(success) => {
            if success {
                Ok(())
            } else {
                let mut message = String::from_str("kill failed: ");
                message.append(status);
                Err(message)
            }
        },
        Err(reason) => {
            let mut message = String::from_str("Error ejecutando kill: ");
            message.append(reason.as_str());
            Err(message)
        },
    }
}

/// The record of a mosaic after a stop, whatever came of the signal.
pub open spec fn after_stop(m: Mosaic) -> Mosaic {
    m.with_activation(ActivationState::Inactive)
}

/// What the caller is told after a stop: that the mosaic was stopped, or,
/// when the signal failed, that it was marked as stopped.
pub open spec fn stop_reply(signalled: Result<(), Seq<char>>) -> Seq<char> {
    match signalled {
        Ok(_) => "Mosaico detenido"@,
        Err(_) => "Mosaico marcado como detenido"@,
    }
}

/// Records a stop. The record becomes inactive and loses its process
/// identifier whether the signal succeeded or not: a mosaic that cannot be
/// ended cleanly is never left active. A failed signal only changes what
/// the caller is told.
pub fn record_stop(mosaic: &mut Mosaic, signalled: &Result<(), String>) -> (reply: String)
    ensures
        *final(mosaic) == after_stop(*old(mosaic)),
        !final(mosaic).active,
        final(mosaic).pid is None,
        reply@ == stop_reply(told(*signalled)),
{
    mosaic.set_activation(ActivationState::Inactive);
    match signalled {
        Ok(_) => String::from_str("Mosaico detenido"),
        Err(_) => String::from_str("Mosaico marcado como detenido"),
    }
}

/// Decides what comes before a mosaic is removed: an active one is stopped
/// first, and the result names its recorded process; for any other there is
/// nothing to stop.
pub fn delete_mosaic(found: Option<&MosaicWithCameras>) -> (stop: Option<StopPlan>)
    ensures
        stop == match found {
            Some(m) => if m.mosaic.active {
                Some(StopPlan { pid: m.mosaic.pid })
            } else {
                None
            },
            None => None::<StopPlan>,
        },
{
    match found {
        Some(m) => {
            if m.mosaic.active {
                Some(StopPlan { pid: m.mosaic.pid })
            } else {
                None
            }
        },
        None => None,
    }
}

/// What the caller is told after the removal of a mosaic: `removed` says
/// whether the store held it.
pub fn delete_reply(removed: bool) -> (r: Result<String, EngineError>)
    ensures
        removed ==> r is Ok && r->Ok_0@ == "Mosaico eliminado"@,
        !removed ==> r is Err && r->Err_0@ == Failure::NotFound("Mosaico no encontrado"@),
{
    if removed {
        Ok(String::from_str("Mosaico eliminado"))
    } else {
        Err(EngineError::not_found("Mosaico no encontrado"))
    }
}

/// The record of a mosaic after the reconciliation at startup: no process
/// outlives a restart, so every active record becomes inactive.
pub open spec fn reconciled(m: Mosaic) -> Mosaic {
    if m.active {
        m.with_activation(ActivationState::Inactive)
    } else {
        m
    }
}

/// The identifiers of the active mosaics among `mosaics`, in their order.
pub open spec fn orphaned(mosaics: Seq<Mosaic>) -> Seq<i64>
    decreases mosaics.len(),
{
    if mosaics.len() == 0 {
        Seq::empty()
    } else if mosaics.last().active {
        orphaned(mosaics.drop_last()).push(mosaics.last().id)
    } else {
        orphaned(mosaics.drop_last())
    }
}

/// Reconciles the records of all mosaics at startup: every active one
/// becomes inactive and loses its process identifier, and the others stay
/// as they are. The result holds the identifiers of the records that were
/// changed, in their order.
pub fn cleanup_orphaned_mosaics(mosaics: &mut Vec<Mosaic>) -> (reset: Vec<i64>)
    ensures
        final(mosaics)@.len() == old(mosaics)@.len(),
        forall|i: int|
            0 <= i < old(mosaics)@.len() ==> #[trigger] final(mosaics)@[i] == reconciled(
                old(mosaics)@[i],
            ),
        forall|i: int| 0 <= i < final(mosaics)@.len() ==> !(#[trigger] final(mosaics)@[i]).active,
        forall|i: int|
            0 <= i < old(mosaics)@.len() && old(mosaics)@[i].active ==> (
            #[trigger] final(mosaics)@[i]).pid is None,
        reset@ == orphaned(old(mosaics)@),
{
    let mut reset: Vec<i64> = Vec::new();
    let n: usize = mosaics.len();
    let mut i: usize = 0;
    assert(old(mosaics)@.take(0) =~= Seq::<Mosaic>::empty());
    while i < n
        invariant
            i <= n,
            n == mosaics@.len(),
            n == old(mosaics)@.len(),
            forall|k: int| 0 <= k < i ==> #[trigger] mosaics@[k] == reconciled(old(mosaics)@[k]),
            forall|k: int| i <= k < n ==> #[trigger] mosaics@[k] == old(mosaics)@[k],
            reset@ == orphaned(old(mosaics)@.take(i as int)),
        decreases n - i,
    {
        proof {
            let next = old(mosaics)@.take(i + 1);
            assert(next.drop_last() =~= old(mosaics)@.take(i as int));
            assert(next.last() == old(mosaics)@[i as int]);
        }
        if mosaics[i].active {
            reset.push(mosaics[i].id);
            mosaics[i].active = false;
            mosaics[i].pid = None;
        }
        i += 1;
    }
    assert(old(mosaics)@.take(n as int) =~= old(mosaics)@);
    reset
}

/// The arguments of `kill` that ask whether process `pid` exists, without
/// sending it any signal.
pub open spec fn probe_args(pid: i64) -> Seq<Seq<char>> {
    seq!["-0"@, signed_decimal_text(pid as int)]
}

/// The arguments of `kill` that ask whether the process recorded for an
/// active mosaic still exists. There are none for a mosaic that is not
/// active, or that has no process recorded: of those nothing can be asked.
pub fn liveness_probe(mosaic: &Mosaic) -> (args: Option<Vec<String>>)
    ensures
        match (mosaic.active, mosaic.pid) {
            (true, Some(pid)) => args is Some && texts(args->0@) == probe_args(pid),
            _ => args is None,
        },
{
    if !mosaic.active {
        return None;
    }
    match mosaic.pid {
        Some(pid) => {
            let mut args: Vec<String> = Vec::new();
            push_arg(&mut args, "-0");
            let mut number = String::new();
            push_signed_decimal(&mut number, pid);
            assert(number@ =~= signed_decimal_text(pid as int));
            push_owned(&mut args, number);
            assert(texts(args@) =~= probe_args(pid));
            Some(args)
        },
        None => None,
    }
}

/// The record of a mosaic after its process was looked for: an active
/// mosaic whose process is gone becomes inactive, and any other record
/// stays as it is.
pub open spec fn after_probe(m: Mosaic, alive: bool) -> Mosaic {
    if m.active && !alive {
        m.with_activation(ActivationState::Inactive)
    } else {
        m
    }
}

/// Records what came of looking for the process of a mosaic: `alive` says
/// whether it still exists. An active mosaic whose process is gone becomes
/// inactive and loses its process identifier; the result says whether that
/// happened, so that the change can be written back and told.
pub fn reap(mosaic: &mut Mosaic, alive: bool) -> (reaped: bool)
    ensures
        *final(mosaic) == after_probe(*old(mosaic), alive),
        reaped == (old(mosaic).active && !alive),
{
    if mosaic.active && !alive {
        mosaic.set_activation(ActivationState::Inactive);
        true
    } else {
        false
    }
}

/// A mosaic that is started twice without a stop in between becomes active
/// once: the first start, when the transcoder starts, makes it active with
/// the process recorded, and the second is refused as a conflict at both of
/// its steps and changes nothing.
pub proof fn lemma_start_is_exclusive(
    m: MosaicWithCameras,
    api_url: Seq<char>,
    first: Option<u32>,
    second: Result<Option<u32>, Seq<char>>,
)
    requires
        start_outcome(Some(m), api_url) is Ok,
    ensures
        ({
            let started = after_start(m.mosaic, Ok(first));
            let again = MosaicWithCameras { mosaic: started, cameras: m.cameras };
            &&& m.mosaic.activation() == ActivationState::Inactive
            &&& started.activation() == ActivationState::Active(recorded_pid(first))
            &&& start_reply(m.mosaic, output_path(m.mosaic.name@), Ok(first)) is Ok
            &&& start_outcome(Some(again), api_url) == Err::<StartPlanView, Failure>(
                Failure::Conflict("Mosaico ya está activo"@),
            )
            &&& start_reply(started, output_path(m.mosaic.name@), second) == Err::<
                Seq<char>,
                Failure,
            >(Failure::Conflict("Mosaico ya está activo"@))
            &&& after_start(started, second) == started
        }),
{
}

/// A start that fails to run the transcoder leaves the mosaic as it was,
/// inactive, and tells the caller why.
pub proof fn lemma_failed_start_changes_nothing(m: Mosaic, path: Seq<char>, reason: Seq<char>)
    requires
        !m.active,
    ensures
        after_start(m, Err(reason)) == m,
        start_reply(m, path, Err(reason)) == Err::<Seq<char>, Failure>(
            Failure::InvocationFailed("Error iniciando FFmpeg: "@ + reason),
        ),
{
}

/// A stop leaves the mosaic inactive, without a process identifier, whatever
/// its record held and whether or not the signal succeeded; and a stop that
/// follows is a conflict.
pub proof fn lemma_stop_always_inactive(m: MosaicWithCameras)
    ensures
        after_stop(m.mosaic).activation() == ActivationState::Inactive,
        !after_stop(m.mosaic).active,
        after_stop(m.mosaic).pid is None,
        stop_outcome(Some(MosaicWithCameras { mosaic: after_stop(m.mosaic), cameras: m.cameras }))
            == Err::<StopPlan, Failure>(Failure::Conflict("Mosaico no está activo"@)),
{
}

/// After the reconciliation at startup no mosaic is active, whatever the
/// store held: each record that was active is inactive and has no process
/// identifier, and each record that was well formed still is.
pub proof fn lemma_reconciled_inactive(m: Mosaic)
    ensures
        reconciled(m).activation() == ActivationState::Inactive,
        m.active ==> reconciled(m).pid is None,
        !m.active ==> reconciled(m) == m,
        reconciled(reconciled(m)) == reconciled(m),
{
}

/// What is said of a mosaic with more members than its layout has room for.
pub open spec fn too_many_members(layout: Seq<char>, members: nat) -> Seq<char> {
    "Layout "@ + layout + " soporta máximo "@ + decimal_text(layout_room(layout))
        + " cámaras, se enviaron "@ + decimal_text(members)
}

/// Why a mosaic named `name`, laid out as `layout`, with `members` members
/// cannot be created, or `None` when it can: it needs a name, at least one
/// member, and no more members than the grid of its layout has cells.
pub open spec fn creation_complaint(name: Seq<char>, layout: Seq<char>, members: nat) -> Option<
    Seq<char>,
> {
    if name.len() == 0 {
        Some("name es requerido"@)
    } else if members == 0 {
        Some("Se requiere al menos una cámara"@)
    } else if members > capacity(layout_of(layout).0, layout_of(layout).1) {
        Some(too_many_members(layout, members))
    } else {
        None
    }
}

/// Decides whether the mosaic of the request `req` may be created. It is
/// refused as invalid, with the reason, when it has no name, no member, or
/// more members than its layout has room for.
pub fn create_mosaic(req: &CreateMosaicRequest) -> (r: Result<(), EngineError>)
    ensures
        match creation_complaint(req.name@, req.layout@, req.camera_ids@.len()) {
            Some(complaint) => r is Err && r->Err_0@ == Failure::InvalidState(complaint),
            None => r is Ok,
        },
{
    if req.name.as_str().is_empty() {
        return Err(EngineError::invalid_state("name es requerido"));
    }
    let members: usize = req.camera_ids.len();
    if members == 0 {
        return Err(EngineError::invalid_state("Se requiere al menos una cámara"));
    }
    let room: usize = layout_max_cameras(req.layout.as_str());
    if members > room {
        let mut message = String::from_str("Layout ");
        message.append(req.layout.as_str());
        message.append(" soporta máximo ");
        push_decimal(&mut message, room as u64);
        message.append(" cámaras, se enviaron ");
        push_decimal(&mut message, members as u64);
        return Err(EngineError::InvalidState(message));
    }
    Ok(())
}

/// Why a mosaic laid out as `layout` cannot take `members` members, or
/// `None` when it can: a mosaic never has more members than the grid of its
/// layout has cells.
pub open spec fn membership_complaint(layout: Seq<char>, members: nat) -> Option<Seq<char>> {
    if members > capacity(layout_of(layout).0, layout_of(layout).1) {
        Some(too_many_members(layout, members))
    } else {
        None
    }
}

/// Decides whether a mosaic may be changed as the request `req` asks. It is
/// refused as invalid, with the reason, when it would have more members than
/// its layout has room for.
pub fn update_mosaic(req: &UpdateMosaicRequest) -> (r: Result<(), EngineError>)
    ensures
        match membership_complaint(req.layout@, req.camera_ids@.len()) {
            Some(complaint) => r is Err && r->Err_0@ == Failure::InvalidState(complaint),
            None => r is Ok,
        },
{
    let members: usize = req.camera_ids.len();
    let room: usize = layout_max_cameras(req.layout.as_str());
    if members > room {
        let mut message = String::from_str("Layout ");
        message.append(req.layout.as_str());
        message.append(" soporta máximo ");
        push_decimal(&mut message, room as u64);
        message.append(" cámaras, se enviaron ");
        push_decimal(&mut message, members as u64);
        return Err(EngineError::InvalidState(message));
    }
    Ok(())
}

/// Two starts of one mosaic that both pass the first step, each before the
/// other recorded anything, still make one activation: whichever records
/// first makes the mosaic active with its process, and the other is refused
/// as a conflict when it comes to record, whatever its own spawn gave, and
/// changes nothing.
pub proof fn lemma_concurrent_starts_activate_once(
    m: MosaicWithCameras,
    api_url: Seq<char>,
    first: Option<u32>,
    second: Result<Option<u32>, Seq<char>>,
)
    requires
        start_outcome(Some(m), api_url) is Ok,
    ensures
        ({
            let path = output_path(m.mosaic.name@);
            let once = after_start(m.mosaic, Ok(first));
            let twice = after_start(once, second);
            &&& start_reply(m.mosaic, path, Ok(first)) is Ok
            &&& once.activation() == ActivationState::Active(recorded_pid(first))
            &&& start_reply(once, path, second) == Err::<Seq<char>, Failure>(
                Failure::Conflict("Mosaico ya está activo"@),
            )
            &&& twice == once
            &&& twice.activation() == ActivationState::Active(recorded_pid(first))
        }),
{
}

} // verus!
