//! Captures on demand: the command that takes one screenshot of a camera,
//! what is told when it fails, and the record of a capture that succeeded.

use crate::clock::{format_rfc3339, format_utc, now_unix_nanos, rfc3339_text, utc_text};
use crate::error::{EngineError, Failure};
use crate::models::{Camera, Capture};
use crate::text::{push_arg, same_text, texts, told, truncate_chars, truncated};
use vstd::prelude::*;

verus! {

/// The most characters of the transcoder's diagnostics that a caller is
/// shown.
pub const DIAGNOSTIC_LIMIT: usize = 200;

/// The text for a moment that the calendar could not write: empty.
pub open spec fn text_or_empty(text: Option<Seq<char>>) -> Seq<char> {
    match text {
        Some(t) => t,
        None => Seq::empty(),
    }
}

/// The day of the moment `now`, as it stands in the path of a capture:
/// year, month and day in UTC.
pub open spec fn capture_date(now: i128) -> Seq<char> {
    text_or_empty(utc_text(now, "[year]-[month]-[day]"@))
}

/// The time of day of the moment `now`, as it stands in the name of a
/// screenshot: hour, minute and second in UTC.
pub open spec fn capture_time(now: i128) -> Seq<char> {
    text_or_empty(utc_text(now, "[hour]-[minute]-[second]"@))
}

/// The directory that holds the captures of the camera `name` of the day
/// `date`.
pub open spec fn capture_dir(name: Seq<char>, date: Seq<char>) -> Seq<char> {
    "/app/data/captures/"@ + name + "/"@ + date
}

/// The name of the screenshot taken at the time of day `time`.
pub open spec fn screenshot_name(time: Seq<char>) -> Seq<char> {
    "screenshot_"@ + time + ".jpg"@
}

/// Where the media server serves the camera `name` for a screenshot.
pub open spec fn screenshot_source(name: Seq<char>) -> Seq<char> {
    "http://localhost:8888/"@ + name + "/"@
}

/// The arguments that make the transcoder write one frame of the stream at
/// `url` to `file_path`, in high quality, over what is there, giving up a
/// connection after five seconds.
pub open spec fn screenshot_args(url: Seq<char>, file_path: Seq<char>) -> Seq<Seq<char>> {
    seq![
        "-y"@,
        "-i"@,
        url,
        "-frames:v"@,
        "1"@,
        "-q:v"@,
        "2"@,
        file_path,
        "-timeout"@,
        "5000000"@,
    ]
}

/// What it takes to take a screenshot: where the file goes, under which path
/// it is recorded, and the arguments of the transcoder.
#[derive(Clone, Debug, PartialEq, Eq)]
pub struct ScreenshotPlan {
    /// The moment of the screenshot, in nanoseconds since the Unix epoch.
    pub taken_at: i128,
    /// The directory of the file, to be made if it is not there.
    pub dir: String,
    /// The name of the file.
    pub filename: String,
    /// The path of the file.
    pub file_path: String,
    /// The path of the file below the root of all captures.
    pub relative_path: String,
    /// The arguments of the transcoder.
    pub args: Vec<String>,
}

/// A screenshot plan as mathematical values.
pub struct ScreenshotPlanView {
    pub taken_at: i128,
    pub dir: Seq<char>,
    pub filename: Seq<char>,
    pub file_path: Seq<char>,
    pub relative_path: Seq<char>,
    pub args: Seq<Seq<char>>,
}

impl View for ScreenshotPlan {
    type V = ScreenshotPlanView;

    open spec fn view(&self) -> ScreenshotPlanView {
        ScreenshotPlanView {
            taken_at: self.taken_at,
            dir: self.dir@,
            filename: self.filename@,
            file_path: self.file_path@,
            relative_path: self.relative_path@,
            args: texts(self.args@),
        }
    }
}

/// The plan for a screenshot of the camera `name` taken at `taken_at`, which
/// the calendar writes as the day `date` and the time of day `time`.
pub open spec fn screenshot_plan(
    name: Seq<char>,
    taken_at: i128,
    date: Seq<char>,
    time: Seq<char>,
) -> ScreenshotPlanView {
    let dir = capture_dir(name, date);
    let filename = screenshot_name(time);
    let file_path = dir + "/"@ + filename;
    ScreenshotPlanView {
        taken_at,
        dir,
        filename,
        file_path,
        relative_path: name + "/"@ + date + "/"@ + filename,
        args: screenshot_args(screenshot_source(name), file_path),
    }
}

/// What a request for a screenshot at the moment `now` comes to, given the
/// camera that was found for it: a camera must exist.
pub open spec fn screenshot_outcome(found: Option<Camera>, now: i128) -> Result<
    ScreenshotPlanView,
    Failure,
> {
    match found {
        None => Err(Failure::NotFound("Cámara no encontrada"@)),
        Some(camera) => Ok(
            screenshot_plan(camera.name@, now, capture_date(now), capture_time(now)),
        ),
    }
}

/// Plans a screenshot of the camera `name` taken at `taken_at`, given the
/// day `date` and the time of day `time` of that moment as texts.
pub fn plan_screenshot(name: &str, taken_at: i128, date: &str, time: &str) -> (plan: ScreenshotPlan)
    ensures
        plan@ == screenshot_plan(name@, taken_at, date@, time@),
{
    let mut dir = String::from_str("/app/data/captures/");
    dir.append(name);
    dir.append("/");
    dir.append(date);
    let mut filename = String::from_str("screenshot_");
    filename.append(time);
    filename.append(".jpg");
    let mut file_path = String::from_str(dir.as_str());
    file_path.append("/");
    file_path.append(filename.as_str());
    let mut relative_path = String::from_str(name);
    relative_path.append("/");
    relative_path.append(date);
    relative_path.append("/");
    relative_path.append(filename.as_str());
    let mut url = String::from_str("http://localhost:8888/");
    url.append(name);
    url.append("/");
    let mut args: Vec<String> = Vec::new();
    push_arg(&mut args, "-y");
    push_arg(&mut args, "-i");
    push_arg(&mut args, url.as_str());
    push_arg(&mut args, "-frames:v");
    push_arg(&mut args, "1");
    push_arg(&mut args, "-q:v");
    push_arg(&mut args, "2");
    push_arg(&mut args, file_path.as_str());
    push_arg(&mut args, "-timeout");
    push_arg(&mut args, "5000000");
    assert(texts(args@) =~= screenshot_args(screenshot_source(name@), file_path@));
    ScreenshotPlan { taken_at, dir, filename, file_path, relative_path, args }
}

/// A text of the calendar, or the empty text where it could write none.
fn or_empty(text: Option<String>) -> (t: String)
    ensures
        t@ == text_or_empty(
            match text {
                Some(s) => Some(s@),
                None => None,
            },
        ),
{
    match text {
        Some(t) => t,
        None => String::new(),
    }
}

/// Decides a request for a screenshot at the moment `now`, in nanoseconds
/// since the Unix epoch, given the camera that was found for it. An absent
/// camera is not found; for any other the result is the plan, with the
/// directory of the day and the file of the time of day in UTC.
pub fn take_screenshot_at(found: Option<&Camera>, now: i128) -> (r: Result<
    ScreenshotPlan,
    EngineError,
>)
    ensures
        match screenshot_outcome(
            match found {
                Some(c) => Some(*c),
                None => None,
            },
            now,
        ) {
            Ok(plan) => r is Ok && r->Ok_0@ == plan,
            Err(failure) => r is Err && r->Err_0@ == failure,
        },
{
    match found {
        None => Err(EngineError::not_found("Cámara no encontrada")),
        Some(camera) => {
            let date = or_empty(format_utc(now, "[year]-[month]-[day]"));
            let time = or_empty(format_utc(now, "[hour]-[minute]-[second]"));
            Ok(plan_screenshot(camera.name.as_str(), now, date.as_str(), time.as_str()))
        },
    }
}

/// Decides a request for a screenshot at the moment that the clock gives,
/// given the camera that was found for it. An absent camera is not found;
/// for any other the result is the plan, which says which moment that was.
pub fn take_screenshot(found: Option<&Camera>) -> (r: Result<ScreenshotPlan, EngineError>)
    ensures
        found is None ==> r is Err && r->Err_0@ == Failure::NotFound("Cámara no encontrada"@),
        found is Some ==> r is Ok && screenshot_outcome(Some(*found->0), r->Ok_0.taken_at) == Ok::<
            ScreenshotPlanView,
            Failure,
        >(r->Ok_0@),
{
    let now = now_unix_nanos();
    take_screenshot_at(found, now)
}

/// What came of the transcoder for a screenshot: it ran and succeeded; it
/// ran and failed, leaving the diagnostics `stderr`, of which the caller is
/// shown the beginning only; or it could not be run.
pub open spec fn screenshot_verdict(ran: Result<bool, Seq<char>>, stderr: Seq<char>) -> Result<
    (),
    Failure,
> {
    match ran {
        Ok(success) => if success {
            Ok(())
        } else {
            Err(
                Failure::InvocationFailed(
                    "Error capturando screenshot: "@ + truncated(stderr, DIAGNOSTIC_LIMIT as nat),
                ),
            )
        },
        Err(_) => Err(Failure::InvocationFailed("ffmpeg no disponible"@)),
    }
}

/// Whatever the transcoder wrote, a failure shows at most the first 200
/// characters of it after its own opening words.
pub proof fn lemma_diagnostic_bounded(ran: Result<bool, Seq<char>>, stderr: Seq<char>)
    requires
        screenshot_verdict(ran, stderr) is Err,
        ran is Ok,
    ensures
        screenshot_verdict(ran, stderr)->Err_0.message().len()
            <= "Error capturando screenshot: "@.len() + DIAGNOSTIC_LIMIT,
        screenshot_verdict(ran, stderr)->Err_0.message() == "Error capturando screenshot: "@
            + truncated(stderr, DIAGNOSTIC_LIMIT as nat),
        truncated(stderr, DIAGNOSTIC_LIMIT as nat).is_prefix_of(stderr),
{
}

/// Judges a run of the transcoder for a screenshot: `ran` says whether it
/// exited with success, or why it could not be run, and `stderr` is what it
/// wrote as diagnostics. A failure carries at most the first 200 characters
/// of the diagnostics, never all of them.
pub fn screenshot_report(ran: Result<bool, String>, stderr: &str) -> (r: Result<(), EngineError>)
    ensures
        match screenshot_verdict(told(ran), stderr@) {
            Ok(_) => r is Ok,
            Err(failure) => r is Err && r->Err_0@ == failure,
        },
{
    match ran {
        Ok(success) => {
            if success {
                Ok(())
            } else {
                let mut message = String::from_str("Error capturando screenshot: ");
                message.append(truncate_chars(stderr, DIAGNOSTIC_LIMIT).as_str());
                Err(EngineError::InvocationFailed(message))
            }
        },
        Err(_) => Err(EngineError::invocation_failed("ffmpeg no disponible")),
    }
}

/// The record of the screenshot of `plan`, stored under the identifier
/// `id` for the camera `camera_id` named `camera_name`, with the file size
/// `file_size` and the creation time `created_at`.
pub fn capture_record_with(
    id: i64,
    camera_id: i64,
    camera_name: &str,
    plan: &ScreenshotPlan,
    file_size: i64,
    created_at: String,
) -> (capture: Capture)
    ensures
        capture.id == id,
        capture.camera_id == camera_id,
        capture.camera_name@ == camera_name@,
        capture.capture_type@ == "screenshot"@,
        capture.file_path@ == plan.relative_path@,
        capture.file_size == file_size,
        capture.created_at == Some(created_at),
{
    Capture {
        id,
        camera_id,
        camera_name: String::from_str(camera_name),
        capture_type: String::from_str("screenshot"),
        file_path: String::from_str(plan.relative_path.as_str()),
        file_size,
        created_at: Some(created_at),
    }
}

/// The record of the screenshot of `plan`, stored under the identifier
/// `id` for the camera `camera_id` named `camera_name`, with the file size
/// `file_size`. It was created at the moment of the plan, written in RFC
/// 3339, or as the empty text where the calendar cannot write that moment.
pub fn capture_record(
    id: i64,
    camera_id: i64,
    camera_name: &str,
    plan: &ScreenshotPlan,
    file_size: i64,
) -> (capture: Capture)
    ensures
        capture.id == id,
        capture.camera_id == camera_id,
        capture.camera_name@ == camera_name@,
        capture.capture_type@ == "screenshot"@,
        capture.file_path@ == plan.relative_path@,
        capture.file_size == file_size,
        capture.created_at is Some,
        capture.created_at->0@ == text_or_empty(rfc3339_text(plan.taken_at)),
{
    let created_at = or_empty(format_rfc3339(plan.taken_at));
    capture_record_with(id, camera_id, camera_name, plan, file_size, created_at)
}

/// The file of the capture recorded under the path `relative_path`.
pub fn capture_file_path(relative_path: &str) -> (path: String)
    ensures
        path@ == "/app/data/captures/"@ + relative_path@,
{
    let mut path = String::from_str("/app/data/captures/");
    path.append(relative_path);
    path
}

/// The file that holds the thumbnail of the camera `name`.
pub fn thumbnail_file(name: &str) -> (path: String)
    ensures
        path@ == "/app/data/thumbnails/"@ + name@ + ".jpg"@,
{
    let mut path = String::from_str("/app/data/thumbnails/");
    path.append(name);
    path.append(".jpg");
    path
}

/// Where the thumbnail of the camera `name` is served.
pub fn thumbnail_link(name: &str) -> (link: String)
    ensures
        link@ == "/data/thumbnails/"@ + name@ + ".jpg"@,
{
    let mut link = String::from_str("/data/thumbnails/");
    link.append(name);
    link.append(".jpg");
    link
}

/// Whether thumbnails are made, given the stored setting: they are unless
/// the setting is stored as something other than `true`.
pub open spec fn thumbnails_on(setting: Option<Seq<char>>) -> bool {
    match setting {
        Some(value) => value == "true"@,
        None => true,
    }
}

/// Reads the stored setting that says whether thumbnails are made.
pub fn get_thumbnail_setting(setting: Option<&str>) -> (enabled: bool)
    ensures
        enabled == thumbnails_on(
            match setting {
                Some(s) => Some(s@),
                None => None,
            },
        ),
{
    match setting {
        Some(value) => same_text(value, "true"),
        None => true,
    }
}

/// Turns the making of thumbnails on or off, given the stored setting: the
/// result is the value to store and whether thumbnails are made from now on,
/// which is the opposite of what the setting said.
pub fn toggle_thumbnails(setting: Option<&str>) -> (r: (&'static str, bool))
    ensures
        r.1 == !thumbnails_on(
            match setting {
                Some(s) => Some(s@),
                None => None,
            },
        ),
        r.1 ==> r.0@ == "true"@,
        !r.1 ==> r.0@ == "false"@,
{
    if get_thumbnail_setting(setting) {
        ("false", false)
    } else {
        ("true", true)
    }
}

} // verus!
