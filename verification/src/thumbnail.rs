//! Recurring snapshots: the name of an artifact, the command that captures
//! one frame, which artifacts a source keeps, and which one is the latest.
//!
//! The artifacts of all sources share one directory. An artifact of a source
//! is a file named `camera_<id>_thumb_<timestamp>.jpg`; the directory is
//! handed in as the list of its file names, in the order in which it was
//! read.

use crate::clock::now_unix_timestamp;
use crate::retention::{artifact_count, least, lemma_retention_count};
use crate::text::{
    matches_at, parse_number, parse_unsigned, push_arg, push_signed_decimal,
    signed_decimal_text, texts, to_chars, told,
};
use vstd::prelude::*;

verus! {

/// The number of artifacts that a source keeps.
pub const RETENTION: usize = 10;

/// The seconds between two captures of a source.
pub const INTERVAL_SECONDS: u64 = 60;

/// How the name of every artifact of the source `camera_id` begins.
pub open spec fn thumbnail_prefix(camera_id: i64) -> Seq<char> {
    "camera_"@ + signed_decimal_text(camera_id as int) + "_thumb_"@
}

/// The name of the artifact of the source `camera_id` captured at
/// `timestamp`, in seconds since the Unix epoch.
pub open spec fn thumbnail_name(camera_id: i64, timestamp: i64) -> Seq<char> {
    thumbnail_prefix(camera_id) + signed_decimal_text(timestamp as int) + ".jpg"@
}

/// The timestamp in the name `name`, where it is the name of an artifact of
/// the source `camera_id`: the name begins as the artifacts of the source
/// do, ends in `.jpg`, and holds an unsigned number of at most 64 bits in
/// between.
pub open spec fn artifact_timestamp(name: Seq<char>, camera_id: i64) -> Option<u64> {
    let prefix = thumbnail_prefix(camera_id);
    let suffix = ".jpg"@;
    if name.len() >= prefix.len() + suffix.len() && name.take(prefix.len() as int) == prefix
        && name.skip(name.len() - suffix.len()) == suffix {
        match parse_unsigned(
            name.subrange(prefix.len() as int, name.len() - suffix.len()),
            u64::MAX as nat,
        ) {
            Some(n) => Some(n as u64),
            None => None,
        }
    } else {
        None
    }
}

/// Whether entry `j` of the listing `names` comes before entry `i` when the
/// artifacts of the source `camera_id` are put newest first: both are
/// artifacts of the source, and `j` is the more recent, or as recent and
/// listed earlier.
pub open spec fn precedes(names: Seq<Seq<char>>, camera_id: i64, j: int, i: int) -> bool {
    match (artifact_timestamp(names[j], camera_id), artifact_timestamp(names[i], camera_id)) {
        (Some(tj), Some(ti)) => tj > ti || (tj == ti && j < i),
        _ => false,
    }
}

/// The number of entries among the first `upto` that come before entry `i`.
pub open spec fn rank_upto(names: Seq<Seq<char>>, camera_id: i64, i: int, upto: int) -> nat
    decreases upto,
{
    if upto <= 0 {
        0
    } else {
        rank_upto(names, camera_id, i, upto - 1) + if precedes(names, camera_id, upto - 1, i) {
            1nat
        } else {
            0nat
        }
    }
}

/// The number of artifacts of the source that come before entry `i` when
/// they are put newest first.
pub open spec fn rank(names: Seq<Seq<char>>, camera_id: i64, i: int) -> nat {
    rank_upto(names, camera_id, i, names.len() as int)
}

/// Whether entry `i` is an artifact of the source that is no longer kept:
/// at least `keep` artifacts of the source come before it.
pub open spec fn expired(names: Seq<Seq<char>>, camera_id: i64, keep: nat, i: int) -> bool {
    artifact_timestamp(names[i], camera_id) is Some && rank(names, camera_id, i) >= keep
}

/// The expired names among the first `upto` entries, in their order.
pub open spec fn expired_upto(names: Seq<Seq<char>>, camera_id: i64, keep: nat, upto: int) -> Seq<
    Seq<char>,
>
    decreases upto,
{
    if upto <= 0 {
        Seq::empty()
    } else if expired(names, camera_id, keep, upto - 1) {
        expired_upto(names, camera_id, keep, upto - 1).push(names[upto - 1])
    } else {
        expired_upto(names, camera_id, keep, upto - 1)
    }
}

/// The names that retention takes out of the listing `names`: every artifact
/// of the source `camera_id` but its `keep` most recent, in the order of the
/// listing.
pub open spec fn expired_names(names: Seq<Seq<char>>, camera_id: i64, keep: nat) -> Seq<
    Seq<char>,
> {
    expired_upto(names, camera_id, keep, names.len() as int)
}

/// Whether entry `i` is the latest artifact of the source: an artifact that
/// no other comes before.
pub open spec fn is_latest(names: Seq<Seq<char>>, camera_id: i64, i: int) -> bool {
    &&& 0 <= i < names.len()
    &&& artifact_timestamp(names[i], camera_id) is Some
    &&& forall|j: int| 0 <= j < names.len() ==> !precedes(names, camera_id, j, i)
}

/// At most one entry is the latest artifact of a source.
pub proof fn lemma_latest_unique(names: Seq<Seq<char>>, camera_id: i64, i: int, j: int)
    requires
        is_latest(names, camera_id, i),
        is_latest(names, camera_id, j),
    ensures
        i == j,
{
    if i != j {
        assert(!precedes(names, camera_id, j, i));
        assert(!precedes(names, camera_id, i, j));
    }
}

/// Writes how the name of every artifact of the source `camera_id` begins.
pub fn thumbnail_prefix_of(camera_id: i64) -> (prefix: String)
    ensures
        prefix@ == thumbnail_prefix(camera_id),
{
    let mut prefix = String::from_str("camera_");
    push_signed_decimal(&mut prefix, camera_id);
    prefix.append("_thumb_");
    prefix
}

/// Writes the name of the artifact of the source `camera_id` captured at
/// `timestamp`.
pub fn thumbnail_filename(camera_id: i64, timestamp: i64) -> (name: String)
    ensures
        name@ == thumbnail_name(camera_id, timestamp),
{
    let mut name = thumbnail_prefix_of(camera_id);
    push_signed_decimal(&mut name, timestamp);
    name.append(".jpg");
    name
}

/// Reads the timestamp in `name`, where it is the name of an artifact of the
/// source `camera_id`.
pub fn thumbnail_timestamp(name: &str, camera_id: i64) -> (timestamp: Option<u64>)
    ensures
        timestamp == artifact_timestamp(name@, camera_id),
{
    let v = to_chars(name);
    let prefix = to_chars(thumbnail_prefix_of(camera_id).as_str());
    let suffix = to_chars(".jpg");
    if prefix.len() > v.len() || suffix.len() > v.len() - prefix.len() {
        return None;
    }
    let end: usize = v.len() - suffix.len();
    proof {
        assert(v@.subrange(0, prefix.len() as int) =~= v@.take(prefix.len() as int));
        assert(v@.subrange(end as int, end + suffix.len()) =~= v@.skip(v.len() - suffix.len()));
    }
    if !matches_at(&v, 0, &prefix) || !matches_at(&v, end, &suffix) {
        return None;
    }
    parse_number(&v, prefix.len(), end, u64::MAX)
}

/// The timestamps of the artifacts of the source `camera_id` in the listing
/// `names`, entry by entry.
fn read_timestamps(camera_id: i64, names: &Vec<String>) -> (stamps: Vec<Option<u64>>)
    ensures
        stamps@.len() == names@.len(),
        forall|k: int|
            0 <= k < names@.len() ==> #[trigger] stamps@[k] == artifact_timestamp(
                texts(names@)[k],
                camera_id,
            ),
{
    let mut stamps: Vec<Option<u64>> = Vec::new();
    let mut k: usize = 0;
    while k < names.len()
        invariant
            k <= names.len(),
            stamps@.len() == k,
            forall|m: int|
                0 <= m < k ==> #[trigger] stamps@[m] == artifact_timestamp(
                    texts(names@)[m],
                    camera_id,
                ),
        decreases names.len() - k,
    {
        stamps.push(thumbnail_timestamp(names[k].as_str(), camera_id));
        k += 1;
    }
    stamps
}

/// Chooses the artifacts that retention deletes: given the names of the
/// files in the snapshot directory, every artifact of the source `camera_id`
/// but its `keep` most recent by the timestamp in their names. Where two
/// artifacts carry the same timestamp the one listed first counts as the
/// more recent. Files that are no artifact of the source are never chosen.
/// Whatever the order of the listing, what is not chosen holds exactly
/// `keep` artifacts of the source, or all of them where there are fewer.
pub fn cleanup_old_thumbnails(camera_id: i64, names: &Vec<String>, keep: usize) -> (doomed: Vec<
    String,
>)
    ensures
        texts(doomed@) == expired_names(texts(names@), camera_id, keep as nat),
        doomed@.len() + least(artifact_count(texts(names@), camera_id), keep as nat)
            == artifact_count(texts(names@), camera_id),
{
    proof {
        lemma_retention_count(texts(names@), camera_id, keep as nat);
    }
    let stamps = read_timestamps(camera_id, names);
    let ghost listing = texts(names@);
    let n: usize = names.len();
    let mut doomed: Vec<String> = Vec::new();
    let mut i: usize = 0;
    assert(texts(doomed@) =~= expired_upto(listing, camera_id, keep as nat, 0));
    while i < n
        invariant
            i <= n,
            n == names@.len(),
            listing == texts(names@),
            stamps@.len() == n,
            forall|k: int|
                0 <= k < n ==> #[trigger] stamps@[k] == artifact_timestamp(listing[k], camera_id),
            texts(doomed@) == expired_upto(listing, camera_id, keep as nat, i as int),
        decreases n - i,
    {
        match stamps[i] {
            Some(ti) => {
                let mut before: usize = 0;
                let mut j: usize = 0;
                while j < n
                    invariant
                        j <= n,
                        i < n,
                        n == names@.len(),
                        listing == texts(names@),
                        stamps@.len() == n,
                        stamps@[i as int] == Some(ti),
                        forall|k: int|
                            0 <= k < n ==> #[trigger] stamps@[k] == artifact_timestamp(
                                listing[k],
                                camera_id,
                            ),
                        before == rank_upto(listing, camera_id, i as int, j as int),
                        before <= j,
                    decreases n - j,
                {
                    let earlier: bool = match stamps[j] {
                        Some(tj) => tj > ti || (tj == ti && j < i),
                        None => false,
                    };
                    assert(earlier == precedes(listing, camera_id, j as int, i as int));
                    if earlier {
                        before += 1;
                    }
                    j += 1;
                }
                if before >= keep {
                    let ghost old_doomed = texts(doomed@);
                    doomed.push(names[i].clone());
                    assert(texts(doomed@) =~= old_doomed.push(listing[i as int]));
                }
            },
            None => {},
        }
        i += 1;
    }
    doomed
}

/// Where the artifact named `name` is served.
pub open spec fn thumbnail_url(name: Seq<char>) -> Seq<char> {
    "/data/thumbnails/"@ + name
}

/// Finds the latest artifact of the source `camera_id` among the names of
/// the files in the snapshot directory, and says where it is served: the
/// artifact with the greatest timestamp in its name, the first listed where
/// several carry it. There is none where the directory holds no artifact of
/// the source.
pub fn get_latest_thumbnail(camera_id: i64, names: &Vec<String>) -> (latest: Option<String>)
    ensures
        match latest {
            Some(url) => exists|i: int|
                is_latest(texts(names@), camera_id, i) && url@ == thumbnail_url(
                    #[trigger] texts(names@)[i],
                ),
            None => forall|i: int|
                0 <= i < names@.len() ==> artifact_timestamp(#[trigger] texts(names@)[i], camera_id)
                    is None,
        },
{
    let stamps = read_timestamps(camera_id, names);
    let ghost listing = texts(names@);
    let n: usize = names.len();
    let mut best: Option<(usize, u64)> = None;
    let mut i: usize = 0;
    while i < n
        invariant
            i <= n,
            n == names@.len(),
            listing == texts(names@),
            stamps@.len() == n,
            forall|k: int|
                0 <= k < n ==> #[trigger] stamps@[k] == artifact_timestamp(listing[k], camera_id),
            match best {
                Some((at, stamp)) => {
                    &&& at < i
                    &&& stamps@[at as int] == Some(stamp)
                    &&& forall|j: int| 0 <= j < i ==> !precedes(listing, camera_id, j, at as int)
                },
                None => forall|j: int| 0 <= j < i ==> (#[trigger] stamps@[j]) is None,
            },
        decreases n - i,
    {
        match stamps[i] {
            Some(ti) => {
                let better: bool = match best {
                    Some((_, stamp)) => ti > stamp,
                    None => true,
                };
                if better {
                    proof {
                        assert forall|j: int| 0 <= j < i + 1 implies !precedes(
                            listing,
                            camera_id,
                            j,
                            i as int,
                        ) by {
                            if j < i {
                                match best {
                                    Some((at, stamp)) => {
                                        assert(!precedes(listing, camera_id, j, at as int));
                                    },
                                    None => {
                                        assert(stamps@[j] is None);
                                    },
                                }
                            }
                        }
                    }
                    best = Some((i, ti));
                }
            },
            None => {},
        }
        i += 1;
    }
    match best {
        Some((at, _)) => {
            let mut url = String::from_str("/data/thumbnails/");
            url.append(names[at].as_str());
            assert(is_latest(listing, camera_id, at as int));
            assert(url@ == thumbnail_url(listing[at as int]));
            Some(url)
        },
        None => {
            assert forall|k: int| 0 <= k < names@.len() implies artifact_timestamp(
                #[trigger] texts(names@)[k],
                camera_id,
            ) is None by {
                assert(stamps@[k] is None);
            }
            None
        },
    }
}

/// The path of the file `name` in the directory `dir`: the two joined by one
/// `/`, unless `dir` is empty or ends in one already.
pub open spec fn joined_path(dir: Seq<char>, name: Seq<char>) -> Seq<char> {
    if dir.len() == 0 {
        name
    } else if dir.last() == '/' {
        dir + name
    } else {
        dir + "/"@ + name
    }
}

/// Writes the path of the file `name` in the directory `dir`.
pub fn join_path(dir: &str, name: &str) -> (path: String)
    ensures
        path@ == joined_path(dir@, name@),
{
    let d = to_chars(dir);
    let mut path = String::from_str(dir);
    if d.len() > 0 && d[d.len() - 1] != '/' {
        path.append("/");
    }
    path.append(name);
    assert(path@ =~= joined_path(dir@, name@));
    path
}

/// Where the media server serves the stream `stream_name` for a capture.
pub open spec fn capture_source(stream_name: Seq<char>) -> Seq<char> {
    "http://localhost:8889/"@ + stream_name
}

/// The arguments that make the transcoder write one frame of the stream at
/// `url` to the file `output`, in high quality, over what is there.
pub open spec fn thumbnail_args(url: Seq<char>, output: Seq<char>) -> Seq<Seq<char>> {
    seq![
        "-rtsp_transport"@,
        "tcp"@,
        "-i"@,
        url,
        "-vframes"@,
        "1"@,
        "-q:v"@,
        "2"@,
        "-y"@,
        output,
    ]
}

/// One capture of a source: when it was planned, the artifact it writes, and
/// the arguments of the transcoder.
#[derive(Clone, Debug, PartialEq, Eq)]
pub struct ThumbnailJob {
    pub timestamp: i64,
    pub filename: String,
    pub output_path: String,
    pub args: Vec<String>,
}

/// A capture as mathematical values.
pub struct ThumbnailJobView {
    pub timestamp: i64,
    pub filename: Seq<char>,
    pub output_path: Seq<char>,
    pub args: Seq<Seq<char>>,
}

impl View for ThumbnailJob {
    type V = ThumbnailJobView;

    open spec fn view(&self) -> ThumbnailJobView {
        ThumbnailJobView {
            timestamp: self.timestamp,
            filename: self.filename@,
            output_path: self.output_path@,
            args: texts(self.args@),
        }
    }
}

/// The capture of the source `camera_id`, published as `stream_name`, into
/// the directory `dir` at the time `timestamp`.
pub open spec fn thumbnail_job(
    camera_id: i64,
    stream_name: Seq<char>,
    dir: Seq<char>,
    timestamp: i64,
) -> ThumbnailJobView {
    let filename = thumbnail_name(camera_id, timestamp);
    let output_path = joined_path(dir, filename);
    ThumbnailJobView {
        timestamp,
        filename,
        output_path,
        args: thumbnail_args(capture_source(stream_name), output_path),
    }
}

/// Plans the capture of the source `camera_id`, published as `stream_name`,
/// into the directory `thumbnail_dir` at the time `timestamp`.
pub fn plan_thumbnail(camera_id: i64, stream_name: &str, thumbnail_dir: &str, timestamp: i64) -> (job:
    ThumbnailJob)
    ensures
        job@ == thumbnail_job(camera_id, stream_name@, thumbnail_dir@, timestamp),
{
    let filename = thumbnail_filename(camera_id, timestamp);
    let output_path = join_path(thumbnail_dir, filename.as_str());
    let mut url = String::from_str("http://localhost:8889/");
    url.append(stream_name);
    let mut args: Vec<String> = Vec::new();
    push_arg(&mut args, "-rtsp_transport");
    push_arg(&mut args, "tcp");
    push_arg(&mut args, "-i");
    push_arg(&mut args, url.as_str());
    push_arg(&mut args, "-vframes");
    push_arg(&mut args, "1");
    push_arg(&mut args, "-q:v");
    push_arg(&mut args, "2");
    push_arg(&mut args, "-y");
    push_arg(&mut args, output_path.as_str());
    assert(texts(args@) =~= thumbnail_args(capture_source(stream_name@), output_path@));
    ThumbnailJob { timestamp, filename, output_path, args }
}

/// Plans the capture of the source `camera_id`, published as `stream_name`,
/// into the directory `thumbnail_dir`, at the time that the clock gives. The
/// job says which time that was.
pub fn capture_thumbnail(camera_id: i64, stream_name: &str, thumbnail_dir: &str) -> (job:
    ThumbnailJob)
    ensures
        job@ == thumbnail_job(camera_id, stream_name@, thumbnail_dir@, job.timestamp),
{
    let timestamp = now_unix_timestamp();
    plan_thumbnail(camera_id, stream_name, thumbnail_dir, timestamp)
}

/// What came of a capture: the transcoder ran and succeeded, it ran and
/// failed with the exit status `status`, or it could not be run.
pub open spec fn capture_outcome(ran: Result<bool, Seq<char>>, status: Seq<char>) -> Result<
    (),
    Seq<char>,
> {
    match ran {
        Ok(success) => if success {
            Ok(())
        } else {
            Err("FFmpeg failed with status: "@ + status)
        },
        Err(reason) => Err("FFmpeg execution failed: "@ + reason),
    }
}

/// Judges a run of the transcoder for a capture: `ran` says whether it
/// exited with success, or why it could not be run, and `status` is its exit
/// status in words. Retention follows a success only.
pub fn capture_report(ran: Result<bool, String>, status: &str) -> (r: Result<(), String>)
    ensures
        match capture_outcome(told(ran), status@) {
            Ok(_) => r is Ok,
            Err(reason) => r is Err && r->Err_0@ == reason,
        },
{
    match ran {
        Ok(success) => {
            if success {
                Ok(())
            } else {
                let mut message = String::from_str("FFmpeg failed with status: ");
                message.append(status);
                Err(message)
            }
        },
        Err(reason) => {
            let mut message = String::from_str("FFmpeg execution failed: ");
            message.append(reason.as_str());
            Err(message)
        },
    }
}

/// The sources whose snapshot task runs. A source is registered when its
/// task is started and deregistered when the task is cancelled, so that no
/// source has two tasks and no task outlives its source.
#[derive(Clone, Debug)]
pub struct SnapshotRegistry {
    sources: Vec<i64>,
}

impl SnapshotRegistry {
    /// Whether the snapshot task of the source `camera_id` runs.
    pub closed spec fn registered(&self, camera_id: i64) -> bool {
        self.sources@.contains(camera_id)
    }

    /// A registry in which no task runs.
    pub fn new() -> (registry: SnapshotRegistry)
        ensures
            forall|camera_id: i64| !registry.registered(camera_id),
    {
        SnapshotRegistry { sources: Vec::new() }
    }

    /// Whether the snapshot task of the source `camera_id` runs.
    pub fn is_registered(&self, camera_id: i64) -> (found: bool)
        ensures
            found == self.registered(camera_id),
    {
        let mut i: usize = 0;
        while i < self.sources.len()
            invariant
                i <= self.sources@.len(),
                forall|j: int| 0 <= j < i ==> self.sources@[j] != camera_id,
            decreases self.sources@.len() - i,
        {
            if self.sources[i] == camera_id {
                return true;
            }
            i += 1;
        }
        false
    }

    /// Registers the source `camera_id`. The result says whether its task is
    /// to be started: it is unless the source was registered already. No
    /// other source is touched.
    pub fn register_source(&mut self, camera_id: i64) -> (start: bool)
        ensures
            start == !old(self).registered(camera_id),
            final(self).registered(camera_id),
            forall|other: i64|
                other != camera_id ==> final(self).registered(other) == old(self).registered(other),
    {
        if self.is_registered(camera_id) {
            return false;
        }
        self.sources.push(camera_id);
        proof {
            let before = old(self).sources@;
            lemma_push_contains(before, camera_id, camera_id);
            assert forall|other: i64| other != camera_id implies self.registered(other) == old(
                self,
            ).registered(other) by {
                lemma_push_contains(before, camera_id, other);
            }
        }
        true
    }

    /// Deregisters the source `camera_id`. The result says whether its task
    /// is to be cancelled: it is if the source was registered. No other
    /// source is touched.
    pub fn deregister_source(&mut self, camera_id: i64) -> (cancel: bool)
        ensures
            cancel == old(self).registered(camera_id),
            !final(self).registered(camera_id),
            forall|other: i64|
                other != camera_id ==> final(self).registered(other) == old(self).registered(other),
    {
        let mut kept: Vec<i64> = Vec::new();
        let mut cancel: bool = false;
        let n: usize = self.sources.len();
        let mut i: usize = 0;
        while i < n
            invariant
                i <= n,
                n == self.sources@.len(),
                forall|x: i64|
                    #[trigger] kept@.contains(x) == (x != camera_id && self.sources@.take(
                        i as int,
                    ).contains(x)),
                cancel == self.sources@.take(i as int).contains(camera_id),
            decreases n - i,
        {
            let source: i64 = self.sources[i];
            let ghost before = self.sources@.take(i as int);
            let ghost held = kept@;
            proof {
                assert(self.sources@.take(i + 1) =~= before.push(source));
                lemma_push_contains(before, source, camera_id);
            }
            if source == camera_id {
                cancel = true;
                proof {
                    assert forall|x: i64| #[trigger]
                        kept@.contains(x) == (x != camera_id && before.push(source).contains(
                            x,
                        )) by {
                        lemma_push_contains(before, source, x);
                    }
                }
            } else {
                kept.push(source);
                proof {
                    assert forall|x: i64| #[trigger]
                        kept@.contains(x) == (x != camera_id && before.push(source).contains(
                            x,
                        )) by {
                        lemma_push_contains(before, source, x);
                        lemma_push_contains(held, source, x);
                    }
                }
            }
            i += 1;
        }
        assert(self.sources@.take(n as int) =~= self.sources@);
        self.sources = kept;
        cancel
    }
}

/// A list that grew by `x` holds `y` when it held `y` before or `y` is `x`.
proof fn lemma_push_contains(s: Seq<i64>, x: i64, y: i64)
    ensures
        s.push(x).contains(y) == (s.contains(y) || y == x),
{
    let t = s.push(x);
    if s.contains(y) {
        let k = choose|k: int| 0 <= k < s.len() && s[k] == y;
        assert(t[k] == y);
    }
    if y == x {
        assert(t[t.len() - 1] == y);
    }
    if t.contains(y) {
        let k = choose|k: int| 0 <= k < t.len() && t[k] == y;
        if k < s.len() {
            assert(s[k] == y);
        }
    }
}

} // verus!
