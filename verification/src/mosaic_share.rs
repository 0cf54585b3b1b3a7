//! Share links: what it takes to share a mosaic with outsiders for a while,
//! and when the holder of a link is let in.

use crate::clock::{
    format_rfc3339, format_utc, now_unix_nanos, parse_rfc3339, rfc3339_moment, rfc3339_text,
    utc_text,
};
use crate::error::{EngineError, Failure};
use crate::models::{CreateMosaicShareRequest, MosaicShare, MosaicWithCameras, ShareAccess};
use crate::mosaic::output_path;
use crate::text::{comes_before, push_char, text_before};
use vstd::prelude::*;

verus! {

/// The number of characters of the token of a share link.
pub const TOKEN_LENGTH: usize = 32;

/// The number of characters that a token is drawn from: the ten digits and
/// the twenty-six lower-case letters.
pub const TOKEN_ALPHABET: u8 = 36;

/// The nanoseconds in an hour.
pub const NANOS_PER_HOUR: i128 = 3_600_000_000_000;

/// `Rng::gen_range` of `rand`, on the generator of the thread that `rand`
/// hands out with `thread_rng`, for the range from 0 up to but not
/// including `bound`. The value is drawn at random: all that is claimed is
/// that it lies in the range. An empty range makes `gen_range` panic, so
/// `bound` must be positive.
#[verifier::external_body]
pub(crate) fn random_below(bound: u8) -> (value: u8)
    requires
        bound > 0,
    ensures
        value < bound,
{
    rand::Rng::gen_range(&mut rand::thread_rng(), 0..bound)
}

/// Why the mosaic that was found cannot be shared as the request asks, or
/// `None` when it can: the mosaic must exist, and the request must name at
/// least one address and last at least an hour.
pub open spec fn sharing_complaint(found: bool, emails: nat, duration_hours: i64) -> Option<
    Failure,
> {
    if !found {
        Some(Failure::NotFound("Mosaico no encontrado"@))
    } else if emails == 0 {
        Some(Failure::InvalidState("Se requiere al menos un email"@))
    } else if duration_hours < 1 {
        Some(Failure::InvalidState("La duración mínima es 1 hora"@))
    } else {
        None
    }
}

/// Decides whether a mosaic may be shared as the request `req` asks, given
/// the record that was found for it.
pub fn create_share(req: &CreateMosaicShareRequest, found: Option<&MosaicWithCameras>) -> (r:
    Result<(), EngineError>)
    ensures
        match sharing_complaint(found is Some, req.emails@.len(), req.duration_hours) {
            Some(failure) => r is Err && r->Err_0@ == failure,
            None => r is Ok,
        },
{
    if found.is_none() {
        return Err(EngineError::not_found("Mosaico no encontrado"));
    }
    if req.emails.len() == 0 {
        return Err(EngineError::invalid_state("Se requiere al menos un email"));
    }
    if req.duration_hours < 1 {
        return Err(EngineError::invalid_state("La duración mínima es 1 hora"));
    }
    Ok(())
}

/// The character of a token that stands for the number `index`: a digit for
/// the first ten, a lower-case letter for the others.
pub open spec fn token_symbol(index: u8) -> char {
    if index < 10 {
        ((48 + index) as u8) as char
    } else {
        ((97 + index - 10) as u8) as char
    }
}

/// Whether `c` can stand in a token.
pub open spec fn is_token_char(c: char) -> bool {
    ('0' <= c <= '9') || ('a' <= c <= 'z')
}

/// The character of a token that stands for the number `index`.
pub fn token_char(index: u8) -> (c: char)
    requires
        index < TOKEN_ALPHABET,
    ensures
        c == token_symbol(index),
        is_token_char(c),
{
    // 48 is the code of `0` and 97 the code of `a`.
    if index < 10 {
        let code: u8 = 48 + index;
        code as char
    } else {
        let code: u8 = 97 + index - 10;
        code as char
    }
}

/// Draws the token of a new share link: 32 characters, each a digit or a
/// lower-case letter taken at random.
pub fn share_token() -> (token: String)
    ensures
        token@.len() == TOKEN_LENGTH,
        forall|i: int| 0 <= i < token@.len() ==> is_token_char(#[trigger] token@[i]),
{
    let mut token = String::new();
    let mut i: usize = 0;
    while i < TOKEN_LENGTH
        invariant
            i <= TOKEN_LENGTH,
            token@.len() == i,
            forall|k: int| 0 <= k < token@.len() ==> is_token_char(#[trigger] token@[k]),
        decreases TOKEN_LENGTH - i,
    {
        let index = random_below(TOKEN_ALPHABET);
        push_char(&mut token, token_char(index));
        i += 1;
    }
    token
}

/// The texts `emails` one after the other, with a comma between one and the
/// next.
pub open spec fn joined_emails(emails: Seq<String>) -> Seq<char>
    decreases emails.len(),
{
    if emails.len() == 0 {
        Seq::empty()
    } else if emails.len() == 1 {
        emails[0]@
    } else {
        joined_emails(emails.drop_last()) + ","@ + emails.last()@
    }
}

/// Writes the addresses `emails` as one text, separated by commas.
pub fn join_emails(emails: &Vec<String>) -> (joined: String)
    ensures
        joined@ == joined_emails(emails@),
{
    let mut joined = String::new();
    let mut i: usize = 0;
    assert(emails@.take(0) =~= Seq::<String>::empty());
    while i < emails.len()
        invariant
            i <= emails.len(),
            joined@ == joined_emails(emails@.take(i as int)),
        decreases emails.len() - i,
    {
        if i > 0 {
            joined.append(",");
        }
        joined.append(emails[i].as_str());
        proof {
            let next = emails@.take(i + 1);
            assert(next.drop_last() =~= emails@.take(i as int));
            assert(next.last() == emails@[i as int]);
            if i == 0 {
                assert(joined@ =~= emails@[0]@);
            }
        }
        i += 1;
    }
    assert(emails@.take(emails@.len() as int) =~= emails@);
    joined
}

/// Writes the link that opens the share of `token` on the front end at
/// `frontend_url`.
pub fn share_link(frontend_url: &str, token: &str) -> (link: String)
    ensures
        link@ == frontend_url@ + "/shared/"@ + token@,
{
    let mut link = String::from_str(frontend_url);
    link.append("/shared/");
    link.append(token);
    link
}

/// The moment `hours` hours after `now`, in nanoseconds since the Unix
/// epoch, where that is a number of 128 bits.
pub open spec fn hours_after(now: i128, hours: i64) -> Option<i128> {
    if i128::MIN <= now + hours * NANOS_PER_HOUR <= i128::MAX {
        Some((now + hours * NANOS_PER_HOUR) as i128)
    } else {
        None
    }
}

/// The moment `hours` hours after `now`.
pub fn add_hours(now: i128, hours: i64) -> (later: Option<i128>)
    ensures
        later == hours_after(now, hours),
{
    assert(-0x8000_0000_0000_0000 * 3_600_000_000_000 <= hours * NANOS_PER_HOUR
        <= 0x8000_0000_0000_0000 * 3_600_000_000_000) by (nonlinear_arith)
        requires
            -0x8000_0000_0000_0000 <= hours <= 0x8000_0000_0000_0000,
            NANOS_PER_HOUR == 3_600_000_000_000,
    ;
    let span: i128 = (hours as i128) * NANOS_PER_HOUR;
    now.checked_add(span)
}

/// The time at which a share made at `now` for `hours` hours ends, written
/// in RFC 3339, where the calendar can write it.
pub open spec fn expiry_text(now: i128, hours: i64) -> Option<Seq<char>> {
    match hours_after(now, hours) {
        Some(later) => rfc3339_text(later),
        None => None,
    }
}

/// Writes the time at which a share made at `now` for `hours` hours ends.
/// There is none where that moment lies beyond what the calendar can
/// write.
pub fn share_expiry(now: i128, hours: i64) -> (expires: Option<String>)
    ensures
        match expiry_text(now, hours) {
            Some(text) => expires is Some && expires->0@ == text,
            None => expires is None,
        },
{
    match add_hours(now, hours) {
        Some(later) => format_rfc3339(later),
        None => None,
    }
}

/// What the holder of a share link is given, as mathematical values.
pub struct ShareAccessView {
    pub mosaic_name: Seq<char>,
    pub stream_name: Seq<char>,
    pub expires_at: Seq<char>,
    pub schedule_start: Option<Seq<char>>,
    pub schedule_end: Option<Seq<char>>,
    pub is_active: bool,
}

/// The text of an optional string.
pub open spec fn optional_text(text: Option<String>) -> Option<Seq<char>> {
    match text {
        Some(t) => Some(t@),
        None => None,
    }
}

impl View for ShareAccess {
    type V = ShareAccessView;

    open spec fn view(&self) -> ShareAccessView {
        ShareAccessView {
            mosaic_name: self.mosaic_name@,
            stream_name: self.stream_name@,
            expires_at: self.expires_at@,
            schedule_start: optional_text(self.schedule_start),
            schedule_end: optional_text(self.schedule_end),
            is_active: self.is_active,
        }
    }
}

/// What is said to the holder of a link outside the hours of its share.
pub open spec fn outside_hours(start: Seq<char>, end: Seq<char>) -> Seq<char> {
    "Este mosaico solo está disponible entre "@ + start + " y "@ + end
}

/// Whether the time of day `clock` lies outside the daily window of the
/// share, where it has one: before its start or after its end, in the order
/// of a dictionary.
pub open spec fn outside_window(share: MosaicShare, clock: Seq<char>) -> bool {
    match (share.schedule_start, share.schedule_end) {
        (Some(start), Some(end)) => text_before(clock, start@) || text_before(end@, clock),
        _ => false,
    }
}

/// What the holder of the link `share` is given at the moment `now`, where
/// `expires` is the moment at which the share ends, if its text could be
/// read; `clock` is the time of day of `now`; and `mosaic_active` says
/// whether the mosaic runs, if it still exists. A share that is off, over,
/// or outside its daily window lets nobody in. A share whose end cannot be
/// read never counts as over.
pub open spec fn share_outcome(
    share: MosaicShare,
    now: i128,
    expires: Option<i128>,
    clock: Seq<char>,
    mosaic_active: Option<bool>,
) -> Result<ShareAccessView, Failure> {
    if !share.active {
        Err(Failure::Forbidden("Este enlace ha sido desactivado"@))
    } else if expires is Some && now > expires->0 {
        Err(Failure::Forbidden("Este enlace ha expirado"@))
    } else if outside_window(share, clock) {
        Err(
            Failure::Forbidden(
                outside_hours(share.schedule_start->0@, share.schedule_end->0@),
            ),
        )
    } else {
        Ok(
            ShareAccessView {
                mosaic_name: share.mosaic_name@,
                stream_name: output_path(share.mosaic_name@),
                expires_at: share.expires_at@,
                schedule_start: optional_text(share.schedule_start),
                schedule_end: optional_text(share.schedule_end),
                is_active: match mosaic_active {
                    Some(active) => active,
                    None => false,
                },
            },
        )
    }
}

/// A copy of an optional string.
fn copy_optional(text: &Option<String>) -> (copy: Option<String>)
    ensures
        optional_text(copy) == optional_text(*text),
{
    match text {
        Some(t) => Some(String::from_str(t.as_str())),
        None => None,
    }
}

/// Decides what the holder of the link `share` is given at the moment
/// `now`, where `expires` is the moment at which the share ends, if its
/// text could be read; `clock` is the time of day of `now`, as hours and
/// minutes; and `mosaic_active` says whether the mosaic runs, if it still
/// exists.
pub fn share_verdict(
    share: &MosaicShare,
    now: i128,
    expires: Option<i128>,
    clock: &str,
    mosaic_active: Option<bool>,
) -> (r: Result<ShareAccess, EngineError>)
    ensures
        match share_outcome(*share, now, expires, clock@, mosaic_active) {
            Ok(access) => r is Ok && r->Ok_0@ == access,
            Err(failure) => r is Err && r->Err_0@ == failure,
        },
{
    if !share.active {
        return Err(EngineError::forbidden("Este enlace ha sido desactivado"));
    }
    match expires {
        Some(end) => {
            if now > end {
                return Err(EngineError::forbidden("Este enlace ha expirado"));
            }
        },
        None => {},
    }
    match (&share.schedule_start, &share.schedule_end) {
        (Some(start), Some(end)) => {
            if comes_before(clock, start.as_str()) || comes_before(end.as_str(), clock) {
                let mut message = String::from_str("Este mosaico solo está disponible entre ");
                message.append(start.as_str());
                message.append(" y ");
                message.append(end.as_str());
                return Err(EngineError::Forbidden(message));
            }
        },
        _ => {},
    }
    let mut stream_name = String::from_str("mosaic-");
    stream_name.append(share.mosaic_name.as_str());
    Ok(
        ShareAccess {
            mosaic_name: String::from_str(share.mosaic_name.as_str()),
            stream_name,
            expires_at: String::from_str(share.expires_at.as_str()),
            schedule_start: copy_optional(&share.schedule_start),
            schedule_end: copy_optional(&share.schedule_end),
            is_active: match mosaic_active {
                Some(active) => active,
                None => false,
            },
        },
    )
}

/// The time of day of the moment `now`, as the daily window of a share is
/// written: hours and minutes in UTC, or the empty text where the calendar
/// cannot write the moment.
pub open spec fn window_clock(now: i128) -> Seq<char> {
    match utc_text(now, "[hour]:[minute]"@) {
        Some(text) => text,
        None => Seq::empty(),
    }
}

/// What a request to open a share link at the moment `now` comes to, given
/// the share that was found for its token and whether the mosaic runs, if
/// it still exists: a share must exist, and must let the holder in.
pub open spec fn access_outcome(found: Option<MosaicShare>, now: i128, mosaic_active: Option<bool>) -> Result<
    ShareAccessView,
    Failure,
> {
    match found {
        None => Err(Failure::NotFound("Enlace no válido"@)),
        Some(share) => share_outcome(
            share,
            now,
            rfc3339_moment(share.expires_at@),
            window_clock(now),
            mosaic_active,
        ),
    }
}

/// Decides a request to open a share link at the moment `now`, in
/// nanoseconds since the Unix epoch, given the share that was found for its
/// token, and whether the mosaic runs, if it still exists.
pub fn validate_share_at(found: Option<&MosaicShare>, now: i128, mosaic_active: Option<bool>) -> (r:
    Result<ShareAccess, EngineError>)
    ensures
        match access_outcome(
            match found {
                Some(share) => Some(*share),
                None => None,
            },
            now,
            mosaic_active,
        ) {
            Ok(access) => r is Ok && r->Ok_0@ == access,
            Err(failure) => r is Err && r->Err_0@ == failure,
        },
{
    match found {
        None => Err(EngineError::not_found("Enlace no válido")),
        Some(share) => {
            let expires = parse_rfc3339(share.expires_at.as_str());
            let clock = match format_utc(now, "[hour]:[minute]") {
                Some(text) => text,
                None => String::new(),
            };
            share_verdict(share, now, expires, clock.as_str(), mosaic_active)
        },
    }
}

/// Decides a request to open a share link at the moment that the clock
/// gives, given the share that was found for its token, and whether the
/// mosaic runs, if it still exists. Without a share there is nothing to
/// open; with one, the result is what `validate_share_at` gives for some
/// moment.
pub fn validate_share(found: Option<&MosaicShare>, mosaic_active: Option<bool>) -> (r: Result<
    ShareAccess,
    EngineError,
>)
    ensures
        found is None ==> r is Err && r->Err_0@ == Failure::NotFound("Enlace no válido"@),
        found is Some ==> exists|now: i128|
            match #[trigger] access_outcome(Some(*found->0), now, mosaic_active) {
                Ok(access) => r is Ok && r->Ok_0@ == access,
                Err(failure) => r is Err && r->Err_0@ == failure,
            },
{
    let now = now_unix_nanos();
    let r = validate_share_at(found, now, mosaic_active);
    proof {
        if found is Some {
            assert(match access_outcome(Some(*found->0), now, mosaic_active) {
                Ok(access) => r is Ok && r->Ok_0@ == access,
                Err(failure) => r is Err && r->Err_0@ == failure,
            });
        }
    }
    r
}

} // verus!
