//! Rules on what users type in: which characters of a text are kept, what
//! counts as an e-mail address, and what a password needs.

use crate::clock::{format_rfc3339, now_unix_nanos, rfc3339_text};
use crate::text::{
    char_is_alphanumeric, char_is_lowercase, char_is_numeric, char_is_uppercase,
    byte_len, byte_length, char_is_whitespace, contains_char, is_alphanumeric, is_lowercase, is_numeric, is_uppercase,
    is_whitespace, push_char, same_text,
};
use vstd::prelude::*;

verus! {

/// Whether a character with the given properties is kept in a sanitized
/// text: letters, numbers and white space are, and so are `-`, `_`, `@` and
/// `.`.
pub open spec fn kept(c: char, alphanumeric: bool, whitespace: bool) -> bool {
    alphanumeric || whitespace || c == '-' || c == '_' || c == '@' || c == '.'
}

/// Whether the character `c` is kept in a sanitized text.
pub open spec fn allowed_char(c: char) -> bool {
    kept(c, char_is_alphanumeric(c), char_is_whitespace(c))
}

/// The characters kept in a sanitized text, as a predicate.
pub open spec fn allowed() -> spec_fn(char) -> bool {
    |c: char| allowed_char(c)
}

/// Decides whether a character is kept in a sanitized text, given whether it
/// is a letter or number and whether it is white space.
pub fn keeps(c: char, alphanumeric: bool, whitespace: bool) -> (keep: bool)
    ensures
        keep == kept(c, alphanumeric, whitespace),
{
    alphanumeric || whitespace || c == '-' || c == '_' || c == '@' || c == '.'
}

/// The text `input` without the characters that could carry an injection:
/// only letters, numbers, white space and `-`, `_`, `@`, `.` stay, in their
/// order.
pub fn sanitize_input(input: &str) -> (clean: String)
    ensures
        clean@ == input@.filter(allowed()),
{
    let mut clean = String::new();
    proof {
        reveal(Seq::filter);
        assert(input@.take(0) =~= Seq::<char>::empty());
    }
    for c in it: input.chars()
        invariant
            it.seq() == input@,
            clean@ == input@.take(it.index() as int).filter(allowed()),
    {
        proof {
            reveal(Seq::filter);
            let next = input@.take(it.index() + 1);
            assert(next.drop_last() =~= input@.take(it.index() as int));
            assert(next.last() == c);
        }
        if keeps(c, is_alphanumeric(c), is_whitespace(c)) {
            push_char(&mut clean, c);
        }
    }
    assert(input@.take(input@.len() as int) =~= input@);
    clean
}

/// Whether `email` has the shape of an address: it holds an `@` and a `.`,
/// and is longer than five bytes.
pub open spec fn valid_email(email: Seq<char>) -> bool {
    email.contains('@') && email.contains('.') && byte_length(email) > 5
}

/// Whether `email` has the shape of an e-mail address.
pub fn is_valid_email(email: &str) -> (valid: bool)
    ensures
        valid == valid_email(email@),
{
    contains_char(email, '@') && contains_char(email, '.') && byte_len(email) > 5
}

/// The least number of bytes of a password.
pub const MIN_PASSWORD_BYTES: usize = 8;

/// What is said of a password that is too short.
pub open spec fn password_too_short() -> Seq<char> {
    "La contraseña debe tener al menos 8 caracteres"@
}

/// What is said of a password that lacks a kind of character.
pub open spec fn password_too_plain() -> Seq<char> {
    "La contraseña debe contener mayúsculas, minúsculas y números"@
}

/// The verdict on a password of `bytes` bytes, given whether it holds a
/// lower-case letter, an upper-case letter and a number: the complaint, or
/// `None` when there is none.
pub open spec fn password_complaint(bytes: nat, lower: bool, upper: bool, number: bool) -> Option<
    Seq<char>,
> {
    if bytes < MIN_PASSWORD_BYTES {
        Some(password_too_short())
    } else if !lower || !upper || !number {
        Some(password_too_plain())
    } else {
        None
    }
}

/// Whether some character of `s` is a lower-case letter.
pub open spec fn has_lowercase(s: Seq<char>) -> bool {
    exists|i: int| 0 <= i < s.len() && char_is_lowercase(#[trigger] s[i])
}

/// Whether some character of `s` is an upper-case letter.
pub open spec fn has_uppercase(s: Seq<char>) -> bool {
    exists|i: int| 0 <= i < s.len() && char_is_uppercase(#[trigger] s[i])
}

/// Whether some character of `s` is a number.
pub open spec fn has_number(s: Seq<char>) -> bool {
    exists|i: int| 0 <= i < s.len() && char_is_numeric(#[trigger] s[i])
}

/// Judges a password of `bytes` bytes, given whether it holds a lower-case
/// letter, an upper-case letter and a number.
pub fn password_verdict(bytes: usize, lower: bool, upper: bool, number: bool) -> (verdict: Result<
    (),
    String,
>)
    ensures
        match password_complaint(bytes as nat, lower, upper, number) {
            Some(complaint) => verdict is Err && verdict->Err_0@ == complaint,
            None => verdict is Ok,
        },
{
    if bytes < MIN_PASSWORD_BYTES {
        return Err(String::from_str("La contraseña debe tener al menos 8 caracteres"));
    }
    if !lower || !upper || !number {
        return Err(
            String::from_str("La contraseña debe contener mayúsculas, minúsculas y números"),
        );
    }
    Ok(())
}

/// Judges the strength of a password: at least eight bytes, with a
/// lower-case letter, an upper-case letter and a number among its
/// characters. The error says which of the two rules is broken, the length
/// first.
pub fn validate_password_strength(password: &str) -> (verdict: Result<(), String>)
    ensures
        match password_complaint(
            byte_length(password@),
            has_lowercase(password@),
            has_uppercase(password@),
            has_number(password@),
        ) {
            Some(complaint) => verdict is Err && verdict->Err_0@ == complaint,
            None => verdict is Ok,
        },
{
    let mut lower = false;
    let mut upper = false;
    let mut number = false;
    for c in it: password.chars()
        invariant
            it.seq() == password@,
            lower == has_lowercase(password@.take(it.index() as int)),
            upper == has_uppercase(password@.take(it.index() as int)),
            number == has_number(password@.take(it.index() as int)),
    {
        let ghost before = password@.take(it.index() as int);
        let ghost next = password@.take(it.index() + 1);
        let l = is_lowercase(c);
        let u = is_uppercase(c);
        let n = is_numeric(c);
        proof {
            assert(next[it.index() as int] == c);
            assert forall|i: int| 0 <= i < before.len() implies before[i] == next[i] by {}
            if has_lowercase(next) && !lower && !l {
                let i = choose|i: int| 0 <= i < next.len() && char_is_lowercase(#[trigger] next[i]);
                assert(before[i] == next[i]);
            }
            if has_uppercase(next) && !upper && !u {
                let i = choose|i: int| 0 <= i < next.len() && char_is_uppercase(#[trigger] next[i]);
                assert(before[i] == next[i]);
            }
            if has_number(next) && !number && !n {
                let i = choose|i: int| 0 <= i < next.len() && char_is_numeric(#[trigger] next[i]);
                assert(before[i] == next[i]);
            }
            if lower {
                let i = choose|i: int|
                    0 <= i < before.len() && char_is_lowercase(#[trigger] before[i]);
                assert(next[i] == before[i]);
            }
            if upper {
                let i = choose|i: int|
                    0 <= i < before.len() && char_is_uppercase(#[trigger] before[i]);
                assert(next[i] == before[i]);
            }
            if number {
                let i = choose|i: int|
                    0 <= i < before.len() && char_is_numeric(#[trigger] before[i]);
                assert(next[i] == before[i]);
            }
        }
        lower = lower || l;
        upper = upper || u;
        number = number || n;
    }
    assert(password@.take(password@.len() as int) =~= password@);
    password_verdict(byte_len(password), lower, upper, number)
}

/// The nanoseconds in a second.
pub const NANOS_PER_SECOND: u64 = 1_000_000_000;

/// Whether a request made at `time` still counts at `now` for a window of
/// `window_secs` seconds: less than the window has passed since. Times are
/// nanoseconds on a clock that never runs backwards; a request stamped
/// later than `now` counts as made at `now`.
pub open spec fn in_window(now: u64, window_secs: u64, time: u64) -> bool {
    (if now >= time {
        now - time
    } else {
        0
    }) < window_secs * NANOS_PER_SECOND
}

/// The requests that still count at `now`, as a predicate on their times.
pub open spec fn counting(now: u64, window_secs: u64) -> spec_fn(u64) -> bool {
    |time: u64| in_window(now, window_secs, time)
}

/// The requests of one key that a limiter holds, by their times.
#[derive(Clone, Debug)]
pub struct Bucket {
    pub key: String,
    pub times: Vec<u64>,
}

/// The times recorded under `key` in `buckets`: those of the first bucket
/// with that key, or none.
pub open spec fn recorded_in(buckets: Seq<Bucket>, key: Seq<char>) -> Seq<u64>
    decreases buckets.len(),
{
    if buckets.len() == 0 {
        Seq::empty()
    } else if buckets[0].key@ == key {
        buckets[0].times@
    } else {
        recorded_in(buckets.skip(1), key)
    }
}

/// A limiter of requests: each key may make `max_requests` requests within
/// any window of `window_secs` seconds.
#[derive(Clone, Debug)]
pub struct RateLimiter {
    buckets: Vec<Bucket>,
    max_requests: usize,
    window_secs: u64,
}

impl RateLimiter {
    /// The greatest number of requests of one key within a window.
    pub closed spec fn max_requests(&self) -> usize {
        self.max_requests
    }

    /// The length of the window in seconds.
    pub closed spec fn window_secs(&self) -> u64 {
        self.window_secs
    }

    /// The times of the requests of `key` that the limiter holds.
    pub closed spec fn recorded(&self, key: Seq<char>) -> Seq<u64> {
        recorded_in(self.buckets@, key)
    }

    /// A limiter that has seen no request yet.
    pub fn new(max_requests: usize, window_secs: u64) -> (limiter: RateLimiter)
        ensures
            limiter.max_requests() == max_requests,
            limiter.window_secs() == window_secs,
            forall|key: Seq<char>| (#[trigger] limiter.recorded(key)).len() == 0,
    {
        RateLimiter { buckets: Vec::new(), max_requests, window_secs }
    }

    /// The position of the first bucket for `key`, or the number of buckets
    /// when there is none.
    fn position(&self, key: &str) -> (at: usize)
        ensures
            at <= self.buckets@.len(),
            forall|j: int| 0 <= j < at ==> self.buckets@[j].key@ != key@,
            at < self.buckets@.len() ==> self.buckets@[at as int].key@ == key@,
    {
        let mut i: usize = 0;
        while i < self.buckets.len()
            invariant
                i <= self.buckets@.len(),
                forall|j: int| 0 <= j < i ==> self.buckets@[j].key@ != key@,
            decreases self.buckets@.len() - i,
        {
            if same_text(self.buckets[i].key.as_str(), key) {
                return i;
            }
            i += 1;
        }
        i
    }

    /// Decides a request of `key` made at `now`, in nanoseconds on a clock
    /// that never runs backwards. The requests of the key that no longer
    /// count are forgotten; the request is let through, and recorded, when
    /// fewer than the greatest number still count. The other keys are left
    /// as they are.
    pub fn check_rate_limit(&mut self, key: &str, now: u64) -> (allowed: bool)
        ensures
            final(self).max_requests() == old(self).max_requests(),
            final(self).window_secs() == old(self).window_secs(),
            allowed == (old(self).recorded(key@).filter(
                counting(now, old(self).window_secs()),
            ).len() < old(self).max_requests()),
            final(self).recorded(key@) == if allowed {
                old(self).recorded(key@).filter(counting(now, old(self).window_secs())).push(now)
            } else {
                old(self).recorded(key@).filter(counting(now, old(self).window_secs()))
            },
            forall|other: Seq<char>|
                other != key@ ==> #[trigger] final(self).recorded(other) == old(self).recorded(
                    other,
                ),
    {
        let at = self.position(key);
        let ghost keep = counting(now, self.window_secs);
        let mut recent: Vec<u64> = Vec::new();
        if at < self.buckets.len() {
            proof {
                lemma_recorded_at(self.buckets@, key@, at as int);
                reveal(Seq::filter);
                assert(self.buckets@[at as int].times@.take(0) =~= Seq::<u64>::empty());
            }
            let n: usize = self.buckets[at].times.len();
            let mut i: usize = 0;
            while i < n
                invariant
                    i <= n,
                    at < self.buckets@.len(),
                    n == self.buckets@[at as int].times@.len(),
                    keep == counting(now, self.window_secs),
                    recent@ == self.buckets@[at as int].times@.take(i as int).filter(keep),
                decreases n - i,
            {
                let time: u64 = self.buckets[at].times[i];
                let elapsed: u64 = if now >= time {
                    now - time
                } else {
                    0
                };
                assert(self.window_secs * NANOS_PER_SECOND <= 0xFFFF_FFFF_FFFF_FFFF * 1_000_000_000)
                    by (nonlinear_arith)
                    requires
                        self.window_secs <= 0xFFFF_FFFF_FFFF_FFFF,
                        NANOS_PER_SECOND == 1_000_000_000,
                ;
                let window: u128 = (self.window_secs as u128) * (NANOS_PER_SECOND as u128);
                proof {
                    reveal(Seq::filter);
                    let next = self.buckets@[at as int].times@.take(i + 1);
                    assert(next.drop_last() =~= self.buckets@[at as int].times@.take(i as int));
                    assert(next.last() == time);
                }
                if (elapsed as u128) < window {
                    recent.push(time);
                }
                i += 1;
            }
            assert(self.buckets@[at as int].times@.take(n as int)
                =~= self.buckets@[at as int].times@);
        } else {
            proof {
                lemma_recorded_absent(self.buckets@, key@);
                reveal(Seq::filter);
            }
        }
        assert(recent@ == old(self).recorded(key@).filter(keep));
        let allowed: bool = recent.len() < self.max_requests;
        if allowed {
            recent.push(now);
        }
        if at < self.buckets.len() {
            self.buckets[at].times = recent;
            proof {
                assert(self.buckets@ =~= old(self).buckets@.update(
                    at as int,
                    Bucket { key: old(self).buckets@[at as int].key, times: recent },
                ));
                assert forall|other: Seq<char>|
                    #[trigger] self.recorded(other) == if other == key@ {
                        recent@
                    } else {
                        old(self).recorded(other)
                    } by {
                    lemma_recorded_update(old(self).buckets@, at as int, recent, key@, other);
                }
            }
        } else {
            let bucket = Bucket { key: String::from_str(key), times: recent };
            self.buckets.push(bucket);
            proof {
                assert forall|other: Seq<char>|
                    #[trigger] self.recorded(other) == if other == key@ {
                        recent@
                    } else {
                        old(self).recorded(other)
                    } by {
                    lemma_recorded_append(old(self).buckets@, bucket, other);
                }
            }
        }
        allowed
    }
}

/// The times recorded under the key of bucket `at`, when no earlier bucket
/// has that key, are those of bucket `at`.
proof fn lemma_recorded_at(buckets: Seq<Bucket>, key: Seq<char>, at: int)
    requires
        0 <= at < buckets.len(),
        buckets[at].key@ == key,
        forall|j: int| 0 <= j < at ==> buckets[j].key@ != key,
    ensures
        recorded_in(buckets, key) == buckets[at].times@,
    decreases at,
{
    if at > 0 {
        assert(buckets[0].key@ != key);
        assert forall|j: int| 0 <= j < at - 1 implies buckets.skip(1)[j].key@ != key by {
            assert(buckets.skip(1)[j] == buckets[j + 1]);
        }
        lemma_recorded_at(buckets.skip(1), key, at - 1);
    }
}

/// No time is recorded under a key that no bucket has.
proof fn lemma_recorded_absent(buckets: Seq<Bucket>, key: Seq<char>)
    requires
        forall|j: int| 0 <= j < buckets.len() ==> buckets[j].key@ != key,
    ensures
        recorded_in(buckets, key) == Seq::<u64>::empty(),
    decreases buckets.len(),
{
    if buckets.len() > 0 {
        assert(buckets[0].key@ != key);
        assert forall|j: int| 0 <= j < buckets.skip(1).len() implies buckets.skip(1)[j].key@
            != key by {
            assert(buckets.skip(1)[j] == buckets[j + 1]);
        }
        lemma_recorded_absent(buckets.skip(1), key);
    }
}

/// Replacing the times of bucket `at`, the first with its key, changes what
/// is recorded under that key and under no other.
proof fn lemma_recorded_update(
    buckets: Seq<Bucket>,
    at: int,
    recent: Vec<u64>,
    key: Seq<char>,
    other: Seq<char>,
)
    requires
        0 <= at < buckets.len(),
        buckets[at].key@ == key,
        forall|j: int| 0 <= j < at ==> buckets[j].key@ != key,
    ensures
        recorded_in(buckets.update(at, Bucket { key: buckets[at].key, times: recent }), other)
            == if other == key {
            recent@
        } else {
            recorded_in(buckets, other)
        },
    decreases at,
{
    let updated = buckets.update(at, Bucket { key: buckets[at].key, times: recent });
    if at > 0 {
        assert(buckets[0].key@ != key);
        assert forall|j: int| 0 <= j < at - 1 implies buckets.skip(1)[j].key@ != key by {
            assert(buckets.skip(1)[j] == buckets[j + 1]);
        }
        lemma_recorded_update(buckets.skip(1), at - 1, recent, key, other);
        assert(updated.skip(1) =~= buckets.skip(1).update(
            at - 1,
            Bucket { key: buckets.skip(1)[at - 1].key, times: recent },
        ));
        assert(updated[0] == buckets[0]);
    } else {
        assert(updated.skip(1) =~= buckets.skip(1));
    }
}

/// Appending a bucket for a key that no bucket has records its times under
/// that key and changes nothing under any other.
proof fn lemma_recorded_append(buckets: Seq<Bucket>, bucket: Bucket, other: Seq<char>)
    requires
        forall|j: int| 0 <= j < buckets.len() ==> buckets[j].key@ != bucket.key@,
    ensures
        recorded_in(buckets.push(bucket), other) == if other == bucket.key@ {
            bucket.times@
        } else {
            recorded_in(buckets, other)
        },
    decreases buckets.len(),
{
    let more = buckets.push(bucket);
    if buckets.len() > 0 {
        assert(buckets[0].key@ != bucket.key@);
        assert forall|j: int| 0 <= j < buckets.skip(1).len() implies buckets.skip(1)[j].key@
            != bucket.key@ by {
            assert(buckets.skip(1)[j] == buckets[j + 1]);
        }
        lemma_recorded_append(buckets.skip(1), bucket, other);
        assert(more.skip(1) =~= buckets.skip(1).push(bucket));
        assert(more[0] == buckets[0]);
    } else {
        assert(more.skip(1) =~= Seq::<Bucket>::empty());
        assert(recorded_in(more.skip(1), other) == Seq::<u64>::empty());
    }
}

/// An entry of the audit trail: who did what to which resource, from where,
/// when, and how it ended.
#[derive(Clone, Debug, PartialEq, Eq)]
pub struct AuditLog {
    pub timestamp: String,
    pub user: String,
    pub action: String,
    pub resource: String,
    pub ip_address: String,
    pub status: String,
}

impl AuditLog {
    /// The entry for the action `action` of `user` on `resource` from the
    /// address `ip`, which ended as `status`, at the time written as
    /// `timestamp`.
    pub fn new_at(
        user: &str,
        action: &str,
        resource: &str,
        ip: &str,
        status: &str,
        timestamp: String,
    ) -> (entry: AuditLog)
        ensures
            entry.timestamp == timestamp,
            entry.user@ == user@,
            entry.action@ == action@,
            entry.resource@ == resource@,
            entry.ip_address@ == ip@,
            entry.status@ == status@,
    {
        AuditLog {
            timestamp,
            user: String::from_str(user),
            action: String::from_str(action),
            resource: String::from_str(resource),
            ip_address: String::from_str(ip),
            status: String::from_str(status),
        }
    }

    /// The entry for the action `action` of `user` on `resource` from the
    /// address `ip`, which ended as `status`, at the moment that the clock
    /// gives. The time is written in RFC 3339, or left empty where the
    /// calendar cannot write the moment.
    pub fn new(user: &str, action: &str, resource: &str, ip: &str, status: &str) -> (entry:
        AuditLog)
        ensures
            entry.user@ == user@,
            entry.action@ == action@,
            entry.resource@ == resource@,
            entry.ip_address@ == ip@,
            entry.status@ == status@,
            exists|now: i128|
                entry.timestamp@ == (match #[trigger] rfc3339_text(now) {
                    Some(t) => t,
                    None => Seq::<char>::empty(),
                }),
    {
        let now = now_unix_nanos();
        let timestamp = match format_rfc3339(now) {
            Some(t) => t,
            None => String::new(),
        };
        assert(timestamp@ == (match rfc3339_text(now) {
            Some(t) => t,
            None => Seq::<char>::empty(),
        }));
        AuditLog::new_at(user, action, resource, ip, status, timestamp)
    }
}

} // verus!
