//! What retention leaves of the snapshots of a source over time.
//!
//! A successful capture writes its artifact into the snapshot directory and
//! then deletes what retention chooses. This module proves how many
//! artifacts one run of retention leaves, whatever the directory holds, and
//! follows a directory through a run of captures to what is left at the end.

use crate::text::{lemma_parse_decimal_text, signed_decimal_text};
use crate::thumbnail::{
    artifact_timestamp, expired, expired_names, expired_upto, precedes, rank, rank_upto,
    thumbnail_name, thumbnail_prefix,
};
use vstd::prelude::*;

verus! {

/// The names among the first `upto` entries that retention leaves, in their
/// order.
pub open spec fn retained_upto(names: Seq<Seq<char>>, camera_id: i64, keep: nat, upto: int) -> Seq<
    Seq<char>,
>
    decreases upto,
{
    if upto <= 0 {
        Seq::empty()
    } else if expired(names, camera_id, keep, upto - 1) {
        retained_upto(names, camera_id, keep, upto - 1)
    } else {
        retained_upto(names, camera_id, keep, upto - 1).push(names[upto - 1])
    }
}

/// The listing `names` once the names that retention chooses for the source
/// `camera_id` are deleted.
pub open spec fn retained_names(names: Seq<Seq<char>>, camera_id: i64, keep: nat) -> Seq<
    Seq<char>,
> {
    retained_upto(names, camera_id, keep, names.len() as int)
}

/// The directory `dir` after one successful capture of the source
/// `camera_id` at `timestamp`: the artifact is written, listed last when its
/// name is new, and retention deletes what it chooses.
pub open spec fn after_tick(dir: Seq<Seq<char>>, camera_id: i64, timestamp: i64, keep: nat) -> Seq<
    Seq<char>,
> {
    let name = thumbnail_name(camera_id, timestamp);
    let written = if dir.contains(name) {
        dir
    } else {
        dir.push(name)
    };
    retained_names(written, camera_id, keep)
}

/// The directory `dir` after successful captures of the source `camera_id`
/// at each of the times `ticks`, one after the other.
pub open spec fn after_ticks(dir: Seq<Seq<char>>, camera_id: i64, ticks: Seq<i64>, keep: nat) -> Seq<
    Seq<char>,
>
    decreases ticks.len(),
{
    if ticks.len() == 0 {
        dir
    } else {
        after_tick(
            after_ticks(dir, camera_id, ticks.drop_last(), keep),
            camera_id,
            ticks.last(),
            keep,
        )
    }
}

/// The names of the artifacts of the source `camera_id` captured at the
/// times `stamps`, in their order.
pub open spec fn names_of(camera_id: i64, stamps: Seq<i64>) -> Seq<Seq<char>> {
    Seq::new(stamps.len(), |k: int| thumbnail_name(camera_id, stamps[k]))
}

/// Whether the times `stamps` are at or after the Unix epoch and each later
/// than the one before.
pub open spec fn ascending(stamps: Seq<i64>) -> bool {
    &&& forall|k: int| 0 <= k < stamps.len() ==> 0 <= #[trigger] stamps[k]
    &&& forall|a: int, b: int| 0 <= a < b < stamps.len() ==> stamps[a] < stamps[b]
}

/// Whether the directory `dir` holds no artifact of the source `camera_id`.
pub open spec fn foreign(dir: Seq<Seq<char>>, camera_id: i64) -> bool {
    forall|i: int| 0 <= i < dir.len() ==> artifact_timestamp(#[trigger] dir[i], camera_id) is None
}

/// The name written for a capture at or after the Unix epoch reads back as
/// an artifact of the same source with the same timestamp.
pub proof fn lemma_name_round_trip(camera_id: i64, timestamp: i64)
    requires
        timestamp >= 0,
    ensures
        artifact_timestamp(thumbnail_name(camera_id, timestamp), camera_id) == Some(
            timestamp as u64,
        ),
{
    let prefix = thumbnail_prefix(camera_id);
    let suffix = ".jpg"@;
    let middle = signed_decimal_text(timestamp as int);
    let name = thumbnail_name(camera_id, timestamp);
    assert(name.take(prefix.len() as int) =~= prefix);
    assert(name.skip(name.len() - suffix.len()) =~= suffix);
    assert(name.subrange(prefix.len() as int, name.len() - suffix.len()) =~= middle);
    lemma_parse_decimal_text(timestamp as nat, u64::MAX as nat);
}

/// In a directory that lists files of others first and then the artifacts of
/// the source in ascending order of time, the rank of an artifact among the
/// first `upto` entries is the number of those that stand after it.
proof fn lemma_rank_upto(
    base: Seq<Seq<char>>,
    camera_id: i64,
    stamps: Seq<i64>,
    k: int,
    upto: int,
)
    requires
        foreign(base, camera_id),
        ascending(stamps),
        0 <= k < stamps.len(),
        0 <= upto <= base.len() + stamps.len(),
    ensures
        rank_upto(base + names_of(camera_id, stamps), camera_id, base.len() + k, upto) == if upto
            <= base.len() + k + 1 {
            0
        } else {
            upto - base.len() - k - 1
        },
    decreases upto,
{
    if upto > 0 {
        lemma_rank_upto(base, camera_id, stamps, k, upto - 1);
        let listing = base + names_of(camera_id, stamps);
        let i = base.len() + k;
        let j = upto - 1;
        lemma_name_round_trip(camera_id, stamps[k]);
        assert(listing[i] == thumbnail_name(camera_id, stamps[k]));
        if j < base.len() {
            assert(listing[j] == base[j]);
            assert(!precedes(listing, camera_id, j, i));
        } else {
            let m = j - base.len();
            lemma_name_round_trip(camera_id, stamps[m]);
            assert(listing[j] == thumbnail_name(camera_id, stamps[m]));
            if m < k {
                assert(stamps[m] < stamps[k]);
            } else if m > k {
                assert(stamps[k] < stamps[m]);
            }
            assert(precedes(listing, camera_id, j, i) == (m > k));
        }
    }
}

/// In such a directory retention leaves the files of others and the `keep`
/// last artifacts of the source.
proof fn lemma_retained_upto(
    base: Seq<Seq<char>>,
    camera_id: i64,
    stamps: Seq<i64>,
    keep: nat,
    upto: int,
)
    requires
        foreign(base, camera_id),
        ascending(stamps),
        0 <= upto <= base.len() + stamps.len(),
    ensures
        retained_upto(base + names_of(camera_id, stamps), camera_id, keep, upto) == if upto
            <= base.len() {
            base.take(upto)
        } else {
            base + names_of(camera_id, stamps).subrange(
                dropped(stamps.len(), keep, upto - base.len()),
                upto - base.len(),
            )
        },
    decreases upto,
{
    let listing = base + names_of(camera_id, stamps);
    let arts = names_of(camera_id, stamps);
    if upto <= 0 {
        assert(base.take(0) =~= Seq::<Seq<char>>::empty());
    } else {
        lemma_retained_upto(base, camera_id, stamps, keep, upto - 1);
        let j = upto - 1;
        let before = retained_upto(listing, camera_id, keep, j);
        if j < base.len() {
            assert(listing[j] == base[j]);
            assert(!expired(listing, camera_id, keep, j));
            assert(base.take(j).push(base[j]) =~= base.take(upto));
        } else {
            let m = j - base.len();
            lemma_name_round_trip(camera_id, stamps[m]);
            lemma_rank_upto(base, camera_id, stamps, m, listing.len() as int);
            assert(listing[j] == arts[m]);
            assert(rank(listing, camera_id, j) == stamps.len() - m - 1);
            let d_before = dropped(stamps.len(), keep, m);
            let d_after = dropped(stamps.len(), keep, m + 1);
            if m == 0 {
                assert(base.take(j) =~= base);
                assert(base + arts.subrange(0, 0) =~= base);
            }
            assert(before == base + arts.subrange(d_before, m));
            if expired(listing, camera_id, keep, j) {
                assert(d_before == m && d_after == m + 1);
                assert(base + arts.subrange(m, m) =~= base + arts.subrange(m + 1, m + 1));
            } else {
                assert(d_after == d_before);
                assert((base + arts.subrange(d_before, m)).push(arts[m]) =~= base + arts.subrange(
                    d_before,
                    m + 1,
                ));
            }
        }
    }
}

/// The number of artifacts that retention deletes among the first `seen` of
/// `total` artifacts listed in ascending order of time: all of them but the
/// `keep` last of the total.
pub open spec fn dropped(total: nat, keep: nat, seen: int) -> int {
    if total <= keep {
        0
    } else if seen <= total - keep {
        seen
    } else {
        total - keep
    }
}

/// The `count` last of the times `ticks`.
pub open spec fn last_of(ticks: Seq<i64>, count: nat) -> Seq<i64> {
    if count >= ticks.len() {
        ticks
    } else {
        ticks.skip(ticks.len() - count)
    }
}

/// A run of successful captures at ascending times, in a directory that held
/// no artifact of the source before, leaves the directory as it was plus
/// the artifacts of the last captures, `keep` of them at most.
proof fn lemma_after_ticks(dir: Seq<Seq<char>>, camera_id: i64, ticks: Seq<i64>, keep: nat)
    requires
        foreign(dir, camera_id),
        ascending(ticks),
    ensures
        after_ticks(dir, camera_id, ticks, keep) == dir + names_of(camera_id, last_of(ticks, keep)),
    decreases ticks.len(),
{
    if ticks.len() == 0 {
        assert(dir + names_of(camera_id, last_of(ticks, keep)) =~= dir);
    } else {
        let earlier = ticks.drop_last();
        let now = ticks.last();
        assert(ascending(earlier)) by {
            assert forall|k: int| 0 <= k < earlier.len() implies 0 <= #[trigger] earlier[k] by {
                assert(earlier[k] == ticks[k]);
            }
            assert forall|a: int, b: int| 0 <= a < b < earlier.len() implies earlier[a]
                < earlier[b] by {
                assert(earlier[a] == ticks[a] && earlier[b] == ticks[b]);
            }
        }
        lemma_after_ticks(dir, camera_id, earlier, keep);
        let kept = last_of(earlier, keep);
        let state = dir + names_of(camera_id, kept);
        let name = thumbnail_name(camera_id, now);
        lemma_name_round_trip(camera_id, now);
        // The new artifact is not in the directory yet.
        assert(!state.contains(name)) by {
            if state.contains(name) {
                let i = choose|i: int| 0 <= i < state.len() && state[i] == name;
                if i < dir.len() {
                    assert(state[i] == dir[i]);
                    assert(artifact_timestamp(dir[i], camera_id) is None);
                } else {
                    let m = i - dir.len();
                    let offset = earlier.len() - kept.len();
                    assert(kept[m] == earlier[m + offset]);
                    assert(earlier[m + offset] == ticks[m + offset]);
                    assert(ticks[m + offset] < ticks[ticks.len() - 1]);
                    lemma_name_round_trip(camera_id, kept[m]);
                    assert(state[i] == thumbnail_name(camera_id, kept[m]));
                }
            }
        }
        let stamps = kept.push(now);
        assert(ascending(stamps)) by {
            let offset = earlier.len() - kept.len();
            assert forall|k: int| 0 <= k < stamps.len() implies 0 <= #[trigger] stamps[k] by {
                if k < kept.len() {
                    assert(kept[k] == earlier[k + offset]);
                    assert(earlier[k + offset] == ticks[k + offset]);
                }
            }
            assert forall|a: int, b: int| 0 <= a < b < stamps.len() implies stamps[a]
                < stamps[b] by {
                assert(kept[a] == earlier[a + offset]);
                assert(earlier[a + offset] == ticks[a + offset]);
                if b < kept.len() {
                    assert(kept[b] == earlier[b + offset]);
                    assert(earlier[b + offset] == ticks[b + offset]);
                } else {
                    assert(stamps[b] == ticks[ticks.len() - 1]);
                }
            }
        }
        let written = state.push(name);
        assert(written =~= dir + names_of(camera_id, stamps));
        lemma_retained_upto(dir, camera_id, stamps, keep, written.len() as int);
        let arts = names_of(camera_id, stamps);
        let d = dropped(stamps.len(), keep, stamps.len() as int);
        assert(arts.subrange(d, stamps.len() as int) =~= names_of(camera_id, last_of(ticks, keep)))
            by {
            let result = last_of(ticks, keep);
            let offset = earlier.len() - kept.len();
            assert(result.len() == stamps.len() - d);
            assert forall|k: int| 0 <= k < result.len() implies stamps[k + d] == result[k] by {
                if k + d < kept.len() {
                    assert(kept[k + d] == earlier[k + d + offset]);
                    assert(earlier[k + d + offset] == ticks[k + d + offset]);
                } else {
                    assert(stamps[k + d] == ticks[ticks.len() - 1]);
                }
            }
        }
    }
}

/// After more successful captures of a source than retention keeps, at
/// ascending times at or after the Unix epoch, in a directory that held no
/// artifact of the source before, exactly `keep` artifacts of the source
/// are left: those of the `keep` last captures. The files of others are
/// all still there.
pub proof fn lemma_retention_keeps_latest(
    dir: Seq<Seq<char>>,
    camera_id: i64,
    ticks: Seq<i64>,
    keep: nat,
)
    requires
        foreign(dir, camera_id),
        ascending(ticks),
        ticks.len() > keep,
    ensures
        after_ticks(dir, camera_id, ticks, keep) == dir + names_of(
            camera_id,
            ticks.skip(ticks.len() - keep),
        ),
        after_ticks(dir, camera_id, ticks, keep).len() == dir.len() + keep,
        forall|k: int|
            0 <= k < keep ==> artifact_timestamp(
                #[trigger] after_ticks(dir, camera_id, ticks, keep)[dir.len() + k],
                camera_id,
            ) == Some(ticks[ticks.len() - keep + k] as u64),
{
    lemma_after_ticks(dir, camera_id, ticks, keep);
    let left = after_ticks(dir, camera_id, ticks, keep);
    let last = ticks.skip(ticks.len() - keep);
    assert forall|k: int| 0 <= k < keep implies artifact_timestamp(
        #[trigger] left[dir.len() + k],
        camera_id,
    ) == Some(ticks[ticks.len() - keep + k] as u64) by {
        assert(last[k] == ticks[ticks.len() - keep + k]);
        assert(left[dir.len() + k] == thumbnail_name(camera_id, last[k]));
        lemma_name_round_trip(camera_id, last[k]);
    }
}

/// The number of artifacts of the source among the first `upto` entries.
pub open spec fn artifacts_upto(names: Seq<Seq<char>>, camera_id: i64, upto: int) -> nat
    decreases upto,
{
    if upto <= 0 {
        0
    } else {
        artifacts_upto(names, camera_id, upto - 1) + if artifact_timestamp(
            names[upto - 1],
            camera_id,
        ) is Some {
            1nat
        } else {
            0nat
        }
    }
}

/// The number of artifacts of the source `camera_id` in the listing `names`.
pub open spec fn artifact_count(names: Seq<Seq<char>>, camera_id: i64) -> nat {
    artifacts_upto(names, camera_id, names.len() as int)
}

/// The number of artifacts of the source among the first `upto` entries
/// that retention keeps: those with fewer than `keep` artifacts before them.
pub open spec fn kept_upto(names: Seq<Seq<char>>, camera_id: i64, keep: nat, upto: int) -> nat
    decreases upto,
{
    if upto <= 0 {
        0
    } else {
        kept_upto(names, camera_id, keep, upto - 1) + if artifact_timestamp(
            names[upto - 1],
            camera_id,
        ) is Some && rank(names, camera_id, upto - 1) < keep {
            1nat
        } else {
            0nat
        }
    }
}

/// The number of artifacts among the first `upto` entries whose timestamp is
/// `t` or later.
pub open spec fn recent_upto(names: Seq<Seq<char>>, camera_id: i64, t: u64, upto: int) -> nat
    decreases upto,
{
    if upto <= 0 {
        0
    } else {
        recent_upto(names, camera_id, t, upto - 1) + if artifact_timestamp(
            names[upto - 1],
            camera_id,
        ) is Some && artifact_timestamp(names[upto - 1], camera_id)->0 >= t {
            1nat
        } else {
            0nat
        }
    }
}

/// The smaller of two numbers.
pub open spec fn least(a: nat, b: nat) -> nat {
    if a <= b {
        a
    } else {
        b
    }
}

/// A new last entry changes nothing among the entries before it.
proof fn lemma_rank_prefix(p: Seq<Seq<char>>, x: Seq<char>, camera_id: i64, i: int, upto: int)
    requires
        0 <= i < p.len(),
        0 <= upto <= p.len(),
    ensures
        rank_upto(p.push(x), camera_id, i, upto) == rank_upto(p, camera_id, i, upto),
    decreases upto,
{
    if upto > 0 {
        lemma_rank_prefix(p, x, camera_id, i, upto - 1);
        let s = p.push(x);
        assert(s[upto - 1] == p[upto - 1]);
        assert(s[i] == p[i]);
    }
}

/// A new last entry changes nothing in the number of artifacts before it.
proof fn lemma_artifacts_prefix(p: Seq<Seq<char>>, x: Seq<char>, camera_id: i64, upto: int)
    requires
        0 <= upto <= p.len(),
    ensures
        artifacts_upto(p.push(x), camera_id, upto) == artifacts_upto(p, camera_id, upto),
    decreases upto,
{
    if upto > 0 {
        lemma_artifacts_prefix(p, x, camera_id, upto - 1);
        assert(p.push(x)[upto - 1] == p[upto - 1]);
    }
}

/// Before a new last artifact of time `t` come the artifacts of time `t` or
/// later.
proof fn lemma_rank_of_last(p: Seq<Seq<char>>, x: Seq<char>, camera_id: i64, t: u64, upto: int)
    requires
        artifact_timestamp(x, camera_id) == Some(t),
        0 <= upto <= p.len(),
    ensures
        rank_upto(p.push(x), camera_id, p.len() as int, upto) == recent_upto(
            p,
            camera_id,
            t,
            upto,
        ),
    decreases upto,
{
    if upto > 0 {
        lemma_rank_of_last(p, x, camera_id, t, upto - 1);
        let s = p.push(x);
        assert(s[upto - 1] == p[upto - 1]);
        assert(s[p.len() as int] == x);
    }
}

/// Before an artifact older than `t` come all the artifacts of time `t` or
/// later.
proof fn lemma_rank_below(p: Seq<Seq<char>>, camera_id: i64, t: u64, i: int, upto: int)
    requires
        0 <= i < p.len(),
        0 <= upto <= p.len(),
        artifact_timestamp(p[i], camera_id) is Some,
        artifact_timestamp(p[i], camera_id)->0 < t,
    ensures
        rank_upto(p, camera_id, i, upto) >= recent_upto(p, camera_id, t, upto),
    decreases upto,
{
    if upto > 0 {
        lemma_rank_below(p, camera_id, t, i, upto - 1);
    }
}

/// Before an artifact of time `t` or later come only artifacts of time `t`
/// or later, and not the artifact itself.
proof fn lemma_rank_above(p: Seq<Seq<char>>, camera_id: i64, t: u64, i: int, upto: int)
    requires
        0 <= i < p.len(),
        0 <= upto <= p.len(),
        artifact_timestamp(p[i], camera_id) is Some,
        artifact_timestamp(p[i], camera_id)->0 >= t,
    ensures
        rank_upto(p, camera_id, i, upto) + (if i < upto {
            1nat
        } else {
            0nat
        }) <= recent_upto(p, camera_id, t, upto),
    decreases upto,
{
    if upto > 0 {
        lemma_rank_above(p, camera_id, t, i, upto - 1);
    }
}

/// No more artifacts are recent than there are artifacts.
proof fn lemma_recent_bound(p: Seq<Seq<char>>, camera_id: i64, t: u64, upto: int)
    ensures
        recent_upto(p, camera_id, t, upto) <= artifacts_upto(p, camera_id, upto),
    decreases upto,
{
    if upto > 0 {
        lemma_recent_bound(p, camera_id, t, upto - 1);
    }
}

/// Two listings keep as many artifacts among their first entries when they
/// keep the same positions.
proof fn lemma_kept_pointwise(
    s: Seq<Seq<char>>,
    keep_s: nat,
    p: Seq<Seq<char>>,
    keep_p: nat,
    camera_id: i64,
    upto: int,
)
    requires
        forall|i: int|
            0 <= i < upto ==> (artifact_timestamp(#[trigger] s[i], camera_id) is Some && rank(
                s,
                camera_id,
                i,
            ) < keep_s) == (artifact_timestamp(p[i], camera_id) is Some && rank(p, camera_id, i)
                < keep_p),
    ensures
        kept_upto(s, camera_id, keep_s, upto) == kept_upto(p, camera_id, keep_p, upto),
    decreases upto,
{
    if upto > 0 {
        lemma_kept_pointwise(s, keep_s, p, keep_p, camera_id, upto - 1);
        assert((artifact_timestamp(s[upto - 1], camera_id) is Some && rank(
            s,
            camera_id,
            upto - 1,
        ) < keep_s) == (artifact_timestamp(p[upto - 1], camera_id) is Some && rank(
            p,
            camera_id,
            upto - 1,
        ) < keep_p));
    }
}

/// Whatever the listing and its order, retention keeps `keep` artifacts of
/// the source, or all of them where there are fewer.
pub proof fn lemma_kept_count(names: Seq<Seq<char>>, camera_id: i64, keep: nat)
    ensures
        kept_upto(names, camera_id, keep, names.len() as int) == least(
            artifact_count(names, camera_id),
            keep,
        ),
    decreases names.len(),
{
    if names.len() > 0 {
        let p = names.drop_last();
        let x = names.last();
        let len = p.len() as int;
        assert(names =~= p.push(x));
        lemma_artifacts_prefix(p, x, camera_id, len);
        match artifact_timestamp(x, camera_id) {
            None => {
                assert forall|i: int| 0 <= i < len implies (artifact_timestamp(
                    #[trigger] names[i],
                    camera_id,
                ) is Some && rank(names, camera_id, i) < keep) == (artifact_timestamp(
                    p[i],
                    camera_id,
                ) is Some && rank(p, camera_id, i) < keep) by {
                    lemma_rank_prefix(p, x, camera_id, i, len);
                    assert(names[i] == p[i]);
                    assert(!precedes(names, camera_id, len, i));
                }
                lemma_kept_pointwise(names, keep, p, keep, camera_id, len);
                lemma_kept_count(p, camera_id, keep);
            },
            Some(t) => {
                let recent = recent_upto(p, camera_id, t, len);
                lemma_rank_of_last(p, x, camera_id, t, len);
                lemma_recent_bound(p, camera_id, t, len);
                assert(!precedes(names, camera_id, len, len));
                assert(rank(names, camera_id, len) == recent);
                let keep_before: nat = if keep <= recent {
                    keep
                } else {
                    (keep - 1) as nat
                };
                assert forall|i: int| 0 <= i < len implies (artifact_timestamp(
                    #[trigger] names[i],
                    camera_id,
                ) is Some && rank(names, camera_id, i) < keep) == (artifact_timestamp(
                    p[i],
                    camera_id,
                ) is Some && rank(p, camera_id, i) < keep_before) by {
                    lemma_rank_prefix(p, x, camera_id, i, len);
                    assert(names[i] == p[i]);
                    assert(names[len] == x);
                    match artifact_timestamp(p[i], camera_id) {
                        Some(ti) => {
                            assert(precedes(names, camera_id, len, i) == (t > ti));
                            if ti < t {
                                lemma_rank_below(p, camera_id, t, i, len);
                            } else {
                                lemma_rank_above(p, camera_id, t, i, len);
                            }
                        },
                        None => {},
                    }
                }
                lemma_kept_pointwise(names, keep, p, keep_before, camera_id, len);
                lemma_kept_count(p, camera_id, keep_before);
            },
        }
    }
}

/// Among the first entries, every artifact is either kept or chosen for
/// deletion.
proof fn lemma_expired_len(names: Seq<Seq<char>>, camera_id: i64, keep: nat, upto: int)
    ensures
        expired_upto(names, camera_id, keep, upto).len() + kept_upto(
            names,
            camera_id,
            keep,
            upto,
        ) == artifacts_upto(names, camera_id, upto),
    decreases upto,
{
    if upto > 0 {
        lemma_expired_len(names, camera_id, keep, upto - 1);
    }
}

/// What retention leaves among the first entries holds the artifacts that
/// it keeps, and no other artifact.
proof fn lemma_retained_artifacts(names: Seq<Seq<char>>, camera_id: i64, keep: nat, upto: int)
    ensures
        artifact_count(retained_upto(names, camera_id, keep, upto), camera_id) == kept_upto(
            names,
            camera_id,
            keep,
            upto,
        ),
    decreases upto,
{
    if upto > 0 {
        lemma_retained_artifacts(names, camera_id, keep, upto - 1);
        let before = retained_upto(names, camera_id, keep, upto - 1);
        if !expired(names, camera_id, keep, upto - 1) {
            let after = before.push(names[upto - 1]);
            lemma_artifacts_prefix(before, names[upto - 1], camera_id, before.len() as int);
            assert(after[after.len() - 1] == names[upto - 1]);
        }
    }
}

/// One run of retention on any listing, in any order, leaves exactly
/// `keep` artifacts of the source, or all of them where there were no more
/// than `keep`; and it chooses all the others for deletion.
pub proof fn lemma_retention_count(names: Seq<Seq<char>>, camera_id: i64, keep: nat)
    ensures
        artifact_count(retained_names(names, camera_id, keep), camera_id) == least(
            artifact_count(names, camera_id),
            keep,
        ),
        expired_names(names, camera_id, keep).len() + least(
            artifact_count(names, camera_id),
            keep,
        ) == artifact_count(names, camera_id),
{
    lemma_kept_count(names, camera_id, keep);
    lemma_expired_len(names, camera_id, keep, names.len() as int);
    lemma_retained_artifacts(names, camera_id, keep, names.len() as int);
}

} // verus!
