//! The consumer-side layer over the caches: reading a definition with the
//! expiry check, creating a definition, and submitting a payload against
//! one.
//!
//! The cache itself knows nothing of expiry.  These functions implement the
//! expiring-entry contract: every read compares the entry's carried expiry
//! instant against the current time and eagerly removes an expired entry, so
//! an expired key is absent from the cache for every later operation.
//!
//! Each function exists in two forms: one that takes the current instant
//! `now` (milliseconds since the Unix epoch) as an argument and is verified
//! for every value of it, and one that reads the wall clock itself and hands
//! the reading to the first.

use vstd::prelude::*;
use crate::cache::{LRUCache, has_key, key_index, set_effect};
use crate::digits::{spec_decimal, u64_to_decimal};
use crate::form::{Field, FormData, FormDataView, spec_invalid_keys, invalid_keys};

verus! {

/// The default lifetime of a form definition, in milliseconds.
pub const HOUR_MILLIS: i64 = 3_600_000;

/// What a touched key does to the definitions cache at instant `now`: an
/// absent key changes nothing, an expired entry is purged, a live entry
/// moves to the back of the recency order.
pub open spec fn spec_touch_effect(
    pre: Seq<(Seq<char>, FormData)>,
    post: Seq<(Seq<char>, FormData)>,
    k: Seq<char>,
    now: i64,
) -> bool {
    if !has_key(pre, k) {
        post == pre
    } else {
        let i = key_index(pre, k);
        if pre[i].1.spec_expired_at(now) {
            post == pre.remove(i)
        } else {
            post == pre.remove(i).push(pre[i])
        }
    }
}

/// The definition as stored by a creation at instant `now`: a missing id is
/// filled with the generated identifier, a missing expiry defaults to one
/// hour after `now`; declared fields are kept as given.
pub open spec fn spec_completed(payload: FormDataView, now: i64) -> FormDataView {
    FormDataView {
        id: match payload.id {
            Some(s) => Some(s),
            None => Some(spec_decimal(now as nat)),
        },
        fields: payload.fields,
        expires_at: match payload.expires_at {
            Some(t) => Some(t),
            None => Some((now + HOUR_MILLIS) as i64),
        },
    }
}

/// What a creation at instant `now` does to the definitions cache: some
/// value whose abstract form is the completed payload is stored under the
/// generated identifier, with the cache's usual `set` semantics.
pub open spec fn spec_create_effect(
    pre: Seq<(Seq<char>, FormData)>,
    cap: usize,
    post: Seq<(Seq<char>, FormData)>,
    payload: FormDataView,
    now: i64,
) -> bool {
    exists|v: FormData|
        (#[trigger] v@) == spec_completed(payload, now) && post == set_effect(
            pre,
            cap,
            spec_decimal(now as nat),
            v,
        )
}

/// The outcome of submitting a payload against a form definition.
#[derive(Debug)]
pub enum SubmitOutcome {
    /// The definition is absent or was expired (and has been purged).
    NotFound,
    /// The payload carries keys the definition does not declare; they are
    /// listed in submission order.
    Invalid(Vec<String>),
    /// The payload was stored under the returned generated identifier.
    Created(String),
}

/// Reads the definition under `form_id` at instant `now`.
///
/// A hit on a live entry bumps its recency and returns a copy of the
/// definition.  A hit on an expired entry purges it — the key is absent
/// afterwards — and reports not-found, exactly as an absent key does.
pub fn read_form(cache: &mut LRUCache<FormData>, form_id: &str, now: i64) -> (r: Option<
    FormData,
>)
    requires
        old(cache).wf(),
    ensures
        final(cache).wf(),
        final(cache).spec_capacity() == old(cache).spec_capacity(),
        spec_touch_effect(old(cache)@, final(cache)@, form_id@, now),
        match r {
            None => !has_key(old(cache)@, form_id@) || old(cache)@[key_index(
                old(cache)@,
                form_id@,
            )].1.spec_expired_at(now),
            Some(g) => has_key(old(cache)@, form_id@) && !old(cache)@[key_index(
                old(cache)@,
                form_id@,
            )].1.spec_expired_at(now) && g@ == old(cache)@[key_index(old(cache)@, form_id@)].1@,
        },
        (has_key(old(cache)@, form_id@) && old(cache)@[key_index(old(cache)@, form_id@)].1
            .spec_expired_at(now)) ==> !has_key(final(cache)@, form_id@),
{
    let ghost pre = cache@;
    let mut out: Option<FormData> = None;
    let mut purge = false;
    match cache.get(form_id) {
        None => {},
        Some(f) => {
            if f.expired_at(now) {
                purge = true;
            } else {
                out = Some(f.duplicate());
            }
        },
    }
    if purge {
        let ghost mid = cache@;
        proof {
            assert(mid[mid.len() - 1].0 == form_id@);
            assert(has_key(mid, form_id@));
        }
        cache.remove(form_id);
        proof {
            let i = key_index(pre, form_id@);
            let j = key_index(mid, form_id@);
            assert(0 <= j < mid.len() && mid[j].0 == form_id@);
            assert(j == mid.len() - 1);
            assert(cache@ =~= pre.remove(i));
        }
    }
    out
}

/// Stores `payload` as a new definition at instant `now` and returns the
/// generated identifier — the decimal rendering of `now`.  A missing id is
/// filled with that identifier; a missing expiry defaults to one hour after
/// `now`.
pub fn create_form_at(cache: &mut LRUCache<FormData>, payload: FormData, now: i64) -> (r:
    String)
    requires
        old(cache).wf(),
        0 <= now,
        now + HOUR_MILLIS <= i64::MAX,
    ensures
        final(cache).wf(),
        final(cache).spec_capacity() == old(cache).spec_capacity(),
        r@ == spec_decimal(now as nat),
        spec_create_effect(
            old(cache)@,
            old(cache).spec_capacity(),
            final(cache)@,
            payload@,
            now,
        ),
{
    let form_id = u64_to_decimal(now as u64);
    let mut p = payload;
    if p.id.is_none() {
        p.id = Some(form_id.clone());
    }
    if p.expires_at.is_none() {
        p.expires_at = Some(now + HOUR_MILLIS);
    }
    proof {
        assert(p@ == spec_completed(payload@, now));
    }
    cache.set(form_id.clone(), p);
    form_id
}

/// Submits a payload with key set `payload_keys` against the definition
/// under `form_id` at instant `now`.
///
/// The definition is read with the expiry check (purging an expired entry).
/// If it is absent or expired the outcome is `NotFound`.  Otherwise the
/// payload's keys are validated against the definition's field names: keys
/// outside the declared set make the outcome `Invalid` with exactly those
/// keys, and nothing is stored.  A valid payload is stored in the payload
/// cache under a generated identifier — the decimal rendering of `now` —
/// which the `Created` outcome carries.
pub fn submit_item_at<T>(
    forms: &mut LRUCache<FormData>,
    payloads: &mut LRUCache<T>,
    form_id: &str,
    payload_keys: &Vec<String>,
    payload: T,
    now: i64,
) -> (r: SubmitOutcome)
    requires
        old(forms).wf(),
        old(payloads).wf(),
        0 <= now,
    ensures
        final(forms).wf(),
        final(payloads).wf(),
        final(forms).spec_capacity() == old(forms).spec_capacity(),
        final(payloads).spec_capacity() == old(payloads).spec_capacity(),
        spec_touch_effect(old(forms)@, final(forms)@, form_id@, now),
        ({
            let fs = old(forms)@;
            let k = form_id@;
            if !has_key(fs, k) || fs[key_index(fs, k)].1.spec_expired_at(now) {
                r is NotFound && final(payloads)@ == old(payloads)@
            } else {
                let f = fs[key_index(fs, k)].1;
                let bad = spec_invalid_keys(payload_keys@.map_values(|s: String| s@), f@.fields);
                if bad.len() > 0 {
                    (r matches SubmitOutcome::Invalid(ks) && ks@.map_values(|s: String| s@)
                        == bad) && final(payloads)@ == old(payloads)@
                } else {
                    (r matches SubmitOutcome::Created(id) && id@ == spec_decimal(now as nat))
                        && final(payloads)@ == set_effect(
                        old(payloads)@,
                        old(payloads).spec_capacity(),
                        spec_decimal(now as nat),
                        payload,
                    )
                }
            }
        }),
{
    match read_form(forms, form_id, now) {
        None => SubmitOutcome::NotFound,
        Some(f) => {
            let bad = invalid_keys(payload_keys, &f.fields);
            if bad.len() > 0 {
                SubmitOutcome::Invalid(bad)
            } else {
                let data_id = u64_to_decimal(now as u64);
                payloads.set(data_id.clone(), payload);
                SubmitOutcome::Created(data_id)
            }
        },
    }
}

/// Relies on `chrono::Utc::now` and `chrono::DateTime::timestamp_millis`:
/// the current instant as whole milliseconds since the Unix epoch.  `now`
/// itself refuses (by panicking) a system clock set before the epoch, so a
/// returned reading is never negative; nothing else can be promised of the
/// clock.
#[verifier::external_body]
fn now_millis() -> (r: i64)
    ensures
        0 <= r,
{
    chrono::Utc::now().timestamp_millis()
}

/// Reads the definition under `form_id` at the current instant: some clock
/// reading governs the expiry check, with `read_form`'s semantics.
pub fn read_form_now(cache: &mut LRUCache<FormData>, form_id: &str) -> (r: Option<FormData>)
    requires
        old(cache).wf(),
    ensures
        final(cache).wf(),
        final(cache).spec_capacity() == old(cache).spec_capacity(),
        exists|now: i64|
            #[trigger] spec_touch_effect(old(cache)@, final(cache)@, form_id@, now) && match r {
                None => !has_key(old(cache)@, form_id@) || old(cache)@[key_index(
                    old(cache)@,
                    form_id@,
                )].1.spec_expired_at(now),
                Some(g) => has_key(old(cache)@, form_id@) && !old(cache)@[key_index(
                    old(cache)@,
                    form_id@,
                )].1.spec_expired_at(now) && g@ == old(cache)@[key_index(
                    old(cache)@,
                    form_id@,
                )].1@,
            },
{
    let now = now_millis();
    read_form(cache, form_id, now)
}

/// Stores `payload` as a new definition at the current instant, with
/// `create_form_at`'s semantics, and returns the generated identifier.
/// `None` is returned — and nothing changes — only if the clock reading is
/// too large for the default expiry to be representable.
pub fn create_form_now(cache: &mut LRUCache<FormData>, payload: FormData) -> (r: Option<
    String,
>)
    requires
        old(cache).wf(),
    ensures
        final(cache).wf(),
        final(cache).spec_capacity() == old(cache).spec_capacity(),
        match r {
            Some(id) => exists|now: i64|
                0 <= now && id@ == spec_decimal(now as nat) && #[trigger] spec_create_effect(
                    old(cache)@,
                    old(cache).spec_capacity(),
                    final(cache)@,
                    payload@,
                    now,
                ),
            None => final(cache)@ == old(cache)@,
        },
{
    let now = now_millis();
    if now <= i64::MAX - HOUR_MILLIS {
        let id = create_form_at(cache, payload, now);
        Some(id)
    } else {
        None
    }
}

/// Submits a payload against the definition under `form_id` at the current
/// instant: some clock reading governs the expiry check and the generated
/// identifier, with `submit_item_at`'s semantics.
pub fn submit_item_now<T>(
    forms: &mut LRUCache<FormData>,
    payloads: &mut LRUCache<T>,
    form_id: &str,
    payload_keys: &Vec<String>,
    payload: T,
) -> (r: SubmitOutcome)
    requires
        old(forms).wf(),
        old(payloads).wf(),
    ensures
        final(forms).wf(),
        final(payloads).wf(),
        final(forms).spec_capacity() == old(forms).spec_capacity(),
        final(payloads).spec_capacity() == old(payloads).spec_capacity(),
        exists|now: i64|
            #[trigger] spec_touch_effect(old(forms)@, final(forms)@, form_id@, now) && ({
                let fs = old(forms)@;
                let k = form_id@;
                if !has_key(fs, k) || fs[key_index(fs, k)].1.spec_expired_at(now) {
                    r is NotFound && final(payloads)@ == old(payloads)@
                } else {
                    let f = fs[key_index(fs, k)].1;
                    let bad = spec_invalid_keys(
                        payload_keys@.map_values(|s: String| s@),
                        f@.fields,
                    );
                    if bad.len() > 0 {
                        (r matches SubmitOutcome::Invalid(ks) && ks@.map_values(|s: String| s@)
                            == bad) && final(payloads)@ == old(payloads)@
                    } else {
                        (r matches SubmitOutcome::Created(id) && id@ == spec_decimal(
                            now as nat,
                        )) && final(payloads)@ == set_effect(
                            old(payloads)@,
                            old(payloads).spec_capacity(),
                            spec_decimal(now as nat),
                            payload,
                        )
                    }
                }
            }),
{
    let now = now_millis();
    submit_item_at(forms, payloads, form_id, payload_keys, payload, now)
}

} // verus!
