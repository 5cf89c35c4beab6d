//! The signing core: canonicalizing request headers, assembling the
//! string-to-sign, computing the HMAC-SHA1 signature and producing the
//! `Authorization` header.

use crate::config::{
    spec_first_valid, spec_valid_holder, Config, SecurityHolder, SignatureType,
};
use crate::datetime::{
    format_rfc1123, is_valid_datetime, parse_basic_datetime, rfc1123_seq, spec_basic_fields,
    spec_is_basic_datetime, valid_datetime, DateTime,
};
use crate::error::ObsError;
use crate::headers::{
    has_key, lemma_has_key_insert, lemma_has_key_push, lemma_insert_keys, lemma_insert_same,
    lemma_insert_unique, lemma_lookup_insert_self, lemma_push_unique, lookup, spec_insert,
    spec_remove, unique_keys, HeaderEntries, HeaderSet,
};
use crate::strutil::{
    has_prefix, is_prefix_of, is_suffix_of, join_seq, join_with, lemma_lower_no_edge_space,
    lemma_lower_seq_idem, lemma_trim_fixed, lemma_trim_no_edge_space, lex_le, lower_seq, str_eq,
    str_le, to_lower, trim, trim_seq,
};
use base64::Engine;
use chrono::{Datelike, Timelike};
use vstd::prelude::*;
use vstd::utf8::encode_utf8;

verus! {

/// The HMAC-SHA1 digest of a message under a key; a fixed function of
/// the two, named here so contracts can speak of it.
pub uninterp spec fn hmac_sha1_of(key: Seq<u8>, message: Seq<u8>) -> Seq<u8>;

/// The standard (padded) base64 rendering of a byte string; a fixed
/// function of its input, named here so contracts can speak of it.
pub uninterp spec fn base64_of(data: Seq<u8>) -> Seq<char>;

/// Relies on `hmac_sha1::hmac_sha1`: the digest depends on key and
/// message alone and is always twenty bytes long.
#[verifier::external_body]
fn hmac_sha1_digest(key: &[u8], message: &[u8]) -> (r: Vec<u8>)
    ensures
        r@ == hmac_sha1_of(key@, message@),
        r@.len() == 20,
{
    hmac_sha1::hmac_sha1(key, message).to_vec()
}

/// Relies on base64's `STANDARD` engine: the rendering depends on the
/// input bytes alone, and with padding it spends four characters on
/// every started group of three bytes.
#[verifier::external_body]
fn base64_standard(data: &[u8]) -> (r: String)
    ensures
        r@ == base64_of(data@),
        r@.len() == ((data@.len() + 2) / 3) * 4,
{
    base64::engine::general_purpose::STANDARD.encode(data)
}

/// Relies on chrono's `From<SystemTime>` conversion for `DateTime<Utc>`
/// to read the host clock; unlike `Utc::now` it handles a pre-epoch
/// clock instead of panicking.  Nothing is promised of the fields: a
/// clock far enough out of range comes back wrapped by the narrowing
/// casts, so the caller validates them.
#[verifier::external_body]
fn utc_now() -> (r: DateTime)
{
    let t = chrono::DateTime::<chrono::Utc>::from(std::time::SystemTime::now());
    DateTime {
        year: t.year() as u16,
        month: t.month() as u8,
        day: t.day() as u8,
        hour: t.hour() as u8,
        minute: t.minute() as u8,
        second: t.second() as u8,
    }
}

/// The current UTC time in RFC 1123 form.  A host-clock reading that
/// names no calendar-valid instant falls back to the epoch instant, so
/// the result always renders a valid date.
fn rfc_1123() -> (r: String)
    ensures
        exists|dt: DateTime| valid_datetime(dt) && r@ == rfc1123_seq(dt),
{
    let raw = utc_now();
    let now = if is_valid_datetime(&raw) {
        raw
    } else {
        DateTime { year: 1970, month: 1, day: 1, hour: 0, minute: 0, second: 0 }
    };
    let r = format_rfc1123(&now);
    proof {
        assert(valid_datetime(now) && r@ == rfc1123_seq(now));
    }
    r
}

/// The signature of a string-to-sign under a secret key: the base64
/// rendering of the HMAC-SHA1 digest of its UTF-8 bytes keyed by the
/// key's UTF-8 bytes.
pub open spec fn spec_signature(sk: Seq<char>, string_to_sign: Seq<char>) -> Seq<char> {
    base64_of(hmac_sha1_of(encode_utf8(sk), encode_utf8(string_to_sign)))
}

/// Computes the signature of a string-to-sign.  A pure function of its
/// two inputs; it never fails, and the rendering of the twenty-byte
/// digest is always twenty-eight characters long.
pub fn signature(string_to_sign: &str, sk: &str) -> (r: Result<String, ObsError>)
    ensures
        r is Ok,
        r matches Ok(s) ==> s@ == spec_signature(sk@, string_to_sign@),
        r matches Ok(s) ==> s@.len() == 28,
{
    let digest = hmac_sha1_digest(sk.as_bytes(), string_to_sign.as_bytes());
    let encoded = base64_standard(digest.as_slice());
    Ok(encoded)
}

/// Two signing runs over the same method, headers, canonical resource,
/// canonical time and secret key return the same signature: the
/// signature is a function of those inputs and of nothing else.
pub proof fn lemma_signature_deterministic(
    method: Seq<char>,
    h: HeaderEntries,
    canonicalized_url: Seq<char>,
    now: Seq<char>,
    sk: Seq<char>,
    r1: Seq<char>,
    r2: Seq<char>,
)
    requires
        r1 == spec_signature(sk, spec_full_string_to_sign(method, h, canonicalized_url, now)),
        r2 == spec_signature(sk, spec_full_string_to_sign(method, h, canonicalized_url, now)),
    ensures
        r1 == r2,
{
}

/// Header-name prefix of the configured provider dialect.
pub open spec fn prefix_seq(is_obs: bool) -> Seq<char> {
    if is_obs {
        "x-obs-"@
    } else {
        "x-amz-"@
    }
}

/// Meta-header prefix of the configured provider dialect.
pub open spec fn meta_prefix_seq(is_obs: bool) -> Seq<char> {
    if is_obs {
        "x-obs-meta-"@
    } else {
        "x-amz-meta-"@
    }
}

/// Provider-native date header of the configured dialect.
pub open spec fn date_key_seq(is_obs: bool) -> Seq<char> {
    if is_obs {
        "x-obs-date"@
    } else {
        "x-amz-date"@
    }
}

fn prefix_str(is_obs: bool) -> (r: &'static str)
    ensures
        r@ == prefix_seq(is_obs),
{
    if is_obs {
        "x-obs-"
    } else {
        "x-amz-"
    }
}

fn meta_prefix_str(is_obs: bool) -> (r: &'static str)
    ensures
        r@ == meta_prefix_seq(is_obs),
{
    if is_obs {
        "x-obs-meta-"
    } else {
        "x-amz-meta-"
    }
}

fn date_key_str(is_obs: bool) -> (r: &'static str)
    ensures
        r@ == date_key_seq(is_obs),
{
    if is_obs {
        "x-obs-date"
    } else {
        "x-amz-date"
    }
}

/// Whether a normalized header name takes part in signing: one of the
/// three fixed slots, or a provider-prefixed header.
pub open spec fn spec_keep_key(k: Seq<char>, is_obs: bool) -> bool {
    ||| k == "content-md5"@
    ||| k == "content-type"@
    ||| k == "date"@
    ||| is_prefix_of(prefix_seq(is_obs), k)
}

fn keep_key(k: &str, is_obs: bool) -> (r: bool)
    ensures
        r == spec_keep_key(k@, is_obs),
{
    str_eq(k, "content-md5") || str_eq(k, "content-type") || str_eq(k, "date") || has_prefix(
        k,
        prefix_str(is_obs),
    )
}

/// Normalization pass over the raw headers: names are whitespace-trimmed
/// and lower-cased, empty names are dropped, only signable names are
/// kept, and a later entry for the same normalized name replaces the
/// values of an earlier one.
pub open spec fn spec_normalize_from(
    entries: HeaderEntries,
    is_obs: bool,
    acc: HeaderEntries,
) -> HeaderEntries
    decreases entries.len(),
{
    if entries.len() == 0 {
        acc
    } else {
        let k = lower_seq(trim_seq(entries[0].0));
        let acc2 = if k.len() > 0 && spec_keep_key(k, is_obs) {
            spec_insert(acc, k, entries[0].1)
        } else {
            acc
        };
        spec_normalize_from(entries.drop_first(), is_obs, acc2)
    }
}

/// `entries` with the fixed slot `k` present, empty when it was absent.
pub open spec fn spec_with_slot(entries: HeaderEntries, k: Seq<char>) -> HeaderEntries {
    if has_key(entries, k) {
        entries
    } else {
        entries.push((k, Seq::<Seq<char>>::empty()))
    }
}

/// `entries` with all three fixed slots present.
pub open spec fn spec_with_slots(entries: HeaderEntries) -> HeaderEntries {
    spec_with_slot(spec_with_slot(spec_with_slot(entries, "content-md5"@), "content-type"@), "date"@)
}

/// When the provider-native date header survives normalization its
/// client-supplied value is replaced by the canonical current time, so
/// the signature never trusts an unvalidated alternate date.
pub open spec fn spec_with_date(entries: HeaderEntries, is_obs: bool, now: Seq<char>) -> (
    HeaderEntries) {
    if has_key(entries, date_key_seq(is_obs)) {
        spec_insert(entries, date_key_seq(is_obs), seq![now])
    } else {
        entries
    }
}

/// The canonical header set that attach-headers renders: normalized,
/// with the three fixed slots present and the provider date pinned to
/// the canonical current time.
pub open spec fn spec_canonical_headers(h: HeaderEntries, is_obs: bool, now: Seq<char>) -> (
    HeaderEntries) {
    spec_with_date(
        spec_with_slots(spec_normalize_from(h, is_obs, Seq::<(Seq<char>, Seq<Seq<char>>)>::empty())),
        is_obs,
        now,
    )
}

/// A header name that normalization maps to itself and keeps: non-empty,
/// signable, and already trimmed and lower-cased.
pub open spec fn good_key(k: Seq<char>, is_obs: bool) -> bool {
    k.len() > 0 && spec_keep_key(k, is_obs) && lower_seq(trim_seq(k)) == k
}

/// Every entry bears a good name.
pub open spec fn all_good_keys(entries: HeaderEntries, is_obs: bool) -> bool {
    forall|i: int| 0 <= i < entries.len() ==> good_key(#[trigger] entries[i].0, is_obs)
}

proof fn lemma_norm_key_good(k0: Seq<char>, is_obs: bool)
    requires
        lower_seq(trim_seq(k0)).len() > 0,
        spec_keep_key(lower_seq(trim_seq(k0)), is_obs),
    ensures
        good_key(lower_seq(trim_seq(k0)), is_obs),
{
    let k = lower_seq(trim_seq(k0));
    lemma_trim_no_edge_space(k0);
    lemma_lower_no_edge_space(trim_seq(k0));
    lemma_trim_fixed(k);
    lemma_lower_seq_idem(trim_seq(k0));
}

proof fn lemma_insert_all_good(acc: HeaderEntries, k: Seq<char>, v: Seq<Seq<char>>, is_obs: bool)
    requires
        all_good_keys(acc, is_obs),
        good_key(k, is_obs),
    ensures
        all_good_keys(spec_insert(acc, k, v), is_obs),
{
    lemma_insert_keys(acc, k, v);
    let r = spec_insert(acc, k, v);
    assert forall|i: int| 0 <= i < r.len() implies good_key(r[i].0, is_obs) by {
        if r[i].0 != k {
            let j = choose|j: int| 0 <= j < acc.len() && acc[j].0 == r[i].0;
            assert(good_key(acc[j].0, is_obs));
        }
    }
}

proof fn lemma_normalize_good_unique(entries: HeaderEntries, is_obs: bool, acc: HeaderEntries)
    requires
        all_good_keys(acc, is_obs),
        unique_keys(acc),
    ensures
        all_good_keys(spec_normalize_from(entries, is_obs, acc), is_obs),
        unique_keys(spec_normalize_from(entries, is_obs, acc)),
    decreases entries.len(),
{
    if entries.len() > 0 {
        let k = lower_seq(trim_seq(entries[0].0));
        if k.len() > 0 && spec_keep_key(k, is_obs) {
            lemma_norm_key_good(entries[0].0, is_obs);
            lemma_insert_all_good(acc, k, entries[0].1, is_obs);
            lemma_insert_unique(acc, k, entries[0].1);
            lemma_normalize_good_unique(
                entries.drop_first(),
                is_obs,
                spec_insert(acc, k, entries[0].1),
            );
        } else {
            lemma_normalize_good_unique(entries.drop_first(), is_obs, acc);
        }
    }
}

proof fn lemma_literal_keys_good(is_obs: bool)
    ensures
        good_key("content-md5"@, is_obs),
        good_key("content-type"@, is_obs),
        good_key("date"@, is_obs),
        good_key(date_key_seq(is_obs), is_obs),
{
    reveal_strlit("content-md5");
    reveal_strlit("content-type");
    reveal_strlit("date");
    reveal_strlit("x-obs-date");
    reveal_strlit("x-amz-date");
    reveal_strlit("x-obs-");
    reveal_strlit("x-amz-");
    lemma_literal_fixed("content-md5"@);
    lemma_literal_fixed("content-type"@);
    lemma_literal_fixed("date"@);
    lemma_literal_fixed(date_key_seq(is_obs));
    if is_obs {
        assert(date_key_seq(is_obs).take(6) =~= prefix_seq(is_obs));
    } else {
        assert(date_key_seq(is_obs).take(6) =~= prefix_seq(is_obs));
    }
}

proof fn lemma_literal_fixed(s: Seq<char>)
    requires
        s.len() > 0,
        !crate::strutil::is_space_char(s[0]),
        !crate::strutil::is_space_char(s.last()),
        forall|i: int| 0 <= i < s.len() ==> crate::strutil::lower_char(#[trigger] s[i]) == s[i],
    ensures
        lower_seq(trim_seq(s)) == s,
{
    lemma_trim_fixed(s);
    assert(lower_seq(s) =~= s);
}

proof fn lemma_slot_good_unique(entries: HeaderEntries, k: Seq<char>, is_obs: bool)
    requires
        all_good_keys(entries, is_obs),
        unique_keys(entries),
        good_key(k, is_obs),
    ensures
        all_good_keys(spec_with_slot(entries, k), is_obs),
        unique_keys(spec_with_slot(entries, k)),
        has_key(spec_with_slot(entries, k), k),
        forall|k2: Seq<char>|
            has_key(entries, k2) ==> #[trigger] has_key(spec_with_slot(entries, k), k2),
{
    if has_key(entries, k) {
    } else {
        lemma_push_unique(entries, k, Seq::<Seq<char>>::empty());
        let r = entries.push((k, Seq::<Seq<char>>::empty()));
        assert forall|i: int| 0 <= i < r.len() implies good_key(r[i].0, is_obs) by {
            if i < entries.len() {
                assert(r[i] == entries[i]);
            } else {
                assert(r[i] == (k, Seq::<Seq<char>>::empty()));
            }
        }
        lemma_has_key_push(entries, k, Seq::<Seq<char>>::empty(), k);
        assert forall|k2: Seq<char>| has_key(entries, k2) implies #[trigger] has_key(
            spec_with_slot(entries, k),
            k2,
        ) by {
            lemma_has_key_push(entries, k, Seq::<Seq<char>>::empty(), k2);
        }
    }
}

proof fn lemma_canonical_shape(h: HeaderEntries, is_obs: bool, now: Seq<char>)
    ensures
        all_good_keys(spec_canonical_headers(h, is_obs, now), is_obs),
        unique_keys(spec_canonical_headers(h, is_obs, now)),
        has_key(spec_canonical_headers(h, is_obs, now), "content-md5"@),
        has_key(spec_canonical_headers(h, is_obs, now), "content-type"@),
        has_key(spec_canonical_headers(h, is_obs, now), "date"@),
{
    let empty_acc = Seq::<(Seq<char>, Seq<Seq<char>>)>::empty();
    lemma_literal_keys_good(is_obs);
    lemma_normalize_good_unique(h, is_obs, empty_acc);
    let n0 = spec_normalize_from(h, is_obs, empty_acc);
    lemma_slot_good_unique(n0, "content-md5"@, is_obs);
    let n1 = spec_with_slot(n0, "content-md5"@);
    lemma_slot_good_unique(n1, "content-type"@, is_obs);
    let n2 = spec_with_slot(n1, "content-type"@);
    lemma_slot_good_unique(n2, "date"@, is_obs);
    let n3 = spec_with_slot(n2, "date"@);
    if has_key(n3, date_key_seq(is_obs)) {
        let v = seq![now];
        lemma_insert_all_good(n3, date_key_seq(is_obs), v, is_obs);
        lemma_insert_unique(n3, date_key_seq(is_obs), v);
        lemma_has_key_insert(n3, date_key_seq(is_obs), v, "content-md5"@);
        lemma_has_key_insert(n3, date_key_seq(is_obs), v, "content-type"@);
        lemma_has_key_insert(n3, date_key_seq(is_obs), v, "date"@);
    }
}

proof fn lemma_normalize_fixed(entries: HeaderEntries, is_obs: bool, acc: HeaderEntries)
    requires
        all_good_keys(entries, is_obs),
        unique_keys(entries),
        forall|i: int, j: int|
            #![trigger acc[i].0, entries[j].0]
            0 <= i < acc.len() && 0 <= j < entries.len() ==> acc[i].0 != entries[j].0,
    ensures
        spec_normalize_from(entries, is_obs, acc) == acc + entries,
    decreases entries.len(),
{
    if entries.len() == 0 {
        assert(acc + entries =~= acc);
    } else {
        let e0 = entries[0];
        assert(good_key(e0.0, is_obs));
        assert(lower_seq(trim_seq(e0.0)) == e0.0);
        assert forall|i: int| 0 <= i < acc.len() implies acc[i].0 != e0.0 by {
            assert(acc[i].0 != entries[0].0);
        }
        crate::headers::lemma_lookup_none(acc, e0.0);
        crate::headers::lemma_insert_absent(acc, e0.0, e0.1);
        assert(e0 == (e0.0, e0.1));
        let acc2 = acc.push(e0);
        assert(spec_insert(acc, e0.0, e0.1) == acc2);
        assert forall|i: int, j: int|
            #![trigger acc2[i].0, entries.drop_first()[j].0]
        0 <= i < acc2.len() && 0 <= j < entries.drop_first().len() implies acc2[i].0
            != entries.drop_first()[j].0 by {
            assert(entries.drop_first()[j] == entries[j + 1]);
            if i < acc.len() {
                assert(acc2[i] == acc[i]);
            } else {
                assert(acc2[i] == e0);
            }
        }
        assert forall|i: int| 0 <= i < entries.drop_first().len() implies good_key(
            #[trigger] entries.drop_first()[i].0,
            is_obs,
        ) by {
            assert(entries.drop_first()[i] == entries[i + 1]);
        }
        lemma_normalize_fixed(entries.drop_first(), is_obs, acc2);
        assert(acc2 + entries.drop_first() =~= acc + entries);
    }
}

/// Canonicalizing an already canonical header set changes nothing.
pub proof fn lemma_canonical_fixed(h: HeaderEntries, is_obs: bool, now: Seq<char>)
    ensures
        spec_canonical_headers(spec_canonical_headers(h, is_obs, now), is_obs, now)
            == spec_canonical_headers(h, is_obs, now),
{
    let empty_acc = Seq::<(Seq<char>, Seq<Seq<char>>)>::empty();
    let canon = spec_canonical_headers(h, is_obs, now);
    let dk = date_key_seq(is_obs);
    lemma_canonical_shape(h, is_obs, now);
    lemma_normalize_fixed(canon, is_obs, empty_acc);
    assert(empty_acc + canon =~= canon);
    assert(spec_normalize_from(canon, is_obs, empty_acc) == canon);
    assert(spec_with_slots(canon) == canon);
    let n3 = spec_with_slot(
        spec_with_slot(spec_with_slot(spec_normalize_from(h, is_obs, empty_acc), "content-md5"@), "content-type"@),
        "date"@,
    );
    if has_key(n3, dk) {
        lemma_lookup_insert_self(n3, dk, seq![now]);
        lemma_has_key_insert(n3, dk, seq![now], dk);
        lemma_insert_same(canon, dk, seq![now]);
    }
}

/// Running header canonicalization on the canonical header set derived
/// from its own first run yields the same attached-headers block:
/// canonicalization is idempotent.
pub proof fn lemma_attach_headers_idempotent(h: HeaderEntries, is_obs: bool, now: Seq<char>)
    ensures
        spec_attach_headers(spec_canonical_headers(h, is_obs, now), is_obs, now)
            == spec_attach_headers(h, is_obs, now),
{
    lemma_canonical_fixed(h, is_obs, now);
}

/// A list with `x` placed before the first element it precedes.
pub open spec fn spec_insert_sorted(x: Seq<char>, s: Seq<Seq<char>>) -> Seq<Seq<char>>
    decreases s.len(),
{
    if s.len() == 0 {
        seq![x]
    } else if lex_le(x, s[0]) {
        seq![x] + s
    } else {
        seq![s[0]] + spec_insert_sorted(x, s.drop_first())
    }
}

/// Insertion sort under the lexicographic order.
pub open spec fn spec_sort(s: Seq<Seq<char>>) -> Seq<Seq<char>>
    decreases s.len(),
{
    if s.len() == 0 {
        s
    } else {
        spec_insert_sorted(s[0], spec_sort(s.drop_first()))
    }
}

proof fn lemma_insert_sorted_at(x: Seq<char>, s: Seq<Seq<char>>, i: int)
    requires
        0 <= i <= s.len(),
        forall|j: int| 0 <= j < i ==> !lex_le(x, s[j]),
        i < s.len() ==> lex_le(x, s[i]),
    ensures
        spec_insert_sorted(x, s) == s.take(i) + seq![x] + s.skip(i),
    decreases i,
{
    if i == 0 {
        if s.len() == 0 {
            assert(seq![x] =~= s.take(0) + seq![x] + s.skip(0));
        } else {
            assert(seq![x] + s =~= s.take(0) + seq![x] + s.skip(0));
        }
    } else {
        lemma_insert_sorted_at(x, s.drop_first(), i - 1);
        assert(seq![s[0]] + (s.drop_first().take(i - 1) + seq![x] + s.drop_first().skip(i - 1))
            =~= s.take(i) + seq![x] + s.skip(i));
    }
}

/// Inserts `x` into an already sorted list, keeping it sorted.
fn insert_string_sorted(acc: &mut Vec<String>, x: String)
    ensures
        final(acc).deep_view() == spec_insert_sorted(x@, old(acc).deep_view()),
{
    let ghost dv = acc.deep_view();
    let n = acc.len();
    let mut i: usize = 0;
    while i < n && !str_le(x.as_str(), acc[i].as_str())
        invariant
            n == acc.len(),
            dv == acc.deep_view(),
            dv.len() == n,
            i <= n,
            forall|j: int| 0 <= j < i ==> !lex_le(x@, dv[j]),
        decreases n - i,
    {
        i = i + 1;
    }
    proof {
        lemma_insert_sorted_at(x@, dv, i as int);
    }
    let ghost xv = x@;
    acc.insert(i, x);
    assert(acc.deep_view() =~= dv.take(i as int) + seq![xv] + dv.skip(i as int));
}

/// Sorts a list of strings lexicographically by insertion.
pub fn sort_strings(v: &Vec<String>) -> (r: Vec<String>)
    ensures
        r.deep_view() == spec_sort(v.deep_view()),
{
    let ghost dv = v.deep_view();
    let mut acc: Vec<String> = Vec::new();
    let mut i: usize = v.len();
    proof {
        assert(dv.skip(i as int) =~= Seq::<Seq<char>>::empty());
        assert(acc.deep_view() =~= Seq::<Seq<char>>::empty());
    }
    while i > 0
        invariant
            dv == v.deep_view(),
            dv.len() == v.len(),
            i <= v.len(),
            acc.deep_view() == spec_sort(dv.skip(i as int)),
        decreases i,
    {
        i = i - 1;
        proof {
            assert(dv.skip(i as int)[0] == dv[i as int]);
            assert(dv.skip(i as int).drop_first() =~= dv.skip(i + 1));
        }
        insert_string_sorted(&mut acc, v[i].clone());
    }
    proof {
        assert(dv.skip(0) =~= dv);
    }
    acc
}

/// The names of the entries, in order.
pub open spec fn keys_of(entries: HeaderEntries) -> Seq<Seq<char>> {
    entries.map_values(|e: (Seq<char>, Seq<Seq<char>>)| e.0)
}

/// The value list of `k`, empty when `k` is absent.
pub open spec fn lookup_or_empty(entries: HeaderEntries, k: Seq<char>) -> Seq<Seq<char>> {
    match lookup(entries, k) {
        Some(vals) => vals,
        None => Seq::<Seq<char>>::empty(),
    }
}

/// One line of the attached-headers block.  A provider-prefixed header
/// renders as `name:joined-values` (meta headers trim each value first);
/// the three fixed slots render as the bare joined values.
pub open spec fn spec_render_line(k: Seq<char>, vals: Seq<Seq<char>>, is_obs: bool) -> Seq<char> {
    if is_prefix_of(prefix_seq(is_obs), k) {
        if is_prefix_of(meta_prefix_seq(is_obs), k) {
            k + ":"@ + join_seq(vals.map_values(|v: Seq<char>| trim_seq(v)), ","@)
        } else {
            k + ":"@ + join_seq(vals, ","@)
        }
    } else {
        join_seq(vals, ","@)
    }
}

/// The lines signed for the given names, in order.
pub open spec fn spec_sign_lines(
    keys: Seq<Seq<char>>,
    entries: HeaderEntries,
    is_obs: bool,
) -> Seq<Seq<char>> {
    keys.map_values(|k: Seq<char>| spec_render_line(k, lookup_or_empty(entries, k), is_obs))
}

/// Copies a value list.
fn clone_values(v: &Vec<String>) -> (r: Vec<String>)
    ensures
        r.deep_view() == v.deep_view(),
{
    let mut r: Vec<String> = Vec::new();
    let n = v.len();
    let mut i: usize = 0;
    while i < n
        invariant
            n == v.len(),
            i <= n,
            r.deep_view().len() == i,
            forall|j: int| 0 <= j < i ==> r.deep_view()[j] == v.deep_view()[j],
        decreases n - i,
    {
        let c = v[i].clone();
        let ghost pre = r.deep_view();
        let ghost cv = c@;
        r.push(c);
        proof {
            assert(v.deep_view()[i as int] == v@[i as int].deep_view());
            assert(r.deep_view() =~= pre.push(cv));
        }
        i = i + 1;
    }
    assert(r.deep_view() =~= v.deep_view());
    r
}

/// Trims each value.
fn trim_values(v: &Vec<String>) -> (r: Vec<String>)
    ensures
        r.deep_view() == v.deep_view().map_values(|x: Seq<char>| trim_seq(x)),
{
    let mut r: Vec<String> = Vec::new();
    let n = v.len();
    let mut i: usize = 0;
    while i < n
        invariant
            n == v.len(),
            i <= n,
            r.deep_view().len() == i,
            forall|j: int| 0 <= j < i ==> r.deep_view()[j] == trim_seq(v.deep_view()[j]),
        decreases n - i,
    {
        let t = trim(v[i].as_str());
        let ghost pre = r.deep_view();
        let ghost tv = t@;
        r.push(t);
        proof {
            assert(v.deep_view()[i as int] == v@[i as int].deep_view());
            assert(r.deep_view() =~= pre.push(tv));
        }
        i = i + 1;
    }
    assert(r.deep_view() =~= v.deep_view().map_values(|x: Seq<char>| trim_seq(x)));
    r
}

/// Renders the signed line for one name.
fn render_line(k: &str, headers: &HeaderSet, is_obs: bool) -> (r: String)
    ensures
        r@ == spec_render_line(k@, lookup_or_empty(headers@, k@), is_obs),
{
    let vals: Vec<String> = match headers.get(k) {
        Some(v) => clone_values(v),
        None => Vec::new(),
    };
    proof {
        assert(vals.deep_view() =~= lookup_or_empty(headers@, k@));
    }
    if has_prefix(k, prefix_str(is_obs)) {
        let joined = if has_prefix(k, meta_prefix_str(is_obs)) {
            let trimmed = trim_values(&vals);
            join_with(&trimmed, ",")
        } else {
            join_with(&vals, ",")
        };
        let mut line = k.to_owned();
        line.append(":");
        line.append(joined.as_str());
        line
    } else {
        join_with(&vals, ",")
    }
}

/// Renders the signed line of each name, in order.  A name that is
/// absent from the set contributes its empty value list.
pub fn string_to_sign(keys: &Vec<String>, is_obs: bool, headers: &HeaderSet) -> (r: Vec<String>)
    ensures
        r.deep_view() == spec_sign_lines(keys.deep_view(), headers@, is_obs),
{
    let mut r: Vec<String> = Vec::new();
    let n = keys.len();
    let mut i: usize = 0;
    while i < n
        invariant
            n == keys.len(),
            keys.deep_view().len() == n,
            i <= n,
            r.deep_view().len() == i,
            forall|j: int|
                0 <= j < i ==> r.deep_view()[j] == spec_render_line(
                    keys.deep_view()[j],
                    lookup_or_empty(headers@, keys.deep_view()[j]),
                    is_obs,
                ),
        decreases n - i,
    {
        let line = render_line(keys[i].as_str(), headers, is_obs);
        let ghost pre = r.deep_view();
        let ghost lv = line@;
        proof {
            assert(keys.deep_view()[i as int] == keys@[i as int].deep_view());
        }
        r.push(line);
        proof {
            assert(r.deep_view() =~= pre.push(lv));
        }
        i = i + 1;
    }
    assert(r.deep_view() =~= spec_sign_lines(keys.deep_view(), headers@, is_obs));
    r
}

/// The attached-headers block for a header set: the canonical set's
/// names sorted lexicographically, rendered one per line.
pub open spec fn spec_attach_headers(h: HeaderEntries, is_obs: bool, now: Seq<char>) -> Seq<char> {
    let canon = spec_canonical_headers(h, is_obs, now);
    let keys = spec_sort(keys_of(canon));
    join_seq(spec_sign_lines(keys, canon, is_obs), "\n"@)
}

/// Normalizes the raw header set as [`spec_normalize_from`] describes.
fn normalize_headers(headers: &HeaderSet, is_obs: bool) -> (r: HeaderSet)
    ensures
        r@ == spec_normalize_from(
            headers@,
            is_obs,
            Seq::<(Seq<char>, Seq<Seq<char>>)>::empty(),
        ),
        r.wf(),
{
    let mut acc = HeaderSet::new();
    proof {
        assert(headers@.skip(0) =~= headers@);
    }
    let n = headers.len();
    let mut i: usize = 0;
    while i < n
        invariant
            n == headers@.len(),
            i <= n,
            acc.wf(),
            spec_normalize_from(
                headers@,
                is_obs,
                Seq::<(Seq<char>, Seq<Seq<char>>)>::empty(),
            ) == spec_normalize_from(headers@.skip(i as int), is_obs, acc@),
        decreases n - i,
    {
        proof {
            assert(headers@.skip(i as int)[0] == headers@[i as int]);
            assert(headers@.skip(i as int).drop_first() =~= headers@.skip(i + 1));
        }
        let trimmed = trim(headers.key_at(i).as_str());
        let key = to_lower(trimmed.as_str());
        if !key.as_str().is_empty() && keep_key(key.as_str(), is_obs) {
            let values = clone_values(headers.values_at(i));
            acc.insert(key, values);
        }
        i = i + 1;
    }
    proof {
        assert(headers@.skip(n as int) =~= Seq::<(Seq<char>, Seq<Seq<char>>)>::empty());
    }
    acc
}

/// Makes sure the fixed slot `k` is present, empty when it was absent.
fn ensure_slot(canon: &mut HeaderSet, k: &str)
    requires
        old(canon).wf(),
    ensures
        final(canon)@ == spec_with_slot(old(canon)@, k@),
        final(canon).wf(),
{
    if !canon.contains_key(k) {
        proof {
            crate::headers::lemma_insert_new(canon@, k@, Seq::<Seq<char>>::empty());
        }
        let empty_vals: Vec<String> = Vec::new();
        assert(empty_vals.deep_view() =~= Seq::<Seq<char>>::empty());
        canon.insert(k.to_owned(), empty_vals);
    }
}

/// Builds the canonical header set that signing renders.
pub fn canonical_headers(headers: &HeaderSet, is_obs: bool, now_rfc1123: &str) -> (r: HeaderSet)
    ensures
        r@ == spec_canonical_headers(headers@, is_obs, now_rfc1123@),
        r.wf(),
{
    let mut canon = normalize_headers(headers, is_obs);
    ensure_slot(&mut canon, "content-md5");
    ensure_slot(&mut canon, "content-type");
    ensure_slot(&mut canon, "date");
    let dk = date_key_str(is_obs);
    if canon.contains_key(dk) {
        let mut vals: Vec<String> = Vec::new();
        vals.push(now_rfc1123.to_owned());
        assert(vals.deep_view() =~= seq![now_rfc1123@]);
        canon.insert(dk.to_owned(), vals);
    }
    canon
}

/// Builds the attached-headers block of the string-to-sign from the raw
/// request headers, with `now_rfc1123` as the canonical current time.
pub fn attach_headers(headers: &HeaderSet, is_obs: bool, now_rfc1123: &str) -> (r: String)
    ensures
        r@ == spec_attach_headers(headers@, is_obs, now_rfc1123@),
{
    let canon = canonical_headers(headers, is_obs, now_rfc1123);
    let mut keys: Vec<String> = Vec::new();
    let n = canon.len();
    let mut i: usize = 0;
    while i < n
        invariant
            n == canon@.len(),
            i <= n,
            keys.deep_view().len() == i,
            forall|j: int| 0 <= j < i ==> keys.deep_view()[j] == canon@[j].0,
        decreases n - i,
    {
        let k = canon.key_at(i).clone();
        let ghost pre = keys.deep_view();
        let ghost kv = k@;
        keys.push(k);
        proof {
            assert(keys.deep_view() =~= pre.push(kv));
        }
        i = i + 1;
    }
    assert(keys.deep_view() =~= keys_of(canon@));
    let sorted = sort_strings(&keys);
    let lines = string_to_sign(&sorted, is_obs, &canon);
    join_with(&lines, "\n")
}

/// The date-normalization step: a single-valued provider-native date
/// header either yields a `Date` header (a compact timestamp under V4,
/// or a value already ending in `GMT` otherwise) or is dropped.
pub open spec fn spec_normalize_date(entries: HeaderEntries, is_v4: bool, is_obs: bool) -> (
    HeaderEntries) {
    match lookup(entries, date_key_seq(is_obs)) {
        Some(vals) => {
            if vals.len() == 1 && is_v4 && spec_is_basic_datetime(vals[0]) {
                spec_insert(entries, "Date"@, seq![rfc1123_seq(spec_basic_fields(vals[0]))])
            } else if vals.len() == 1 && !is_v4 && is_suffix_of("GMT"@, vals[0]) {
                spec_insert(entries, "Date"@, seq![vals[0]])
            } else {
                spec_remove(entries, date_key_seq(is_obs))
            }
        },
        None => entries,
    }
}

/// A `Date` header is synthesized from the current time when none is
/// present.
pub open spec fn spec_ensure_date(entries: HeaderEntries, now: Seq<char>) -> HeaderEntries {
    if has_key(entries, "Date"@) {
        entries
    } else {
        spec_insert(entries, "Date"@, seq![now])
    }
}

/// Date normalization followed by `Date` synthesis, as
/// [`spec_normalize_date`] and [`spec_ensure_date`] describe.
pub open spec fn spec_prepare_host_and_date(
    entries: HeaderEntries,
    is_v4: bool,
    is_obs: bool,
    now: Seq<char>,
) -> HeaderEntries {
    spec_ensure_date(spec_normalize_date(entries, is_v4, is_obs), now)
}

/// Normalizes the date headers of a request in place, with
/// `now_rfc1123` as the current time for synthesis.
pub fn prepare_host_and_date(
    headers: &mut HeaderSet,
    is_v4: bool,
    is_obs: bool,
    now_rfc1123: &str,
)
    requires
        old(headers).wf(),
    ensures
        final(headers)@ == spec_prepare_host_and_date(old(headers)@, is_v4, is_obs, now_rfc1123@),
        final(headers).wf(),
{
    let ghost entries = headers@;
    let dk = date_key_str(is_obs);
    let mut date_present = false;
    let mut date_val: Option<String> = None;
    match headers.get(dk) {
        Some(vals) => {
            date_present = true;
            if vals.len() == 1 {
                proof {
                    assert(vals.deep_view()[0] == vals@[0].deep_view());
                }
                date_val = Some(vals[0].clone());
            }
        },
        None => {},
    }
    if date_present {
        let mut flag = false;
        match &date_val {
            Some(v) => {
                if is_v4 {
                    match parse_basic_datetime(v.as_str()) {
                        Some(dt) => {
                            let rendered = format_rfc1123(&dt);
                            let mut vv: Vec<String> = Vec::new();
                            let ghost rv = rendered@;
                            vv.push(rendered);
                            assert(vv.deep_view() =~= seq![rv]);
                            headers.insert("Date".to_owned(), vv);
                            flag = true;
                        },
                        None => {},
                    }
                } else {
                    if crate::strutil::has_suffix(v.as_str(), "GMT") {
                        let mut vv: Vec<String> = Vec::new();
                        let ghost vvv = v@;
                        vv.push(v.clone());
                        assert(vv.deep_view() =~= seq![vvv]);
                        headers.insert("Date".to_owned(), vv);
                        flag = true;
                    }
                }
            },
            None => {},
        }
        if !flag {
            headers.remove(dk);
        }
    }
    if !headers.contains_key("Date") {
        let mut vv: Vec<String> = Vec::new();
        vv.push(now_rfc1123.to_owned());
        assert(vv.deep_view() =~= seq![now_rfc1123@]);
        headers.insert("Date".to_owned(), vv);
    }
}

/// The string-to-sign of a request: method, attached headers and
/// canonical resource, each on its own section, separated by newlines.
pub open spec fn spec_full_string_to_sign(
    method: Seq<char>,
    h: HeaderEntries,
    canonicalized_url: Seq<char>,
    now: Seq<char>,
) -> Seq<char> {
    method + "\n"@ + spec_attach_headers(h, true, now) + "\n"@ + canonicalized_url
}

/// The value of the `Host` header for a bucket at an endpoint.
pub open spec fn spec_host_value(bucket: Seq<char>, endpoint: Seq<char>) -> Seq<char> {
    if bucket.len() == 0 {
        endpoint
    } else {
        bucket + "."@ + endpoint
    }
}

/// The `Authorization` header value for an access key and signature.
pub open spec fn spec_auth_value(ak: Seq<char>, sig: Seq<char>) -> Seq<char> {
    "OBS "@ + ak + ":"@ + sig
}

/// The outgoing header set: each entry of `entries` merged onto `acc`
/// with its values joined by commas into a single value.
pub open spec fn spec_merge_joined(entries: HeaderEntries, acc: HeaderEntries) -> HeaderEntries
    decreases entries.len(),
{
    if entries.len() == 0 {
        acc
    } else {
        spec_merge_joined(
            entries.drop_first(),
            spec_insert(acc, entries[0].0, seq![join_seq(entries[0].1, ","@)]),
        )
    }
}

/// The full header set that authorization returns for a request, given
/// the canonical current time `now`: the original headers with `Host`
/// set, dates normalized, every value list joined, and the
/// `Authorization` header carrying the computed signature.
pub open spec fn spec_auth_headers(
    h: HeaderEntries,
    method: Seq<char>,
    bucket: Seq<char>,
    canonicalized_url: Seq<char>,
    endpoint: Seq<char>,
    is_v4: bool,
    now: Seq<char>,
    ak: Seq<char>,
    sk: Seq<char>,
) -> HeaderEntries {
    let hosted = spec_insert(h, "Host"@, seq![spec_host_value(bucket, endpoint)]);
    let prepared = spec_prepare_host_and_date(hosted, is_v4, true, now);
    let sig = spec_signature(sk, spec_full_string_to_sign(method, prepared, canonicalized_url, now));
    spec_merge_joined(prepared, seq![("Authorization"@, seq![spec_auth_value(ak, sig)])])
}

proof fn lemma_first_valid_at(ps: Seq<SecurityHolder>, i: int)
    requires
        0 <= i < ps.len(),
        spec_valid_holder(ps[i]),
        forall|j: int| 0 <= j < i ==> !spec_valid_holder(ps[j]),
    ensures
        spec_first_valid(ps) == Some(ps[i]),
    decreases i,
{
    if i > 0 {
        lemma_first_valid_at(ps.drop_first(), i - 1);
    }
}

proof fn lemma_first_valid_none(ps: Seq<SecurityHolder>)
    requires
        forall|j: int| 0 <= j < ps.len() ==> !spec_valid_holder(ps[j]),
    ensures
        spec_first_valid(ps) is None,
    decreases ps.len(),
{
    if ps.len() > 0 {
        lemma_first_valid_none(ps.drop_first());
    }
}

/// Signs and authorizes requests against a fixed configuration.
#[derive(Debug)]
pub struct Authenticator {
    config: Config,
}

impl Authenticator {
    /// The configuration this authenticator signs under.
    pub closed spec fn spec_config(&self) -> Config {
        self.config
    }

    pub fn new(config: Config) -> (r: Authenticator)
        ensures
            r.spec_config() == config,
    {
        Authenticator { config }
    }

    /// The configuration, for addressing and dispatch.
    pub fn config(&self) -> (r: &Config)
        ensures
            *r == self.spec_config(),
    {
        &self.config
    }

    /// Selects the first configured credential whose access and secret
    /// keys are both non-empty; none qualifying means signing cannot
    /// proceed.
    pub fn security(&self) -> (r: Option<SecurityHolder>)
        ensures
            r == spec_first_valid(self.spec_config().spec_providers()),
    {
        let ghost ps = self.spec_config().spec_providers();
        let providers = self.config.security_providers();
        let n = providers.len();
        let mut i: usize = 0;
        while i < n
            invariant
                n == providers@.len(),
                providers@ == ps,
                ps == self.spec_config().spec_providers(),
                i <= n,
                forall|j: int| 0 <= j < i ==> !spec_valid_holder(ps[j]),
            decreases n - i,
        {
            let sh = &providers[i];
            if !sh.sk().is_empty() && !sh.ak().is_empty() {
                proof {
                    assert(spec_valid_holder(ps[i as int]));
                    lemma_first_valid_at(ps, i as int);
                }
                return Some(sh.clone_holder());
            }
            i = i + 1;
        }
        proof {
            lemma_first_valid_none(ps);
        }
        None
    }

    /// Computes the request signature with `now_rfc1123` as the
    /// canonical current time.  Fails exactly when no usable credential
    /// is configured.
    pub fn signature_with_date(
        &self,
        method: &str,
        headers: &HeaderSet,
        canonicalized_url: &str,
        now_rfc1123: &str,
    ) -> (r: Result<String, ObsError>)
        ensures
            (r is Ok) == (spec_first_valid(self.spec_config().spec_providers()) is Some),
            r matches Err(e) ==> e is Security,
            r matches Ok(s) ==> s@ == spec_signature(
                spec_first_valid(self.spec_config().spec_providers()).unwrap().sk_spec(),
                spec_full_string_to_sign(method@, headers@, canonicalized_url@, now_rfc1123@),
            ),
    {
        let attach = attach_headers(headers, true, now_rfc1123);
        let mut sts = method.to_owned();
        sts.append("\n");
        sts.append(attach.as_str());
        sts.append("\n");
        sts.append(canonicalized_url);
        match self.security() {
            Some(s) => signature(sts.as_str(), s.sk()),
            None => Err(ObsError::Security),
        }
    }

    /// Computes the request signature at the current time.  Fails
    /// exactly when no usable credential is configured.
    pub fn signature(
        &self,
        method: &str,
        _params: &Vec<(String, String)>,
        headers: &HeaderSet,
        canonicalized_url: &str,
    ) -> (r: Result<String, ObsError>)
        ensures
            (r is Ok) == (spec_first_valid(self.spec_config().spec_providers()) is Some),
            r matches Err(e) ==> e is Security,
            r matches Ok(s) ==> exists|dt: DateTime|
                valid_datetime(dt) && s@ == spec_signature(
                    spec_first_valid(self.spec_config().spec_providers()).unwrap().sk_spec(),
                    spec_full_string_to_sign(
                        method@,
                        headers@,
                        canonicalized_url@,
                        rfc1123_seq(dt),
                    ),
                ),
    {
        let now = rfc_1123();
        self.signature_with_date(method, headers, canonicalized_url, now.as_str())
    }

    /// Authorizes a request with `now_rfc1123` as the canonical current
    /// time: sets `Host`, normalizes dates, signs, and returns the full
    /// outgoing header set.  Fails exactly when no usable credential is
    /// configured, and then no header set is produced.
    pub fn auth_with_date(
        &self,
        method: &str,
        bucket: &str,
        _params: &Vec<(String, String)>,
        headers: HeaderSet,
        canonicalized_url: &str,
        now_rfc1123: &str,
    ) -> (r: Result<HeaderSet, ObsError>)
        requires
            headers.wf(),
        ensures
            (r is Ok) == (spec_first_valid(self.spec_config().spec_providers()) is Some),
            r matches Err(e) ==> e is Security,
            r matches Ok(h) ==> h@ == spec_auth_headers(
                headers@,
                method@,
                bucket@,
                canonicalized_url@,
                self.spec_config().spec_endpoint(),
                (self.spec_config().spec_signature_type() is V4),
                now_rfc1123@,
                spec_first_valid(self.spec_config().spec_providers()).unwrap().ak_spec(),
                spec_first_valid(self.spec_config().spec_providers()).unwrap().sk_spec(),
            ),
    {
        let mut h = headers;
        let ghost orig = h@;
        let ghost ep = self.spec_config().spec_endpoint();
        let is_v4 = matches!(self.config.signature_type, SignatureType::V4);
        proof {
            assert(is_v4 == (self.spec_config().spec_signature_type() is V4));
        }
        let mut host_value: String;
        if !bucket.is_empty() {
            host_value = bucket.to_owned();
            host_value.append(".");
            host_value.append(self.config.endpoint());
            assert(host_value@ =~= spec_host_value(bucket@, ep));
        } else {
            host_value = self.config.endpoint().to_owned();
            assert(host_value@ =~= spec_host_value(bucket@, ep));
        }
        let mut hv: Vec<String> = Vec::new();
        let ghost hvv = host_value@;
        hv.push(host_value);
        assert(hv.deep_view() =~= seq![hvv]);
        h.insert("Host".to_owned(), hv);
        let ghost hosted = h@;
        proof {
            assert(hosted == spec_insert(orig, "Host"@, seq![spec_host_value(bucket@, ep)]));
        }
        prepare_host_and_date(&mut h, is_v4, true, now_rfc1123);
        proof {
            assert(h@ == spec_prepare_host_and_date(hosted, is_v4, true, now_rfc1123@));
        }
        let sign = match self.signature_with_date(method, &h, canonicalized_url, now_rfc1123) {
            Ok(s) => s,
            Err(e) => {
                return Err(e);
            },
        };
        let sec = match self.security() {
            Some(s) => s,
            None => {
                return Err(ObsError::Security);
            },
        };
        let mut auth_value = String::from_str("OBS ");
        auth_value.append(sec.ak());
        auth_value.append(":");
        auth_value.append(sign.as_str());
        let mut out = HeaderSet::new();
        let mut av: Vec<String> = Vec::new();
        let ghost avv = auth_value@;
        av.push(auth_value);
        assert(av.deep_view() =~= seq![avv]);
        out.insert("Authorization".to_owned(), av);
        let ghost prepared = h@;
        let ghost acc0 = out@;
        proof {
            assert(prepared.skip(0) =~= prepared);
        }
        let n = h.len();
        let mut i: usize = 0;
        while i < n
            invariant
                n == h@.len(),
                h@ == prepared,
                i <= n,
                spec_merge_joined(prepared, acc0) == spec_merge_joined(
                    prepared.skip(i as int),
                    out@,
                ),
            decreases n - i,
        {
            proof {
                assert(prepared.skip(i as int)[0] == prepared[i as int]);
                assert(prepared.skip(i as int).drop_first() =~= prepared.skip(i + 1));
            }
            let joined = join_with(h.values_at(i), ",");
            let mut jv: Vec<String> = Vec::new();
            let ghost jvv = joined@;
            jv.push(joined);
            assert(jv.deep_view() =~= seq![jvv]);
            out.insert(h.key_at(i).clone(), jv);
            i = i + 1;
        }
        proof {
            assert(prepared.skip(n as int) =~= Seq::<(Seq<char>, Seq<Seq<char>>)>::empty());
            let fv = spec_first_valid(self.spec_config().spec_providers());
            let sig = spec_signature(
                fv.unwrap().sk_spec(),
                spec_full_string_to_sign(method@, prepared, canonicalized_url@, now_rfc1123@),
            );
            assert(sign@ == sig);
            assert(avv =~= spec_auth_value(fv.unwrap().ak_spec(), sig));
            assert(acc0 =~= seq![("Authorization"@, seq![spec_auth_value(fv.unwrap().ak_spec(), sig)])]);
            assert(out@ == spec_merge_joined(prepared, acc0));
            assert(out@ == spec_auth_headers(
                orig,
                method@,
                bucket@,
                canonicalized_url@,
                ep,
                is_v4,
                now_rfc1123@,
                fv.unwrap().ak_spec(),
                fv.unwrap().sk_spec(),
            ));
        }
        Ok(out)
    }

    /// Authorizes a request at the current time, as
    /// [`Authenticator::auth_with_date`] does at a fixed one.  Fails
    /// exactly when no usable credential is configured, and then no
    /// header set is produced.
    pub fn auth(
        &self,
        method: &str,
        bucket: &str,
        params: &Vec<(String, String)>,
        headers: HeaderSet,
        canonicalized_url: &str,
    ) -> (r: Result<HeaderSet, ObsError>)
        requires
            headers.wf(),
        ensures
            (r is Ok) == (spec_first_valid(self.spec_config().spec_providers()) is Some),
            r matches Err(e) ==> e is Security,
            r matches Ok(h) ==> exists|dt: DateTime|
                valid_datetime(dt) && h@ == spec_auth_headers(
                    headers@,
                    method@,
                    bucket@,
                    canonicalized_url@,
                    self.spec_config().spec_endpoint(),
                    (self.spec_config().spec_signature_type() is V4),
                    rfc1123_seq(dt),
                    spec_first_valid(self.spec_config().spec_providers()).unwrap().ak_spec(),
                    spec_first_valid(self.spec_config().spec_providers()).unwrap().sk_spec(),
                ),
    {
        let now = rfc_1123();
        self.auth_with_date(method, bucket, params, headers, canonicalized_url, now.as_str())
    }
}

} // verus!
