//! Stripe: webhook signature verification, the request forms and paths the
//! REST calls send, the reading of replies, and the subscription objects the
//! webhooks carry.

use vstd::prelude::*;
use vstd::string::*;
use vstd::utf8::{decode_utf8, encode_utf8};
use crate::clock::{format_utc_timestamp, utc_timestamp_text};
use crate::crypto::{hmac_sha256, hmac_sha256_tag};
use crate::json::{
    integer_member, json_error, json_integer_member, json_nested_integer, nested_integer,
    json_string_member, json_syntax_error, string_member,
};
use crate::text::{
    lemma_decimal_digits, lemma_parse_signed_decimal,
    lemma_split_append, lemma_split_without_separator, lemma_trim_unchanged,
    ascii_bytes, chars_of, copy_range, decimal, decimal_chars, digit_char, find_in_range, is_first_index,
    decimal_string, parse_i64, parse_i64_range, push_char, str_eq, signed_decimal, split_on, split_once, string_from_chars,
    trim, trim_range,
};

verus! {

broadcast use vstd::utf8::encode_utf8_decode_utf8;

/// How far, in seconds, the timestamp on a webhook signature may lie from our
/// clock before the webhook is rejected as a replay.
pub const WEBHOOK_TOLERANCE_SECONDS: i64 = 300;

/// What can go wrong talking to Stripe or checking one of its webhooks.
#[derive(Debug)]
pub enum StripeError {
    /// `STRIPE_SECRET_KEY` is not set.
    MissingApiKey,
    /// Stripe could not be reached.
    Transport(String),
    /// Stripe answered with a status outside 200..=299.
    Api { status: u16, body: String },
    /// Stripe's answer could not be understood.
    Decode(String),
    /// A webhook's signature did not verify.
    BadSignature(String),
}

/// The lowercase hex digit for `d` (0 through 15).
pub open spec fn hex_char(d: nat) -> char {
    if d < 10 {
        digit_char(d)
    } else if d == 10 {
        'a'
    } else if d == 11 {
        'b'
    } else if d == 12 {
        'c'
    } else if d == 13 {
        'd'
    } else if d == 14 {
        'e'
    } else {
        'f'
    }
}

/// Lowercase hex encoding, two characters per byte, high nibble first.
pub open spec fn hex_lower_spec(bytes: Seq<u8>) -> Seq<char>
    decreases bytes.len(),
{
    if bytes.len() == 0 {
        Seq::empty()
    } else {
        hex_lower_spec(bytes.drop_last()) + seq![
            hex_char((bytes.last() / 16) as nat),
            hex_char((bytes.last() % 16) as nat),
        ]
    }
}

fn hex_digit(d: u8) -> (c: char)
    requires
        d < 16,
    ensures
        c == hex_char(d as nat),
{
    if d == 0 { '0' }
    else if d == 1 { '1' }
    else if d == 2 { '2' }
    else if d == 3 { '3' }
    else if d == 4 { '4' }
    else if d == 5 { '5' }
    else if d == 6 { '6' }
    else if d == 7 { '7' }
    else if d == 8 { '8' }
    else if d == 9 { '9' }
    else if d == 10 { 'a' }
    else if d == 11 { 'b' }
    else if d == 12 { 'c' }
    else if d == 13 { 'd' }
    else if d == 14 { 'e' }
    else { 'f' }
}

/// Lowercase hex encoding of `bytes`.
pub fn hex_lower(bytes: &[u8]) -> (out: String)
    ensures
        out@ == hex_lower_spec(bytes@),
{
    let mut out = String::new();
    let mut i: usize = 0;
    while i < bytes.len()
        invariant
            i <= bytes.len(),
            out@ == hex_lower_spec(bytes@.take(i as int)),
        decreases bytes.len() - i,
    {
        let b = bytes[i];
        proof {
            assert(bytes@.take(i + 1).drop_last() =~= bytes@.take(i as int));
        }
        push_char(&mut out, hex_digit(b / 16));
        push_char(&mut out, hex_digit(b % 16));
        i = i + 1;
        assert(out@ =~= hex_lower_spec(bytes@.take(i as int)));
    }
    assert(bytes@.take(bytes.len() as int) =~= bytes@);
    out
}

/// Compares two byte strings without stopping at the first difference, so
/// the time taken does not reveal where they differ.
pub fn constant_time_eq(a: &[u8], b: &[u8]) -> (eq: bool)
    ensures
        eq == (a@ == b@),
{
    if a.len() != b.len() {
        return false;
    }
    let mut diff: u8 = 0;
    let mut i: usize = 0;
    while i < a.len()
        invariant
            i <= a.len() == b.len(),
            (diff == 0) == (forall|k: int| 0 <= k < i ==> a@[k] == b@[k]),
        decreases a.len() - i,
    {
        let x = a[i];
        let y = b[i];
        assert(((diff | (x ^ y)) == 0u8) == (diff == 0u8 && x == y)) by (bit_vector);
        diff = diff | (x ^ y);
        i = i + 1;
    }
    assert(diff == 0 ==> a@ =~= b@);
    diff == 0
}

/// What the header scan holds after some of its `key=value` parts: the
/// timestamp so far, and the `v1` signatures in order.
pub type HeaderScan = (Option<i64>, Seq<Seq<char>>);

/// One `key=value` part of a `Stripe-Signature` header applied to the scan:
/// a part without `=` makes the whole header malformed (`None`); `t` sets the
/// timestamp (to `None` when it does not parse), `v1` adds a signature, and
/// every other key is ignored. Keys and values are trimmed of white space.
pub open spec fn scan_part(state: HeaderScan, part: Seq<char>) -> Option<HeaderScan> {
    match split_once(part, '=') {
        None => None,
        Some((key, value)) => {
            let key = trim(key);
            if key == seq!['t'] {
                Some((parse_i64(trim(value)), state.1))
            } else if key == seq!['v', '1'] {
                Some((state.0, state.1.push(trim(value))))
            } else {
                Some(state)
            }
        },
    }
}

/// The scan of all `parts`, from the first to the last.
pub open spec fn scan_header(parts: Seq<Seq<char>>) -> Option<HeaderScan>
    decreases parts.len(),
{
    if parts.len() == 0 {
        Some((None, Seq::empty()))
    } else {
        match scan_header(parts.drop_last()) {
            None => None,
            Some(state) => scan_part(state, parts.last()),
        }
    }
}

/// The bytes that Stripe signs: the decimal timestamp, a `.`, the payload.
pub open spec fn signed_payload(timestamp: i64, payload: Seq<u8>) -> Seq<u8> {
    ascii_bytes(signed_decimal(timestamp as int)) + seq![46u8] + payload
}

/// The `v1` signature Stripe sends for `payload` at `timestamp`.
pub open spec fn expected_signature(secret: Seq<u8>, timestamp: i64, payload: Seq<u8>) -> Seq<char> {
    hex_lower_spec(hmac_sha256_tag(secret, signed_payload(timestamp, payload)))
}

/// How many seconds lie between `now` and `timestamp`.
pub open spec fn signature_age(now: i64, timestamp: i64) -> nat {
    if now >= timestamp {
        (now - timestamp) as nat
    } else {
        (timestamp - now) as nat
    }
}

/// The verdict on a webhook signature header at time `now`: `Ok` or the
/// reason it is rejected. The header is split at `,`, each part at its first
/// `=`; it must hold a timestamp and at least one `v1` signature; the
/// timestamp must lie within the tolerance of `now`; and one of the `v1`
/// signatures must equal the HMAC-SHA256 of the signed payload under the
/// secret, in lowercase hex.
pub open spec fn webhook_signature_check(
    payload: Seq<u8>,
    header: Seq<char>,
    secret: Seq<u8>,
    now: i64,
) -> Result<(), Seq<char>> {
    match scan_header(split_on(header, ',')) {
        None => Err("malformed header"@),
        Some((None, _)) => Err("no timestamp in header"@),
        Some((Some(t), signatures)) => {
            if signatures.len() == 0 {
                Err("no v1 signatures in header"@)
            } else if signature_age(now, t) > WEBHOOK_TOLERANCE_SECONDS {
                Err("timestamp outside tolerance ("@ + decimal(signature_age(now, t)) + "s)"@)
            } else if signatures.contains(expected_signature(secret, t, payload)) {
                Ok(())
            } else {
                Err("no signature matched"@)
            }
        },
    }
}

/// Whether `r` reports the verdict `verdict`: `Ok` for `Ok`, and a
/// `BadSignature` carrying the reason for a rejection.
pub open spec fn reports_verdict(r: Result<(), StripeError>, verdict: Result<(), Seq<char>>) -> bool {
    match (r, verdict) {
        (Ok(()), Ok(())) => true,
        (Err(StripeError::BadSignature(m)), Err(reason)) => m@ == reason,
        _ => false,
    }
}

fn scan_one_part(
    cs: &Vec<char>,
    lo: usize,
    hi: usize,
    timestamp: &mut Option<i64>,
    signatures: &mut Vec<Vec<char>>,
) -> (ok: bool)
    requires
        lo <= hi <= cs.len(),
    ensures
        ok == scan_part(
            (*old(timestamp), old(signatures).deep_view()),
            cs@.subrange(lo as int, hi as int),
        ) is Some,
        ok ==> scan_part(
            (*old(timestamp), old(signatures).deep_view()),
            cs@.subrange(lo as int, hi as int),
        ) == Some((*final(timestamp), final(signatures).deep_view())),
{
    let ghost part = cs@.subrange(lo as int, hi as int);
    let ghost state = (*timestamp, signatures.deep_view());
    let eq = match find_in_range(cs, lo, hi, '=') {
        None => {
            return false;
        },
        Some(j) => j,
    };
    proof {
        let k = eq - lo;
        assert forall|m: int| is_first_index(part, '=', m) implies m == k by {
            if m < k {
                assert(part[m] != '=');
            }
            if m > k {
                assert(part[k] != '=');
            }
        }
        assert(part.contains('='));
        let c = choose|m: int| is_first_index(part, '=', m);
        assert(c == k);
        assert(part.take(k) =~= cs@.subrange(lo as int, eq as int));
        assert(part.skip(k + 1) =~= cs@.subrange(eq + 1, hi as int));
    }
    let (ka, kb) = trim_range(cs, lo, eq);
    let (va, vb) = trim_range(cs, eq + 1, hi);
    let ghost key = cs@.subrange(ka as int, kb as int);
    if kb - ka == 1 && cs[ka] == 't' {
        assert(key =~= seq!['t']);
        *timestamp = parse_i64_range(cs, va, vb);
    } else if kb - ka == 2 && cs[ka] == 'v' && cs[ka + 1] == '1' {
        assert(key =~= seq!['v', '1']);
        assert(key != seq!['t']);
        let sig = copy_range(cs, va, vb);
        let ghost old_sigs = signatures@;
        let ghost new_sig = sig;
        assert(sig.deep_view() =~= sig@);
        signatures.push(sig);
        assert(signatures@ == old_sigs.push(new_sig));
        assert(signatures.deep_view() =~= state.1.push(cs@.subrange(va as int, vb as int)));
    } else {
        assert(key != seq!['t']) by {
            if key == seq!['t'] {
                assert(key.len() == 1 && key[0] == 't');
            }
        }
        assert(key != seq!['v', '1']) by {
            if key == seq!['v', '1'] {
                assert(key.len() == 2 && key[0] == 'v' && key[1] == '1');
            }
        }
    }
    true
}

/// Checks a `Stripe-Signature` header against `secret` at time `now` (Unix
/// seconds): the verdict of [`webhook_signature_check`], reported as `Ok` or
/// as `StripeError::BadSignature` with the reason.
pub fn verify_signature_at(payload: &[u8], signature_header: &str, secret: &str, now: i64) -> (r:
    Result<(), StripeError>)
    ensures
        reports_verdict(
            r,
            webhook_signature_check(payload@, signature_header@, secret.spec_bytes(), now),
        ),
{
    let cs = chars_of(signature_header);
    let n = cs.len();
    let mut timestamp: Option<i64> = None;
    let mut signatures: Vec<Vec<char>> = Vec::new();
    let mut malformed = false;
    let mut start: usize = 0;
    let mut i: usize = 0;
    let ghost mut parts: Seq<Seq<char>> = Seq::empty();
    proof {
        assert(cs@.take(0) =~= Seq::<char>::empty());
        assert(cs@.subrange(0, 0) =~= Seq::<char>::empty());
        assert(parts.push(cs@.subrange(0, 0)) =~= split_on(cs@.take(0), ','));
    }
    while i < n
        invariant
            n == cs.len(),
            start <= i <= n,
            parts.push(cs@.subrange(start as int, i as int)) == split_on(cs@.take(i as int), ','),
            malformed ==> scan_header(parts) is None,
            !malformed ==> scan_header(parts) == Some((timestamp, signatures.deep_view())),
        decreases n - i,
    {
        let c = cs[i];
        proof {
            assert(cs@.take(i + 1).drop_last() =~= cs@.take(i as int));
            assert(cs@.take(i + 1).last() == c);
        }
        if c == ',' {
            let ghost cur = cs@.subrange(start as int, i as int);
            let ghost before_t = timestamp;
            let ghost before_s = signatures.deep_view();
            if !malformed {
                let ok = scan_one_part(&cs, start, i, &mut timestamp, &mut signatures);
                if !ok {
                    malformed = true;
                }
            }
            proof {
                assert(parts.push(cur).drop_last() =~= parts);
                parts = parts.push(cur);
                assert(cs@.subrange((i + 1) as int, (i + 1) as int) =~= Seq::<char>::empty());
            }
            start = i + 1;
        } else {
            proof {
                assert(cs@.subrange(start as int, i + 1) =~= cs@.subrange(start as int, i as int).push(c));
                let r = parts.push(cs@.subrange(start as int, i as int));
                assert(r.update(r.len() - 1, r.last().push(c)) =~= parts.push(
                    cs@.subrange(start as int, i + 1),
                ));
            }
        }
        i = i + 1;
    }
    proof {
        assert(cs@.take(n as int) =~= cs@);
    }
    let ghost cur = cs@.subrange(start as int, n as int);
    if !malformed {
        let ok = scan_one_part(&cs, start, n, &mut timestamp, &mut signatures);
        if !ok {
            malformed = true;
        }
    }
    proof {
        assert(parts.push(cur).drop_last() =~= parts);
    }
    if malformed {
        return Err(StripeError::BadSignature(String::from_str("malformed header")));
    }
    let t = match timestamp {
        None => {
            return Err(StripeError::BadSignature(String::from_str("no timestamp in header")));
        },
        Some(t) => t,
    };
    if signatures.len() == 0 {
        return Err(StripeError::BadSignature(String::from_str("no v1 signatures in header")));
    }
    let diff: i128 = now as i128 - t as i128;
    let age: u128 = if diff < 0 { (-diff) as u128 } else { diff as u128 };
    assert(age == signature_age(now, t));
    if age > 300 {
        let mut m = String::from_str("timestamp outside tolerance (");
        let digits = string_from_chars(&decimal_chars(age));
        m.append(digits.as_str());
        m.append("s)");
        return Err(StripeError::BadSignature(m));
    }
    let mut signed: Vec<u8> = Vec::new();
    if t < 0 {
        signed.push('-' as u8);
    }
    let magnitude: u128 = if t < 0 { (-(t as i128)) as u128 } else { t as u128 };
    let digits = decimal_chars(magnitude);
    let mut k: usize = 0;
    while k < digits.len()
        invariant
            k <= digits.len(),
            digits@ == decimal(magnitude as nat),
            signed@ == (if t < 0 { seq!['-' as u8] } else { Seq::<u8>::empty() }) + ascii_bytes(
                digits@.take(k as int),
            ),
        decreases digits.len() - k,
    {
        signed.push(digits[k] as u8);
        k = k + 1;
        assert(ascii_bytes(digits@.take(k as int)) =~= ascii_bytes(digits@.take(k - 1)).push(
            digits@[k - 1] as u8,
        ));
    }
    proof {
        assert(digits@.take(digits.len() as int) =~= digits@);
        assert(ascii_bytes(signed_decimal(t as int)) =~= signed@);
    }
    signed.push(46u8);
    let mut p: usize = 0;
    let ghost prefix = signed@;
    while p < payload.len()
        invariant
            p <= payload.len(),
            signed@ == prefix + payload@.take(p as int),
        decreases payload.len() - p,
    {
        signed.push(payload[p]);
        p = p + 1;
        assert(signed@ =~= prefix + payload@.take(p as int));
    }
    proof {
        assert(payload@.take(payload.len() as int) =~= payload@);
        assert(signed@ =~= signed_payload(t, payload@));
    }
    let tag = hmac_sha256(secret.as_bytes(), signed.as_slice());
    let expected = hex_lower(tag.as_slice());
    let ghost want = expected_signature(secret.spec_bytes(), t, payload@);
    assert(expected@ == want);
    let expected_bytes = expected.as_str().as_bytes();
    let mut matched = false;
    let mut s: usize = 0;
    while s < signatures.len()
        invariant
            s <= signatures.len(),
            expected@ == want,
            expected_bytes@ == encode_utf8(expected@),
            matched == exists|q: int| 0 <= q < s && signatures.deep_view()[q] == want,
        decreases signatures.len() - s,
    {
        let candidate = string_from_chars(&signatures[s]);
        assert(signatures@[s as int].deep_view() =~= signatures@[s as int]@);
        let same = constant_time_eq(candidate.as_str().as_bytes(), expected_bytes);
        proof {
            assert(decode_utf8(encode_utf8(candidate@)) == candidate@);
            assert(decode_utf8(encode_utf8(expected@)) == expected@);
            assert(same == (candidate@ == want));
            assert(signatures.deep_view()[s as int] == candidate@);
        }
        if same {
            matched = true;
        }
        s = s + 1;
    }
    proof {
        if signatures.deep_view().contains(want) {
            let q = choose|q: int| 0 <= q < signatures.deep_view().len() && signatures.deep_view()[q] == want;
            assert(0 <= q < signatures.len());
        }
    }
    if matched {
        Ok(())
    } else {
        Err(StripeError::BadSignature(String::from_str("no signature matched")))
    }
}


/// Where the Stripe REST API lives.
pub const STRIPE_API_BASE: &'static str = "https://api.stripe.com";

/// The API version every request pins (Managed Payments needs this preview
/// version or newer), sent as the `Stripe-Version` header.
pub const STRIPE_VERSION: &'static str = "2026-02-25.preview";

/// The message of an error, as its `Display` renders it.
pub open spec fn stripe_error_message(e: StripeError) -> Seq<char> {
    match e {
        StripeError::MissingApiKey => "STRIPE_SECRET_KEY is not set"@,
        StripeError::Transport(m) => "Could not reach Stripe: "@ + m@,
        StripeError::Api { status, body } => "Stripe returned "@ + decimal(status as nat) + ": "@
            + body@,
        StripeError::Decode(m) => "Could not understand Stripe's response: "@ + m@,
        StripeError::BadSignature(m) => "Webhook signature verification failed: "@ + m@,
    }
}

impl StripeError {
    /// The text of this error.
    pub fn message(&self) -> (m: String)
        ensures
            m@ == stripe_error_message(*self),
    {
        match self {
            StripeError::MissingApiKey => String::from_str("STRIPE_SECRET_KEY is not set"),
            StripeError::Transport(e) => {
                let mut m = String::from_str("Could not reach Stripe: ");
                m.append(e.as_str());
                m
            },
            StripeError::Api { status, body } => {
                let mut m = String::from_str("Stripe returned ");
                let code = decimal_string(*status as u128);
                m.append(code.as_str());
                m.append(": ");
                m.append(body.as_str());
                m
            },
            StripeError::Decode(e) => {
                let mut m = String::from_str("Could not understand Stripe's response: ");
                m.append(e.as_str());
                m
            },
            StripeError::BadSignature(e) => {
                let mut m = String::from_str("Webhook signature verification failed: ");
                m.append(e.as_str());
                m
            },
        }
    }
}

/// Checks a webhook's `Stripe-Signature` header against `secret` at the
/// moment the clock is read: the verdict of [`webhook_signature_check`] at
/// that moment.
pub fn verify_signature(payload: &[u8], signature_header: &str, secret: &str) -> (r: Result<
    (),
    StripeError,
>)
    ensures
        exists|now: i64|
            now >= 0 && reports_verdict(
                r,
                #[trigger] webhook_signature_check(
                    payload@,
                    signature_header@,
                    secret.spec_bytes(),
                    now,
                ),
            ),
{
    let clock = crate::clock::utc_now();
    let r = verify_signature_at(payload, signature_header, secret, clock.secs);
    assert(clock.secs >= 0 && reports_verdict(
        r,
        webhook_signature_check(payload@, signature_header@, secret.spec_bytes(), clock.secs),
    ));
    r
}

/// The product/price pair created for the monthly plan.
pub struct SubscriptionProduct {
    pub product_id: String,
    pub price_id: String,
}

/// A Checkout Session the customer can be redirected to.
pub struct CheckoutSession {
    pub id: String,
    pub url: String,
}

/// The fields read off a `checkout.session.completed` object.
pub struct CompletedCheckoutSession {
    pub id: String,
    pub client_reference_id: Option<String>,
    pub customer: Option<String>,
    pub subscription: Option<String>,
    pub payment_intent: Option<String>,
}

/// The fields read off a `customer.subscription.*` webhook object (and the
/// reply to a cancel call, which has the same shape).
pub struct SubscriptionLifecycle {
    pub id: String,
    pub status: Option<String>,
    pub cancel_at_period_end: bool,
    /// The top-level `current_period_end`, in Unix seconds.
    pub current_period_end: Option<i64>,
    /// The `current_period_end` of the first subscription item, where recent
    /// API versions moved it.
    pub item_period_end: Option<i64>,
    /// The subscription's metadata, one entry per key.
    pub metadata: Vec<(String, String)>,
}

/// The value stored under `key` in `metadata` (its first entry with that key).
pub open spec fn metadata_value(metadata: Seq<(String, String)>, key: Seq<char>) -> Option<Seq<char>>
    decreases metadata.len(),
{
    if metadata.len() == 0 {
        None
    } else if metadata[0].0@ == key {
        Some(metadata[0].1@)
    } else {
        metadata_value(metadata.drop_first(), key)
    }
}

/// The paid-through Unix time of a subscription: the top-level field, or else
/// the one on the first item.
pub open spec fn period_end_secs(top: Option<i64>, item: Option<i64>) -> Option<i64> {
    match top {
        Some(t) => Some(t),
        None => item,
    }
}

/// The views of an optional string.
pub open spec fn opt_view(o: Option<String>) -> Option<Seq<char>> {
    match o {
        Some(s) => Some(s@),
        None => None,
    }
}

/// The stored text of a subscription's paid-through date: the formatted
/// top-level or first-item `current_period_end`, if either is present and
/// representable.
pub open spec fn period_end_view(top: Option<i64>, item: Option<i64>) -> Option<Seq<char>> {
    match period_end_secs(top, item) {
        None => None,
        Some(secs) => utc_timestamp_text(secs),
    }
}

/// The paid-through date formatted the way the `subscription` table stores
/// timestamps, from the top-level or the first item's `current_period_end`.
pub fn period_end_text(top: Option<i64>, item: Option<i64>) -> (r: Option<String>)
    ensures
        opt_view(r) == period_end_view(top, item),
{
    let secs = match top {
        Some(t) => t,
        None => match item {
            Some(t) => t,
            None => {
                return None;
            },
        },
    };
    format_utc_timestamp(secs)
}

/// Whether a subscription status means the subscription is over for good.
pub open spec fn status_has_ended(status: Option<Seq<char>>) -> bool {
    match status {
        Some(s) => s == "canceled"@ || s == "incomplete_expired"@,
        None => false,
    }
}

impl SubscriptionLifecycle {
    /// The account this subscription belongs to, stamped into `metadata` when
    /// the Checkout Session was created. `None` for subscriptions made before
    /// that stamping existed.
    pub fn hashed_email(&self) -> (r: Option<&str>)
        ensures
            match r {
                Some(v) => metadata_value(self.metadata@, "hashed_email"@) == Some(v@),
                None => metadata_value(self.metadata@, "hashed_email"@) is None,
            },
    {
        let mut i: usize = 0;
        assert(self.metadata@.skip(0) =~= self.metadata@);
        while i < self.metadata.len()
            invariant
                i <= self.metadata.len(),
                metadata_value(self.metadata@, "hashed_email"@) == metadata_value(
                    self.metadata@.skip(i as int),
                    "hashed_email"@,
                ),
            decreases self.metadata.len() - i,
        {
            let entry = &self.metadata[i];
            assert(self.metadata@.skip(i as int)[0] == *entry);
            if str_eq(entry.0.as_str(), "hashed_email") {
                return Some(entry.1.as_str());
            }
            assert(self.metadata@.skip(i as int).drop_first() =~= self.metadata@.skip(i + 1));
            i = i + 1;
        }
        assert(self.metadata@.skip(i as int) =~= Seq::<(String, String)>::empty());
        None
    }

    /// The paid-through date formatted the way the `subscription` table
    /// stores timestamps, checking both the top-level field and the per-item
    /// location.
    pub fn period_end_rfc3339(&self) -> (r: Option<String>)
        ensures
            opt_view(r) == period_end_view(self.current_period_end, self.item_period_end),
    {
        period_end_text(self.current_period_end, self.item_period_end)
    }

    /// True when the subscription is over for good, not merely set to cancel.
    pub fn has_ended(&self) -> (b: bool)
        ensures
            b == status_has_ended(opt_view(self.status)),
    {
        match &self.status {
            Some(s) => str_eq(s.as_str(), "canceled") || str_eq(s.as_str(), "incomplete_expired"),
            None => false,
        }
    }
}

/// The views of a list of form fields.
pub open spec fn form_view(form: Seq<(String, String)>) -> Seq<(Seq<char>, Seq<char>)> {
    form.map_values(|f: (String, String)| (f.0@, f.1@))
}

fn field(name: &str, value: &str) -> (f: (String, String))
    ensures
        f.0@ == name@,
        f.1@ == value@,
{
    (String::from_str(name), String::from_str(value))
}

/// The form that creates the monthly product together with its recurring
/// $5/month price, tagged with the digital-goods tax code.
pub fn subscription_product_form() -> (form: Vec<(String, String)>)
    ensures
        form_view(form@) == seq![
            ("name"@, "Basic subscription"@),
            ("description"@, "Grants access to the febudget.com platform on a month to month basis"@),
            ("tax_code"@, "txcd_10103100"@),
            ("default_price_data[unit_amount]"@, "500"@),
            ("default_price_data[currency]"@, "usd"@),
            ("default_price_data[recurring][interval]"@, "month"@),
        ],
{
    let mut form: Vec<(String, String)> = Vec::new();
    form.push(field("name", "Basic subscription"));
    form.push(field("description", "Grants access to the febudget.com platform on a month to month basis"));
    form.push(field("tax_code", "txcd_10103100"));
    form.push(field("default_price_data[unit_amount]", "500"));
    form.push(field("default_price_data[currency]", "usd"));
    form.push(field("default_price_data[recurring][interval]", "month"));
    assert(form_view(form@) =~= seq![
        ("name"@, "Basic subscription"@),
        ("description"@, "Grants access to the febudget.com platform on a month to month basis"@),
        ("tax_code"@, "txcd_10103100"@),
        ("default_price_data[unit_amount]"@, "500"@),
        ("default_price_data[currency]"@, "usd"@),
        ("default_price_data[recurring][interval]"@, "month"@),
    ]);
    form
}

/// The form that opens a subscription-mode Checkout Session for `price_id`
/// with Stripe as merchant of record. The account rides along as
/// `client_reference_id` and is also stamped into the subscription's metadata
/// so later subscription webhooks can be routed back to it.
pub fn checkout_session_form(
    price_id: &str,
    client_reference_id: &str,
    success_url: &str,
    cancel_url: &str,
) -> (form: Vec<(String, String)>)
    ensures
        form_view(form@) == seq![
            ("mode"@, "subscription"@),
            ("line_items[0][price]"@, price_id@),
            ("line_items[0][quantity]"@, "1"@),
            ("managed_payments[enabled]"@, "true"@),
            ("client_reference_id"@, client_reference_id@),
            ("subscription_data[metadata][hashed_email]"@, client_reference_id@),
            ("success_url"@, success_url@),
            ("cancel_url"@, cancel_url@),
        ],
{
    let mut form: Vec<(String, String)> = Vec::new();
    form.push(field("mode", "subscription"));
    form.push(field("line_items[0][price]", price_id));
    form.push(field("line_items[0][quantity]", "1"));
    form.push(field("managed_payments[enabled]", "true"));
    form.push(field("client_reference_id", client_reference_id));
    form.push(field("subscription_data[metadata][hashed_email]", client_reference_id));
    form.push(field("success_url", success_url));
    form.push(field("cancel_url", cancel_url));
    assert(form_view(form@) =~= seq![
        ("mode"@, "subscription"@),
        ("line_items[0][price]"@, price_id@),
        ("line_items[0][quantity]"@, "1"@),
        ("managed_payments[enabled]"@, "true"@),
        ("client_reference_id"@, client_reference_id@),
        ("subscription_data[metadata][hashed_email]"@, client_reference_id@),
        ("success_url"@, success_url@),
        ("cancel_url"@, cancel_url@),
    ]);
    form
}

/// The form that tells Stripe to stop a subscription renewing.
pub fn cancel_at_period_end_form() -> (form: Vec<(String, String)>)
    ensures
        form_view(form@) == seq![("cancel_at_period_end"@, "true"@)],
{
    let mut form: Vec<(String, String)> = Vec::new();
    form.push(field("cancel_at_period_end", "true"));
    assert(form_view(form@) =~= seq![("cancel_at_period_end"@, "true"@)]);
    form
}

/// The API path of the products collection.
pub fn products_path() -> (p: String)
    ensures
        p@ == "/v1/products"@,
{
    String::from_str("/v1/products")
}

/// The API path of the Checkout Sessions collection.
pub fn checkout_sessions_path() -> (p: String)
    ensures
        p@ == "/v1/checkout/sessions"@,
{
    String::from_str("/v1/checkout/sessions")
}

/// The API path of one subscription.
pub fn subscription_path(subscription_id: &str) -> (p: String)
    ensures
        p@ == "/v1/subscriptions/"@ + subscription_id@,
{
    let mut p = String::from_str("/v1/subscriptions/");
    p.append(subscription_id);
    p
}

/// The full URL of an API path.
pub fn api_url(path: &str) -> (u: String)
    ensures
        u@ == STRIPE_API_BASE@ + path@,
{
    let mut u = String::from_str(STRIPE_API_BASE);
    u.append(path);
    u
}

/// Reads the status of a Stripe reply: a status in 200..=299 hands back the
/// body for decoding, any other status is an `Api` error carrying the body.
pub fn check_reply_status(status: u16, body: String) -> (r: Result<String, StripeError>)
    ensures
        200 <= status <= 299 ==> r == Ok::<String, StripeError>(body),
        !(200 <= status <= 299) ==> r == Err::<String, StripeError>(StripeError::Api { status, body }),
{
    if 200 <= status && status <= 299 {
        Ok(body)
    } else {
        Err(StripeError::Api { status, body })
    }
}

/// The product from the `id` and `default_price` members of Stripe's reply:
/// each must be present as a string, else the reply is a `Decode` error
/// naming the missing member.
pub fn product_from_members(id: Option<String>, default_price: Option<String>) -> (r: Result<
    SubscriptionProduct,
    StripeError,
>)
    ensures
        match (id, default_price) {
            (Some(i), Some(p)) => r matches Ok(prod) && prod.product_id == i && prod.price_id == p,
            (None, _) => r matches Err(StripeError::Decode(e)) && e@ == "product response had no id"@,
            (Some(_), None) => r matches Err(StripeError::Decode(e)) && e@
                == "product response had no default_price"@,
        },
{
    match (id, default_price) {
        (None, _) => Err(StripeError::Decode(String::from_str("product response had no id"))),
        (Some(_), None) => Err(StripeError::Decode(String::from_str("product response had no default_price"))),
        (Some(product_id), Some(price_id)) => Ok(SubscriptionProduct { product_id, price_id }),
    }
}

/// The identifiers in Stripe's reply to creating the product: a body that is
/// not JSON is a `Decode` error with `serde_json`'s message; otherwise the
/// product is read from the string members `id` and `default_price` (see
/// [`product_from_members`]).
pub fn subscription_product_from_reply(body: &str) -> (r: Result<SubscriptionProduct, StripeError>)
    ensures
        match json_syntax_error(body@) {
            Some(m) => r matches Err(StripeError::Decode(e)) && e@ == m,
            None => match (json_string_member(body@, "id"@), json_string_member(body@, "default_price"@)) {
                (Some(id), Some(price)) => r matches Ok(p) && p.product_id@ == id && p.price_id@ == price,
                (None, _) => r matches Err(StripeError::Decode(e)) && e@ == "product response had no id"@,
                (Some(_), None) => r matches Err(StripeError::Decode(e)) && e@
                    == "product response had no default_price"@,
            },
        },
{
    if let Some(m) = json_error(body) {
        return Err(StripeError::Decode(m));
    }
    product_from_members(string_member(body, "id"), string_member(body, "default_price"))
}

/// The Checkout Session from the `id` and `url` members of Stripe's reply:
/// each must be present as a string, else the reply is a `Decode` error
/// naming the missing member.
pub fn session_from_members(id: Option<String>, url: Option<String>) -> (r: Result<CheckoutSession, StripeError>)
    ensures
        match (id, url) {
            (Some(i), Some(u)) => r matches Ok(s) && s.id == i && s.url == u,
            (None, _) => r matches Err(StripeError::Decode(e)) && e@ == "session response had no id"@,
            (Some(_), None) => r matches Err(StripeError::Decode(e)) && e@ == "session response had no url"@,
        },
{
    match (id, url) {
        (None, _) => Err(StripeError::Decode(String::from_str("session response had no id"))),
        (Some(_), None) => Err(StripeError::Decode(String::from_str("session response had no url"))),
        (Some(id), Some(url)) => Ok(CheckoutSession { id, url }),
    }
}

/// The session in Stripe's reply to opening a Checkout Session: a body that
/// is not JSON is a `Decode` error with `serde_json`'s message; otherwise the
/// session is read from the string members `id` and `url` (see
/// [`session_from_members`]).
pub fn checkout_session_from_reply(body: &str) -> (r: Result<CheckoutSession, StripeError>)
    ensures
        match json_syntax_error(body@) {
            Some(m) => r matches Err(StripeError::Decode(e)) && e@ == m,
            None => match (json_string_member(body@, "id"@), json_string_member(body@, "url"@)) {
                (Some(id), Some(url)) => r matches Ok(s) && s.id@ == id && s.url@ == url,
                (None, _) => r matches Err(StripeError::Decode(e)) && e@ == "session response had no id"@,
                (Some(_), None) => r matches Err(StripeError::Decode(e)) && e@ == "session response had no url"@,
            },
        },
{
    if let Some(m) = json_error(body) {
        return Err(StripeError::Decode(m));
    }
    session_from_members(string_member(body, "id"), string_member(body, "url"))
}

/// The paid-through date in Stripe's reply describing a subscription,
/// formatted the way the `subscription` table stores it: read from the
/// top-level `current_period_end`, else from the first item's. `None` when
/// the body is not JSON or carries no usable date.
pub fn period_end_from_reply(body: &str) -> (r: Option<String>)
    ensures
        opt_view(r) == match json_syntax_error(body@) {
            Some(_) => None,
            None => period_end_view(
                json_integer_member(body@, "current_period_end"@),
                json_nested_integer(body@, "items"@, "data"@, 0, "current_period_end"@),
            ),
        },
{
    if json_error(body).is_some() {
        return None;
    }
    let top = integer_member(body, "current_period_end");
    let item = nested_integer(body, "items", "data", 0, "current_period_end");
    period_end_text(top, item)
}

/// The outcome of cancelling a subscription immediately: a subscription
/// Stripe will not cancel because it is already canceled or unknown (`400` or
/// `404`) counts as cancelled.
pub fn cancel_now_outcome(r: Result<(), StripeError>) -> (out: Result<(), StripeError>)
    ensures
        match r {
            Ok(()) => out is Ok,
            Err(StripeError::Api { status, body }) => if status == 400 || status == 404 {
                out is Ok
            } else {
                out == Err::<(), StripeError>(StripeError::Api { status, body })
            },
            Err(e) => out == Err::<(), StripeError>(e),
        },
{
    match r {
        Ok(()) => Ok(()),
        Err(StripeError::Api { status, body }) => {
            if status == 400 || status == 404 {
                Ok(())
            } else {
                Err(StripeError::Api { status, body })
            }
        },
        Err(e) => Err(e),
    }
}

/// Whether `c` is a lowercase hex digit.
pub open spec fn is_hex_digit(c: char) -> bool {
    ('0' <= c <= '9') || ('a' <= c <= 'f')
}

proof fn lemma_hex_lower_chars(bytes: Seq<u8>)
    ensures
        forall|i: int| 0 <= i < hex_lower_spec(bytes).len() ==> is_hex_digit(#[trigger] hex_lower_spec(bytes)[i]),
    decreases bytes.len(),
{
    if bytes.len() > 0 {
        lemma_hex_lower_chars(bytes.drop_last());
        let hi = (bytes.last() / 16) as nat;
        let lo = (bytes.last() % 16) as nat;
        assert(is_hex_digit(hex_char(hi)));
        assert(is_hex_digit(hex_char(lo)));
        let prev = hex_lower_spec(bytes.drop_last());
        assert forall|i: int| 0 <= i < hex_lower_spec(bytes).len() implies is_hex_digit(#[trigger] hex_lower_spec(bytes)[i]) by {
            if i < prev.len() {
                assert(hex_lower_spec(bytes)[i] == prev[i]);
            }
        }
    }
}

/// The `Stripe-Signature` header Stripe sends: `t=<timestamp>,v1=<signature>`.
pub open spec fn signature_header(timestamp: i64, signature: Seq<char>) -> Seq<char> {
    seq!['t', '='] + signed_decimal(timestamp as int) + seq![','] + seq!['v', '1', '='] + signature
}

/// A payload signed the way Stripe signs it is accepted, whatever the
/// payload and secret, as long as the timestamp lies within the tolerance of
/// the clock.
pub proof fn lemma_signed_header_accepted(payload: Seq<u8>, secret: Seq<u8>, t: i64, now: i64)
    requires
        signature_age(now, t) <= WEBHOOK_TOLERANCE_SECONDS,
    ensures
        webhook_signature_check(
            payload,
            signature_header(t, expected_signature(secret, t, payload)),
            secret,
            now,
        ) == Ok::<(), Seq<char>>(()),
{
    let d = signed_decimal(t as int);
    let h = expected_signature(secret, t, payload);
    let p1 = seq!['t', '='] + d;
    let p2 = seq!['v', '1', '='] + h;
    let header = signature_header(t, h);
    assert(header =~= p1 + seq![','] + p2);
    lemma_hex_lower_chars(hmac_sha256_tag(secret, signed_payload(t, payload)));
    lemma_parse_signed_decimal(t);
    let m: nat = if t < 0 { (-(t as int)) as nat } else { t as nat };
    lemma_decimal_digits(m);
    assert(forall|i: int| 0 <= i < d.len() ==> d[i] == '-' || ('0' <= #[trigger] d[i] <= '9')) by {
        assert forall|i: int| 0 <= i < d.len() implies d[i] == '-' || ('0' <= #[trigger] d[i] <= '9') by {
            if t < 0 {
                if i > 0 {
                    assert(d[i] == decimal(m)[i - 1]);
                }
            } else {
                assert(d[i] == decimal(m)[i]);
            }
        }
    }
    assert(!p1.contains(',')) by {
        if p1.contains(',') {
            let i = choose|i: int| 0 <= i < p1.len() && p1[i] == ',';
            if i >= 2 {
                assert(p1[i] == d[i - 2]);
            }
        }
    }
    assert(!p2.contains(',')) by {
        if p2.contains(',') {
            let i = choose|i: int| 0 <= i < p2.len() && p2[i] == ',';
            if i >= 3 {
                assert(p2[i] == h[i - 3]);
            }
        }
    }
    lemma_split_append(p1, ',', p2);
    lemma_split_without_separator(p1, ',');
    let parts = split_on(header, ',');
    assert(parts =~= seq![p1, p2]);
    assert(parts.drop_last() =~= seq![p1]);
    assert(seq![p1].drop_last() =~= Seq::<Seq<char>>::empty());
    // The timestamp part.
    assert(p1.contains('=')) by {
        assert(p1[1] == '=');
    }
    assert forall|j: int| is_first_index(p1, '=', j) implies j == 1 by {
        if j > 1 {
            assert(p1[1] == '=');
        }
    }
    let j1 = choose|j: int| is_first_index(p1, '=', j);
    assert(is_first_index(p1, '=', 1));
    assert(j1 == 1);
    assert(p1.take(1) =~= seq!['t']);
    assert(p1.skip(2) =~= d);
    lemma_trim_unchanged(seq!['t']);
    assert(d.len() > 0) by {
        if t < 0 {
            assert(d.len() == 1 + decimal(m).len());
        }
    }
    assert(d[0] == '-' || ('0' <= d[0] <= '9'));
    assert(d.last() == '-' || ('0' <= d.last() <= '9')) by {
        assert(d[d.len() - 1] == d.last());
    }
    lemma_trim_unchanged(d);
    let first = scan_part((None, Seq::empty()), p1);
    assert(first == Some((Some(t), Seq::<Seq<char>>::empty())));
    // The signature part.
    assert(p2.contains('=')) by {
        assert(p2[2] == '=');
    }
    assert forall|j: int| is_first_index(p2, '=', j) implies j == 2 by {
        if j > 2 {
            assert(p2[2] == '=');
        }
    }
    let j2 = choose|j: int| is_first_index(p2, '=', j);
    assert(is_first_index(p2, '=', 2));
    assert(j2 == 2);
    assert(p2.take(2) =~= seq!['v', '1']);
    assert(p2.skip(3) =~= h);
    lemma_trim_unchanged(seq!['v', '1']);
    if h.len() > 0 {
        assert(is_hex_digit(h[0]));
        assert(is_hex_digit(h[h.len() - 1]));
    }
    lemma_trim_unchanged(h);
    assert(seq!['v', '1'] != seq!['t']) by {
        assert(seq!['v', '1'].len() != seq!['t'].len());
    }
    assert(scan_header(Seq::<Seq<char>>::empty()) == Some((None::<i64>, Seq::<Seq<char>>::empty())));
    assert(seq![p1].last() == p1);
    assert(scan_header(seq![p1]) == first);
    let second = scan_part((Some(t), Seq::<Seq<char>>::empty()), p2);
    assert(Seq::<Seq<char>>::empty().push(h) =~= seq![h]);
    assert(second == Some((Some(t), seq![h])));
    assert(parts.last() == p2);
    assert(scan_header(parts) == Some((Some(t), seq![h])));
    assert(seq![h].contains(h)) by {
        assert(seq![h][0] == h);
    }
}

/// A signature header whose timestamp lies outside the tolerance is
/// rejected, whatever signatures it carries.
pub proof fn lemma_stale_header_rejected(payload: Seq<u8>, header: Seq<char>, secret: Seq<u8>, now: i64, t: i64)
    requires
        scan_header(split_on(header, ',')) matches Some((Some(ts), _)) && ts == t,
        signature_age(now, t) > WEBHOOK_TOLERANCE_SECONDS,
    ensures
        webhook_signature_check(payload, header, secret, now) is Err,
{
}

/// A header is accepted only if one of its `v1` signatures is the expected
/// HMAC of the payload under the secret at the header's timestamp, and that
/// timestamp lies within the tolerance of the clock.
pub proof fn lemma_accepted_header_is_signed(payload: Seq<u8>, header: Seq<char>, secret: Seq<u8>, now: i64)
    requires
        webhook_signature_check(payload, header, secret, now) is Ok,
    ensures
        scan_header(split_on(header, ',')) matches Some((Some(t), signatures)) && signature_age(now, t)
            <= WEBHOOK_TOLERANCE_SECONDS && signatures.contains(expected_signature(secret, t, payload)),
{
}

} // verus!
