//! Poll-cycle planning: turn one raw listing response into the exact work
//! of the cycle — per entry, the decoded body, its emergency
//! classification, the encrypted push request, and the delete command for
//! its slot.  The caller performs the serial and HTTP I/O and sleeps the
//! fixed interval between cycles.

use vstd::prelude::*;
use vstd::utf8::encode_utf8;
use crate::classify::{is_emergency, keyword_views, matches_any};
use crate::config::Config;
use crate::crypto::aes_cbc_ciphertext;
use crate::listing::{parse_cmgl_response, parse_cmgl_spec, models_of, EntryModel};
use crate::protocol::{at_line_bytes, dec_digits, delete_command};
use crate::push::{build_push_request, form_body_for, payload_json, push_payload_model, push_url,
    valid_key_iv, PushError, PushRequest};
use crate::text::{decode_ucs2_hex, trimmed, ucs2_hex_eligible, units_of_hex, utf16_decode,
    utf16_valid};

verus! {

/// The text a message body reads as: its UCS2-hex decoding when it is
/// eligible and well-formed, the raw text unchanged otherwise.
pub open spec fn decoded_body(t: Seq<char>) -> Seq<char> {
    let tr = trimmed(t);
    if ucs2_hex_eligible(tr) && utf16_valid(units_of_hex(tr)) {
        utf16_decode(units_of_hex(tr))
    } else {
        t
    }
}

/// Decode a message body, falling back to the raw text when it is not a
/// well-formed UCS2-hex encoding.  Decoding errors never surface.
pub fn decode_body(text: &str) -> (r: String)
    ensures
        r@ == decoded_body(text@),
{
    match decode_ucs2_hex(text) {
        Some(d) => d,
        None => text.to_owned(),
    }
}

/// The notification title for a sender address.
pub open spec fn title_for(number: Seq<char>) -> Seq<char> {
    "SMS from "@ + number
}

/// Build the notification title for a sender address.
pub fn sms_title(number: &str) -> (r: String)
    ensures
        r@ == title_for(number@),
{
    let mut r = "SMS from ".to_owned();
    r.append(number);
    r
}

/// The work one listed entry gives the cycle.
pub struct EntryTask {
    /// Slot index the listing reported; only valid for the modem's
    /// storage state at listing time.
    pub index: u32,
    /// Sender address.
    pub number: String,
    /// Decoded body text.
    pub body: String,
    /// Whether a configured keyword occurs in the decoded body.
    pub emergency: bool,
    /// The push delivery to attempt, or why none could be built.
    pub push: Result<PushRequest, PushError>,
    /// The command deleting the entry's slot, issued best-effort after
    /// the push attempt.
    pub delete: Vec<u8>,
}

/// An [`EntryTask`] carries exactly the work for one listed entry.
pub open spec fn task_matches(t: EntryTask, e: EntryModel, cfg: &Config) -> bool {
    let body = decoded_body(e.body);
    let emergency = matches_any(keyword_views(cfg.emergency_keywords@), body);
    &&& t.index == e.index
    &&& t.number@ == e.number
    &&& t.body@ == body
    &&& t.emergency == emergency
    &&& (t.push is Ok <==> valid_key_iv(cfg))
    &&& (t.push matches Ok(req) ==> req.url@ == push_url(cfg.bark_key@))
    &&& (t.push matches Ok(req) ==> req.form_body@ == form_body_for(
        cfg.aes_iv@,
        aes_cbc_ciphertext(
            encode_utf8(cfg.aes_key@),
            encode_utf8(cfg.aes_iv@),
            payload_json(push_payload_model(title_for(e.number), body, emergency)),
        ),
    ))
    &&& (t.push matches Err(err) ==> err == PushError::InvalidKeyIv)
    &&& t.delete@ == at_line_bytes("+CMGD="@ + dec_digits(e.index as int))
}

/// Plan one poll cycle from a raw listing response: one task per parsed
/// entry, in listing order.
pub fn plan_cycle(cfg: &Config, listing: &str) -> (r: Vec<EntryTask>)
    ensures
        r@.len() == parse_cmgl_spec(listing@).len(),
        forall|i: int|
            0 <= i < r@.len() ==> task_matches(#[trigger] r@[i], parse_cmgl_spec(listing@)[i], cfg),
{
    let entries = parse_cmgl_response(listing);
    let ghost emodels = parse_cmgl_spec(listing@);
    let n = entries.len();
    let mut tasks: Vec<EntryTask> = Vec::new();
    let mut i: usize = 0;
    while i < n
        invariant
            i <= n,
            n == entries@.len(),
            emodels == models_of(entries@),
            emodels == parse_cmgl_spec(listing@),
            tasks@.len() == i,
            forall|k: int| 0 <= k < i ==> task_matches(#[trigger] tasks@[k], emodels[k], cfg),
        decreases n - i,
    {
        assert(models_of(entries@)[i as int] == entries@[i as int]@);
        let index = entries[i].index;
        let number = entries[i].number.clone();
        let body = decode_body(entries[i].body.as_str());
        let emergency = is_emergency(&cfg.emergency_keywords, body.as_str());
        let title = sms_title(number.as_str());
        let push = build_push_request(cfg, title.as_str(), body.as_str(), emergency);
        let delete = delete_command(index);
        let task = EntryTask { index, number, body, emergency, push, delete };
        assert(task_matches(task, emodels[i as int], cfg));
        tasks.push(task);
        i = i + 1;
    }
    tasks
}

} // verus!
