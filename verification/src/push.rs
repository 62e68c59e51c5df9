//! Push delivery construction: the notification payload, its compact JSON
//! document, and the encrypted form-encoded request handed to the HTTP
//! client.

use vstd::prelude::*;
use vstd::utf8::encode_utf8;
use crate::config::Config;
use crate::crypto::{aes_cbc_ciphertext, base64_of, percent_encoded};
use crate::crypto::{base64_encode, percent_encode_form};
use crate::crypto::encrypt_data;
use crate::strutil::chars_of;

verus! {

/// Outbound notification payload.  The severity fields are present only
/// for emergency pushes; an absent field is omitted from the document
/// entirely.
pub struct Payload {
    pub body: String,
    pub title: Option<String>,
    pub sound: Option<String>,
    pub level: Option<String>,
    pub volume: Option<u8>,
    pub call: Option<u8>,
}

/// Mathematical model of a [`Payload`].
pub ghost struct PayloadModel {
    pub body: Seq<char>,
    pub title: Option<Seq<char>>,
    pub sound: Option<Seq<char>>,
    pub level: Option<Seq<char>>,
    pub volume: Option<u8>,
    pub call: Option<u8>,
}

impl View for Payload {
    type V = PayloadModel;

    open spec fn view(&self) -> PayloadModel {
        PayloadModel {
            body: self.body@,
            title: match self.title {
                Some(ref t) => Some(t@),
                None => None,
            },
            sound: match self.sound {
                Some(ref s) => Some(s@),
                None => None,
            },
            level: match self.level {
                Some(ref l) => Some(l@),
                None => None,
            },
            volume: self.volume,
            call: self.call,
        }
    }
}

/// The payload the forwarder sends for a message: body and title as
/// given, the fixed notification sound, and — only when emergency — the
/// critical level, maximum volume and call-style flag.
pub open spec fn push_payload_model(title: Seq<char>, body: Seq<char>, emergency: bool)
    -> PayloadModel {
    PayloadModel {
        body: body,
        title: if title.len() == 0 { None } else { Some(title) },
        sound: Some("birdsong"@),
        level: if emergency { Some("critical"@) } else { None },
        volume: if emergency { Some(5u8) } else { None },
        call: if emergency { Some(1u8) } else { None },
    }
}

/// A body containing a configured keyword yields a payload with the
/// `level`, `volume` and `call` severity fields present; a body
/// containing none of the keywords yields a payload with all three
/// absent.
pub proof fn emergency_fields_iff_keyword_match(
    kws: Seq<Seq<char>>,
    title: Seq<char>,
    body: Seq<char>,
)
    ensures
        ({
            let p = push_payload_model(title, body, crate::classify::matches_any(kws, body));
            &&& (p.level is Some <==> crate::classify::matches_any(kws, body))
            &&& (p.volume is Some <==> crate::classify::matches_any(kws, body))
            &&& (p.call is Some <==> crate::classify::matches_any(kws, body))
            &&& (p.level is Some ==> p.level->0 == "critical"@)
            &&& (p.volume is Some ==> p.volume->0 == 5u8)
            &&& (p.call is Some ==> p.call->0 == 1u8)
        }),
{
}

/// Build the payload for a message body.  The severity fields are `Some`
/// exactly when `emergency` holds; an empty title is omitted.
pub fn build_payload(title: &str, body: &str, emergency: bool) -> (p: Payload)
    ensures
        p@ == push_payload_model(title@, body@, emergency),
{
    let title_field = if title.is_empty() {
        None
    } else {
        Some(title.to_owned())
    };
    let p = Payload {
        body: body.to_owned(),
        title: title_field,
        sound: Some("birdsong".to_owned()),
        level: if emergency { Some("critical".to_owned()) } else { None },
        volume: if emergency { Some(5) } else { None },
        call: if emergency { Some(1) } else { None },
    };
    p
}

/// Uppercase hexadecimal digit byte for a value below 16.
pub open spec fn upper_hex_byte(d: int) -> u8 {
    if d < 10 {
        (48 + d) as u8
    } else {
        (55 + d) as u8
    }
}

/// The four uppercase hex digit bytes of a 16-bit value.
pub open spec fn hex4_bytes(v: int) -> Seq<u8> {
    seq![
        upper_hex_byte(v / 0x1000 % 16),
        upper_hex_byte(v / 0x100 % 16),
        upper_hex_byte(v / 16 % 16),
        upper_hex_byte(v % 16),
    ]
}

/// How one character is written inside a JSON string: quote and backslash
/// get a backslash escape, all other characters outside `0x20..0x7F` are
/// written as `\u` escapes (a surrogate pair above `0xFFFF`), and plain
/// printable ASCII passes through.
pub open spec fn json_escaped_char(c: char) -> Seq<u8> {
    let v = c as u32;
    if c == '"' {
        seq![92u8, 34u8]
    } else if c == '\\' {
        seq![92u8, 92u8]
    } else if v < 0x20 || (0x7F <= v && v < 0x10000) {
        seq![92u8, 117u8] + hex4_bytes(v as int)
    } else if v < 0x7F {
        seq![v as u8]
    } else {
        let w = v - 0x10000;
        seq![92u8, 117u8] + hex4_bytes(0xD800 + w as int / 0x400) + seq![92u8, 117u8]
            + hex4_bytes(0xDC00 + w as int % 0x400)
    }
}

/// The JSON string encoding of a character sequence.
pub open spec fn json_escaped(s: Seq<char>) -> Seq<u8>
    decreases s.len(),
{
    if s.len() == 0 {
        Seq::empty()
    } else {
        json_escaped(s.drop_last()) + json_escaped_char(s.last())
    }
}

/// The decimal ASCII digits of a non-negative number.
pub open spec fn dec_bytes(n: int) -> Seq<u8>
    decreases n,
{
    if n < 10 {
        seq![(48 + if n >= 0 { n } else { 0 }) as u8]
    } else {
        dec_bytes(n / 10).push((48 + n % 10) as u8)
    }
}

/// The compact JSON document for a payload: `body` always first, each
/// optional field present exactly when it is `Some`, in the order
/// `title`, `sound`, `level`, `volume`, `call`.
pub open spec fn payload_json(p: PayloadModel) -> Seq<u8> {
    encode_utf8("{\"body\":\""@) + json_escaped(p.body) + encode_utf8("\""@) + (match p.title {
        Some(t) => encode_utf8(",\"title\":\""@) + json_escaped(t) + encode_utf8("\""@),
        None => Seq::empty(),
    }) + (match p.sound {
        Some(s) => encode_utf8(",\"sound\":\""@) + json_escaped(s) + encode_utf8("\""@),
        None => Seq::empty(),
    }) + (match p.level {
        Some(l) => encode_utf8(",\"level\":\""@) + json_escaped(l) + encode_utf8("\""@),
        None => Seq::empty(),
    }) + (match p.volume {
        Some(v) => encode_utf8(",\"volume\":"@) + dec_bytes(v as int),
        None => Seq::empty(),
    }) + (match p.call {
        Some(v) => encode_utf8(",\"call\":"@) + dec_bytes(v as int),
        None => Seq::empty(),
    }) + encode_utf8("}"@)
}

fn push_hex4(out: &mut Vec<u8>, v: u32)
    requires
        v < 0x10000,
    ensures
        final(out)@ == old(out)@ + hex4_bytes(v as int),
{
    let d0 = ((v / 0x1000) % 16) as u8;
    let d1 = ((v / 0x100) % 16) as u8;
    let d2 = ((v / 16) % 16) as u8;
    let d3 = (v % 16) as u8;
    out.push(if d0 < 10 { 48 + d0 } else { 55 + d0 });
    out.push(if d1 < 10 { 48 + d1 } else { 55 + d1 });
    out.push(if d2 < 10 { 48 + d2 } else { 55 + d2 });
    out.push(if d3 < 10 { 48 + d3 } else { 55 + d3 });
    assert(final(out)@ =~= old(out)@ + hex4_bytes(v as int));
}

fn push_escaped(out: &mut Vec<u8>, s: &str)
    ensures
        final(out)@ == old(out)@ + json_escaped(s@),
{
    let cs = chars_of(s);
    let n = cs.len();
    let mut i: usize = 0;
    while i < n
        invariant
            i <= n,
            n == cs@.len(),
            cs@ == s@,
            out@ == old(out)@ + json_escaped(cs@.take(i as int)),
        decreases n - i,
    {
        let ghost before = out@;
        let c = cs[i];
        let v = c as u32;
        if c == '"' {
            out.push(92);
            out.push(34);
        } else if c == '\\' {
            out.push(92);
            out.push(92);
        } else if v < 0x20 || (0x7F <= v && v < 0x10000) {
            out.push(92);
            out.push(117);
            push_hex4(out, v);
        } else if v < 0x7F {
            out.push(v as u8);
        } else {
            proof {
                vstd::utf8::char_is_scalar(c);
            }
            let w = v - 0x10000;
            out.push(92);
            out.push(117);
            push_hex4(out, 0xD800 + w / 0x400);
            out.push(92);
            out.push(117);
            push_hex4(out, 0xDC00 + w % 0x400);
        }
        assert(out@ =~= before + json_escaped_char(c));
        proof {
            assert(cs@.take(i + 1).drop_last() =~= cs@.take(i as int));
            assert(cs@.take(i + 1).last() == c);
            assert(out@ =~= old(out)@ + json_escaped(cs@.take(i + 1)));
        }
        i = i + 1;
    }
    assert(cs@.take(n as int) =~= cs@);
}

fn push_dec_u8(out: &mut Vec<u8>, n: u8)
    ensures
        final(out)@ == old(out)@ + dec_bytes(n as int),
    decreases n,
{
    if n < 10 {
        out.push(48 + n);
        assert(final(out)@ =~= old(out)@ + dec_bytes(n as int));
    } else {
        push_dec_u8(out, n / 10);
        out.push(48 + n % 10);
        assert(final(out)@ =~= old(out)@ + dec_bytes(n as int));
    }
}

/// Serialize a payload to its compact JSON document.
#[verifier::rlimit(100)]
pub fn serialize_payload(p: &Payload) -> (r: Vec<u8>)
    ensures
        r@ == payload_json(p@),
{
    let ghost j0 = encode_utf8("{\"body\":\""@) + json_escaped(p@.body) + encode_utf8("\""@);
    let ghost j1 = j0 + (match p@.title {
        Some(t) => encode_utf8(",\"title\":\""@) + json_escaped(t) + encode_utf8("\""@),
        None => Seq::<u8>::empty(),
    });
    let ghost j2 = j1 + (match p@.sound {
        Some(t) => encode_utf8(",\"sound\":\""@) + json_escaped(t) + encode_utf8("\""@),
        None => Seq::<u8>::empty(),
    });
    let ghost j3 = j2 + (match p@.level {
        Some(t) => encode_utf8(",\"level\":\""@) + json_escaped(t) + encode_utf8("\""@),
        None => Seq::<u8>::empty(),
    });
    let ghost j4 = j3 + (match p@.volume {
        Some(v) => encode_utf8(",\"volume\":"@) + dec_bytes(v as int),
        None => Seq::<u8>::empty(),
    });
    let ghost j5 = j4 + (match p@.call {
        Some(v) => encode_utf8(",\"call\":"@) + dec_bytes(v as int),
        None => Seq::<u8>::empty(),
    });
    let mut out: Vec<u8> = Vec::new();
    out.extend_from_slice("{\"body\":\"".as_bytes());
    push_escaped(&mut out, p.body.as_str());
    out.extend_from_slice("\"".as_bytes());
    assert(out@ =~= j0);
    match &p.title {
        Some(t) => {
            out.extend_from_slice(",\"title\":\"".as_bytes());
            push_escaped(&mut out, t.as_str());
            out.extend_from_slice("\"".as_bytes());
        },
        None => {},
    }
    assert(out@ =~= j1);
    match &p.sound {
        Some(t) => {
            out.extend_from_slice(",\"sound\":\"".as_bytes());
            push_escaped(&mut out, t.as_str());
            out.extend_from_slice("\"".as_bytes());
        },
        None => {},
    }
    assert(out@ =~= j2);
    match &p.level {
        Some(t) => {
            out.extend_from_slice(",\"level\":\"".as_bytes());
            push_escaped(&mut out, t.as_str());
            out.extend_from_slice("\"".as_bytes());
        },
        None => {},
    }
    assert(out@ =~= j3);
    match &p.volume {
        Some(v) => {
            out.extend_from_slice(",\"volume\":".as_bytes());
            push_dec_u8(&mut out, *v);
        },
        None => {},
    }
    assert(out@ =~= j4);
    match &p.call {
        Some(v) => {
            out.extend_from_slice(",\"call\":".as_bytes());
            push_dec_u8(&mut out, *v);
        },
        None => {},
    }
    assert(out@ =~= j5);
    out.extend_from_slice("}".as_bytes());
    assert(out@ =~= payload_json(p@));
    out
}

/// Push configuration is usable: key and IV are each exactly 16 bytes.
pub open spec fn valid_key_iv(cfg: &Config) -> bool {
    encode_utf8(cfg.aes_key@).len() == 16 && encode_utf8(cfg.aes_iv@).len() == 16
}

/// Why a push request could not be built.
#[derive(Debug, PartialEq, Eq, Structural)]
pub enum PushError {
    /// The configured key or IV is not exactly 16 bytes; checked before
    /// any cipher or network use.
    InvalidKeyIv,
}

/// The push endpoint URL for an account key.
pub open spec fn push_url(bark_key: Seq<char>) -> Seq<char> {
    "https://api.day.app/"@ + bark_key
}

/// The form body delivering a ciphertext: the Base64 ciphertext and the
/// configured IV, each percent-encoded.
pub open spec fn form_body_for(iv_text: Seq<char>, ct: Seq<u8>) -> Seq<char> {
    "ciphertext="@ + percent_encoded(encode_utf8(base64_of(ct))) + "&iv="@ + percent_encoded(
        encode_utf8(iv_text))
}

/// A fully built push delivery: an HTTP POST of `form_body` to `url` with
/// content type `application/x-www-form-urlencoded`.
#[derive(Debug)]
pub struct PushRequest {
    pub url: String,
    pub form_body: String,
}

/// Build the encrypted push request for a message.
///
/// Fails with [`PushError::InvalidKeyIv`] — before any cipher or network
/// use — exactly when the configured key or IV is not 16 bytes.  On
/// success the request carries the payload document encrypted with the
/// configured key and IV, Base64- and percent-encoded into the form body.
pub fn build_push_request(cfg: &Config, title: &str, body: &str, emergency: bool) -> (r: Result<
    PushRequest,
    PushError,
>)
    ensures
        r is Ok <==> valid_key_iv(cfg),
        r matches Ok(req) ==> req.url@ == push_url(cfg.bark_key@),
        r matches Ok(req) ==> req.form_body@ == form_body_for(
            cfg.aes_iv@,
            aes_cbc_ciphertext(
                encode_utf8(cfg.aes_key@),
                encode_utf8(cfg.aes_iv@),
                payload_json(push_payload_model(title@, body@, emergency)),
            ),
        ),
        r matches Err(e) ==> e == PushError::InvalidKeyIv,
{
    let key_bytes = cfg.aes_key.as_str().as_bytes();
    let iv_bytes = cfg.aes_iv.as_str().as_bytes();
    if key_bytes.len() != 16 || iv_bytes.len() != 16 {
        return Err(PushError::InvalidKeyIv);
    }
    let p = build_payload(title, body, emergency);
    let json = serialize_payload(&p);
    let ct = match encrypt_data(key_bytes, iv_bytes, json.as_slice()) {
        Some(ct) => ct,
        None => {
            return Err(PushError::InvalidKeyIv);
        },
    };
    let b64 = base64_encode(ct.as_slice());
    let ct_pct = percent_encode_form(b64.as_str().as_bytes());
    let iv_pct = percent_encode_form(iv_bytes);
    let mut url = "https://api.day.app/".to_owned();
    url.append(cfg.bark_key.as_str());
    let mut form_body = "ciphertext=".to_owned();
    form_body.append(ct_pct.as_str());
    form_body.append("&iv=");
    form_body.append(iv_pct.as_str());
    Ok(PushRequest { url, form_body })
}

} // verus!
