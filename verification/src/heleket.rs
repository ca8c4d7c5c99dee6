use vstd::prelude::*;
use crate::unique_ids::{new_unique_id, uuid_text, is_lower_hex};
use base64::Engine;
use md5::Digest;
use crate::text::{copy_str, push_str, push_signed, string_from_chars, signed_decimal};

verus! {

/// The merchant settings of the payment gateway.
pub struct HeleketConfig {
    pub merchant_id: String,
    pub api_key: String,
    pub base_url: String,
    pub webhook_url: String,
    pub success_url: String,
    pub cancel_url: String,
}

/// The gateway's address.
pub open spec fn heleket_base_url() -> Seq<char> {
    "https://api.heleket.com"@
}

/// The settings from the merchant's values; the success and cancel pages
/// default to the studio's billing page.
pub fn heleket_config(
    merchant_id: &str,
    api_key: &str,
    webhook_url: &str,
    success_url: Option<&str>,
    cancel_url: Option<&str>,
) -> (res: HeleketConfig)
    ensures
        res.merchant_id@ == merchant_id@,
        res.api_key@ == api_key@,
        res.base_url@ == heleket_base_url(),
        res.webhook_url@ == webhook_url@,
        res.success_url@ == match success_url {
            Some(u) => u@,
            None => "https://uniframe.studio/billing?payment=success"@,
        },
        res.cancel_url@ == match cancel_url {
            Some(u) => u@,
            None => "https://uniframe.studio/billing?payment=cancelled"@,
        },
{
    HeleketConfig {
        merchant_id: copy_str(merchant_id),
        api_key: copy_str(api_key),
        base_url: copy_str("https://api.heleket.com"),
        webhook_url: copy_str(webhook_url),
        success_url: match success_url {
            Some(u) => copy_str(u),
            None => copy_str("https://uniframe.studio/billing?payment=success"),
        },
        cancel_url: match cancel_url {
            Some(u) => copy_str(u),
            None => copy_str("https://uniframe.studio/billing?payment=cancelled"),
        },
    }
}

/// The body of an invoice request.
pub struct CreateInvoiceRequest {
    pub amount: String,
    pub currency: String,
    pub order_id: String,
    pub url_callback: String,
    pub url_success: String,
    pub url_return: String,
}

/// An invoice as the gateway describes it.
pub struct InvoiceResult {
    pub uuid: String,
    pub order_id: String,
    pub amount: String,
    pub url: String,
    pub payment_amount: Option<String>,
    pub payer_amount: Option<String>,
    pub discount_percent: Option<String>,
    pub discount: Option<String>,
    pub payer_currency: Option<String>,
    pub currency: String,
    pub merchant_amount: Option<String>,
    pub network: Option<String>,
    pub address: Option<String>,
    pub from: Option<String>,
    pub txid: Option<String>,
    pub payment_status: String,
    pub expired_at: i64,
    pub is_final: bool,
    pub additional_data: Option<String>,
    pub created_at: String,
    pub updated_at: String,
}

/// The character of a six-bit value in the standard base64 alphabet
/// ('A'..'Z', 'a'..'z', '0'..'9', '+', '/').
pub open spec fn base64_digit(v: int) -> char {
    if v < 26 {
        (65 + v) as char
    } else if v < 52 {
        (97 + v - 26) as char
    } else if v < 62 {
        (48 + v - 52) as char
    } else if v == 62 {
        '+'
    } else {
        '/'
    }
}

/// Base64 with the standard alphabet and '=' padding (RFC 4648): every three
/// bytes become four characters, a last group of one or two bytes is padded.
pub open spec fn base64_text(bytes: Seq<u8>) -> Seq<char>
    decreases bytes.len(),
{
    if bytes.len() == 0 {
        Seq::empty()
    } else if bytes.len() == 1 {
        let a = bytes[0] as int;
        seq![base64_digit(a / 4), base64_digit((a % 4) * 16), '=', '=']
    } else if bytes.len() == 2 {
        let a = bytes[0] as int;
        let b = bytes[1] as int;
        seq![base64_digit(a / 4), base64_digit((a % 4) * 16 + b / 16), base64_digit((b % 16) * 4), '=']
    } else {
        let a = bytes[0] as int;
        let b = bytes[1] as int;
        let c = bytes[2] as int;
        seq![
            base64_digit(a / 4),
            base64_digit((a % 4) * 16 + b / 16),
            base64_digit((b % 16) * 4 + c / 64),
            base64_digit(c % 64),
        ] + base64_text(bytes.skip(3))
    }
}

/// The standard base64 text (with padding) of the UTF-8 bytes of `s`.
pub open spec fn standard_base64(s: Seq<char>) -> Seq<char> {
    base64_text(vstd::utf8::encode_utf8(s))
}

/// Calls `base64::engine::general_purpose::STANDARD.encode` on the UTF-8 bytes
/// of `s`; that engine uses the standard alphabet and pads with '=', which the
/// contract states.
#[verifier::external_body]
fn base64_standard(s: &str) -> (res: String)
    ensures
        res@ == standard_base64(s@),
{
    base64::engine::general_purpose::STANDARD.encode(s)
}

/// The MD5 digest of the UTF-8 bytes of `s`.
pub uninterp spec fn md5_digest(s: Seq<char>) -> Seq<u8>;

/// Calls `Md5::digest` on the UTF-8 bytes of `s` and copies out the digest,
/// which has 16 bytes (the output size of `Md5` is `U16`). The contract names
/// the digest and states its length; MD5 is not restated.
#[verifier::external_body]
fn md5_of(s: &str) -> (res: Vec<u8>)
    ensures
        res@ == md5_digest(s@),
        res@.len() == 16,
{
    md5::Md5::digest(s.as_bytes()).to_vec()
}

/// The lowercase hexadecimal digit of a value below 16.
pub open spec fn hex_digit(d: int) -> char {
    if d < 10 {
        ((d + 48) as u8) as char
    } else {
        ((d + 87) as u8) as char
    }
}

/// Two lowercase hexadecimal digits per byte, high digit first.
pub open spec fn hex_lower(bytes: Seq<u8>) -> Seq<char>
    decreases bytes.len(),
{
    if bytes.len() == 0 {
        Seq::empty()
    } else {
        hex_lower(bytes.drop_last()) + seq![
            hex_digit(bytes.last() as int / 16),
            hex_digit(bytes.last() as int % 16),
        ]
    }
}

fn hex_digit_exec(d: u8) -> (res: char)
    requires
        d < 16,
    ensures
        res == hex_digit(d as int),
{
    if d < 10 {
        (d + 48) as char
    } else {
        (d + 87) as char
    }
}

/// The bytes in lowercase hexadecimal.
pub fn hex_string(bytes: &Vec<u8>) -> (res: String)
    ensures
        res@ == hex_lower(bytes@),
{
    let mut out: Vec<char> = Vec::new();
    let mut i: usize = 0;
    while i < bytes.len()
        invariant
            i <= bytes@.len(),
            out@ == hex_lower(bytes@.take(i as int)),
        decreases bytes.len() - i,
    {
        let b = bytes[i];
        let hi = hex_digit_exec(b / 16);
        let lo = hex_digit_exec(b % 16);
        out.push(hi);
        out.push(lo);
        proof {
            assert(bytes@.take(i + 1).drop_last() =~= bytes@.take(i as int));
            assert(bytes@.take(i + 1).last() == b);
        }
        i = i + 1;
    }
    proof {
        assert(bytes@.take(bytes@.len() as int) =~= bytes@);
    }
    string_from_chars(&out)
}

/// The signature the gateway expects for a request body: the MD5, in
/// lowercase hexadecimal, of the body's base64 followed by the API key.
pub open spec fn request_signature(body: Seq<char>, api_key: Seq<char>) -> Seq<char> {
    hex_lower(md5_digest(standard_base64(body) + api_key))
}

/// Signs a request body with the API key.
pub fn generate_signature(body: &str, api_key: &str) -> (res: String)
    ensures
        res@ == request_signature(body@, api_key@),
        res@.len() == 32,
        forall|i: int| 0 <= i < res@.len() ==> is_lower_hex(#[trigger] res@[i]),
{
    let encoded = base64_standard(body);
    let mut data: Vec<char> = Vec::new();
    push_str(&mut data, encoded.as_str());
    push_str(&mut data, api_key);
    let data_with_key = string_from_chars(&data);
    let digest = md5_of(data_with_key.as_str());
    proof {
        assert(data_with_key@ =~= standard_base64(body@) + api_key@);
        lemma_signature_length(body@, api_key@);
        lemma_hex_lower_digits(digest@);
    }
    hex_string(&digest)
}

/// A signature has two hexadecimal digits per digest byte: 32 characters.
pub proof fn lemma_signature_length(body: Seq<char>, api_key: Seq<char>)
    requires
        md5_digest(standard_base64(body) + api_key).len() == 16,
    ensures
        request_signature(body, api_key).len() == 32,
{
    lemma_hex_lower_len(md5_digest(standard_base64(body) + api_key));
}

proof fn lemma_hex_lower_digits(bytes: Seq<u8>)
    ensures
        forall|i: int| 0 <= i < hex_lower(bytes).len() ==> is_lower_hex(#[trigger] hex_lower(bytes)[i]),
    decreases bytes.len(),
{
    if bytes.len() > 0 {
        lemma_hex_lower_digits(bytes.drop_last());
        let prev = hex_lower(bytes.drop_last());
        let hi = bytes.last() as int / 16;
        let lo = bytes.last() as int % 16;
        lemma_hex_digit(hi);
        lemma_hex_digit(lo);
        let h = hex_lower(bytes);
        assert forall|i: int| 0 <= i < h.len() implies is_lower_hex(#[trigger] h[i]) by {
            if i < prev.len() {
                assert(h[i] == prev[i]);
            }
        }
    }
}

proof fn lemma_hex_digit(d: int)
    requires
        0 <= d < 16,
    ensures
        is_lower_hex(hex_digit(d)),
{
}

proof fn lemma_hex_lower_len(bytes: Seq<u8>)
    ensures
        hex_lower(bytes).len() == 2 * bytes.len(),
    decreases bytes.len(),
{
    if bytes.len() > 0 {
        lemma_hex_lower_len(bytes.drop_last());
    }
}

/// The error of a gateway reply with state `state`: none for state 0; else
/// the gateway's message, its validation errors, or the state itself.
pub open spec fn api_error_text(state: i32, message: Option<Seq<char>>, errors: Option<Seq<char>>) -> Option<Seq<char>> {
    if state == 0 {
        None
    } else {
        match message {
            Some(m) => Some("Heleket API error: "@ + m),
            None => match errors {
                Some(e) => Some("Heleket API validation errors: "@ + e),
                None => Some("Heleket API error: state = "@ + signed_decimal(state as int)),
            },
        }
    }
}

/// The error of a gateway reply, if it reports one.
pub fn api_error_message(state: i32, message: Option<&str>, errors: Option<&str>) -> (res: Option<String>)
    ensures
        match (res, api_error_text(
            state,
            match message {
                Some(m) => Some(m@),
                None => None,
            },
            match errors {
                Some(e) => Some(e@),
                None => None,
            },
        )) {
            (Some(r), Some(t)) => r@ == t,
            (None, None) => true,
            _ => false,
        },
{
    if state == 0 {
        return None;
    }
    let mut out: Vec<char> = Vec::new();
    match message {
        Some(m) => {
            push_str(&mut out, "Heleket API error: ");
            push_str(&mut out, m);
        },
        None => match errors {
            Some(e) => {
                push_str(&mut out, "Heleket API validation errors: ");
                push_str(&mut out, e);
            },
            None => {
                push_str(&mut out, "Heleket API error: state = ");
                push_signed(&mut out, state as i64);
            },
        },
    }
    Some(string_from_chars(&out))
}

/// The order id of a balance top-up: `topup_`, the user, `_`, a fresh id.
pub fn topup_order_id(user_id: &str, unique: &str) -> (res: String)
    ensures
        res@ == "topup_"@ + user_id@ + "_"@ + unique@,
{
    let mut out: Vec<char> = Vec::new();
    push_str(&mut out, "topup_");
    push_str(&mut out, user_id);
    push_str(&mut out, "_");
    push_str(&mut out, unique);
    string_from_chars(&out)
}

/// The order id of a new balance top-up: `topup_`, the user, `_` and a
/// fresh random id.
pub fn new_topup_order_id(user_id: &str) -> (res: String)
    ensures
        exists|u: Seq<char>| uuid_text(u) && res@ == "topup_"@ + user_id@ + "_"@ + u,
{
    let unique = new_unique_id();
    let res = topup_order_id(user_id, unique.as_str());
    assert(uuid_text(unique@) && res@ == "topup_"@ + user_id@ + "_"@ + unique@);
    res
}

/// The endpoint for creating invoices.
pub fn invoice_endpoint(base_url: &str) -> (res: String)
    ensures
        res@ == base_url@ + "/v1/payment"@,
{
    let mut out: Vec<char> = Vec::new();
    push_str(&mut out, base_url);
    push_str(&mut out, "/v1/payment");
    string_from_chars(&out)
}

/// The endpoint for reading an invoice's status.
pub fn invoice_info_endpoint(base_url: &str) -> (res: String)
    ensures
        res@ == base_url@ + "/v1/payment/info"@,
{
    let mut out: Vec<char> = Vec::new();
    push_str(&mut out, base_url);
    push_str(&mut out, "/v1/payment/info");
    string_from_chars(&out)
}

} // verus!
