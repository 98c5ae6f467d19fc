//! The X402 payment-negotiation header protocol.
//!
//! Headers carry the payment terms of a contract together with a single-use
//! nonce and a keyed message-authentication code over
//! `(contract_id, amount, token, nonce)`. The digest is a 64-bit
//! Fowler–Noll–Vo fold over the key and the message, rendered as an
//! algorithm-tagged hexadecimal string; verification recomputes it from the
//! received fields and compares without an early exit.

use vstd::prelude::*;
use crate::amount::amount_text;
use crate::error::Error;
use crate::model::UCLContract;
use crate::num::{dec_of, hex_char, hex_digit_str, push_dec_u64, lemma_dec_of_digits,
    lemma_dec_of_injective, is_digit, digit_val};
use crate::clock::now_unix_nanos;

verus! {

/// The offset basis of the 64-bit digest fold.
pub const MAC_OFFSET: u64 = 14695981039346656037;

/// The multiplier of the 64-bit digest fold.
pub const MAC_PRIME: u64 = 1099511628211;

/// One step of the digest fold.
pub open spec fn mac_step(h: u64, c: char) -> u64 {
    ((((h ^ ((c as u32) as u64)) as nat) * (MAC_PRIME as nat)) % 0x10000000000000000) as u64
}

/// The digest fold over a text.
pub open spec fn mac_fold(h: u64, s: Seq<char>) -> u64
    decreases s.len(),
{
    if s.len() == 0 {
        h
    } else {
        mac_fold(mac_step(h, s[0]), s.subrange(1, s.len() as int))
    }
}

/// The keyed digest of a message: the fold absorbs the key, a separator, and
/// the message.
pub open spec fn mac64(key: Seq<char>, msg: Seq<char>) -> u64 {
    mac_fold(mac_step(mac_fold(MAC_OFFSET, key), '\u{0}'), msg)
}

/// The fixed-width hexadecimal rendering of a 64-bit digest.
pub open spec fn hex16(n: u64) -> Seq<char> {
    Seq::new(16, |i: int| hex_char((((n >> (((15 - i) * 4) as u64)) & 0xf) as int)))
}

/// The signed message: the authenticated fields joined with colons.
pub open spec fn mac_message(
    id: Seq<char>,
    amount: Seq<char>,
    token: Seq<char>,
    nonce: Seq<char>,
) -> Seq<char> {
    id + seq![':'] + amount + seq![':'] + token + seq![':'] + nonce
}

/// The algorithm-tagged signature text over the authenticated fields.
pub open spec fn signature_text(
    key: Seq<char>,
    id: Seq<char>,
    amount: Seq<char>,
    token: Seq<char>,
    nonce: Seq<char>,
) -> Seq<char> {
    "fnv1a64:"@ + hex16(mac64(key, mac_message(id, amount, token, nonce)))
}

/// A nonce: the clock reading and the client's call counter, both decimal,
/// joined by a dash.
pub open spec fn nonce_text(ts: u64, ctr: u64) -> Seq<char> {
    dec_of(ts as nat) + seq!['-'] + dec_of(ctr as nat)
}

/// The counter value after a call; it wraps rather than overflows.
pub open spec fn counter_next(c: u64) -> u64 {
    if c == 0xffffffffffffffff {
        0
    } else {
        (c + 1) as u64
    }
}

/// Nonces built from different counters differ, whatever the clock read.
pub proof fn lemma_nonce_unique(ts1: u64, c1: u64, ts2: u64, c2: u64)
    requires
        c1 != c2,
    ensures
        nonce_text(ts1, c1) != nonce_text(ts2, c2),
{
    let a1 = dec_of(ts1 as nat);
    let b1 = dec_of(c1 as nat);
    let a2 = dec_of(ts2 as nat);
    let b2 = dec_of(c2 as nat);
    lemma_dec_of_digits(ts1 as nat);
    lemma_dec_of_digits(c1 as nat);
    lemma_dec_of_digits(ts2 as nat);
    lemma_dec_of_digits(c2 as nat);
    let s1 = nonce_text(ts1, c1);
    let s2 = nonce_text(ts2, c2);
    if s1 == s2 {
        assert(digit_val('-') == 10);
        if a1.len() < a2.len() {
            assert(s1[a1.len() as int] == '-');
            assert(s2[a1.len() as int] == a2[a1.len() as int]);
            assert(is_digit(a2[a1.len() as int]));
            assert(false);
        } else if a2.len() < a1.len() {
            assert(s2[a2.len() as int] == '-');
            assert(s1[a2.len() as int] == a1[a2.len() as int]);
            assert(is_digit(a1[a2.len() as int]));
            assert(false);
        } else {
            assert(b1 =~= s1.skip(a1.len() as int + 1));
            assert(b2 =~= s2.skip(a2.len() as int + 1));
            lemma_dec_of_injective(c1 as nat, c2 as nat);
            assert(false);
        }
    }
}

/// Two consecutive calls never reuse a nonce, whatever the clock read.
pub proof fn lemma_consecutive_nonces_differ(ts1: u64, ts2: u64, c: u64)
    ensures
        nonce_text(ts1, c) != nonce_text(ts2, counter_next(c)),
{
    lemma_nonce_unique(ts1, c, ts2, counter_next(c));
}

/// The X402 header set for one negotiation step.
#[derive(Debug, Clone, PartialEq)]
pub struct X402Headers {
    pub contract_id: String,
    pub payment_amount: String,
    pub payment_token: String,
    pub settlement_network: String,
    pub conditions_met: String,
    pub signature: String,
    pub nonce: String,
}

impl X402Headers {
    /// The canonical header-name mapping, in fixed order.
    pub fn to_map(&self) -> (r: Vec<(String, String)>)
        ensures
            r@.len() == 7,
            r@[0].0@ == "X402-Contract-ID"@ && r@[0].1@ == self.contract_id@,
            r@[1].0@ == "X402-Payment-Amount"@ && r@[1].1@ == self.payment_amount@,
            r@[2].0@ == "X402-Payment-Token"@ && r@[2].1@ == self.payment_token@,
            r@[3].0@ == "X402-Settlement-Network"@ && r@[3].1@ == self.settlement_network@,
            r@[4].0@ == "X402-Conditions-Met"@ && r@[4].1@ == self.conditions_met@,
            r@[5].0@ == "X402-Signature"@ && r@[5].1@ == self.signature@,
            r@[6].0@ == "X402-Nonce"@ && r@[6].1@ == self.nonce@,
    {
        let mut map: Vec<(String, String)> = Vec::new();
        map.push((String::from_str("X402-Contract-ID"), self.contract_id.clone()));
        map.push((String::from_str("X402-Payment-Amount"), self.payment_amount.clone()));
        map.push((String::from_str("X402-Payment-Token"), self.payment_token.clone()));
        map.push((String::from_str("X402-Settlement-Network"), self.settlement_network.clone()));
        map.push((String::from_str("X402-Conditions-Met"), self.conditions_met.clone()));
        map.push((String::from_str("X402-Signature"), self.signature.clone()));
        map.push((String::from_str("X402-Nonce"), self.nonce.clone()));
        map
    }
}

/// The response a payment endpoint returns.
#[derive(Debug, Clone, PartialEq)]
pub struct PaymentResponse {
    pub status: String,
    pub transaction_hash: Option<String>,
    pub confirmation_url: Option<String>,
}

/// A client of the X402 protocol: an endpoint, a signing key, and a
/// monotonic call counter that keeps nonces unique.
#[derive(Debug, Clone, PartialEq)]
pub struct X402Client {
    endpoint: String,
    key: String,
    counter: u64,
}

impl X402Client {
    /// Create a client for an endpoint, with the default signing key.
    pub fn new(endpoint: String) -> (r: X402Client)
        ensures
            r.spec_endpoint() == endpoint@,
            r.spec_key() == "smart402-shared-key"@,
            r.spec_counter() == 0,
    {
        X402Client { endpoint, key: String::from_str("smart402-shared-key"), counter: 0 }
    }

    /// Create a client with a configured signing key.
    pub fn with_key(endpoint: String, key: String) -> (r: X402Client)
        ensures
            r.spec_endpoint() == endpoint@,
            r.spec_key() == key@,
            r.spec_counter() == 0,
    {
        X402Client { endpoint, key, counter: 0 }
    }

    /// The configured endpoint.
    pub fn endpoint(&self) -> (r: &String)
        ensures
            r@ == self.spec_endpoint(),
    {
        &self.endpoint
    }

    /// The current nonce counter.
    pub closed spec fn spec_counter(&self) -> u64 {
        self.counter
    }

    /// The configured signing key.
    pub closed spec fn spec_key(&self) -> Seq<char> {
        self.key@
    }

    /// The configured endpoint.
    pub closed spec fn spec_endpoint(&self) -> Seq<char> {
        self.endpoint@
    }

    /// Generate the signed headers for a contract. The nonce embeds the call
    /// counter, so no two calls on one client ever share it; all other
    /// fields are exactly the contract's payment terms.
    pub fn generate_headers(&mut self, ucl: &UCLContract, conditions_met: bool) -> (r: Result<
        X402Headers,
        Error,
    >)
        ensures
            r is Ok,
            r matches Ok(h) ==> {
                &&& h.contract_id@ == ucl.contract_id@
                &&& h.payment_amount@ == amount_text(ucl.payment.amount@)
                &&& h.payment_token@ == ucl.payment.token@
                &&& h.settlement_network@ == ucl.payment.blockchain@
                &&& h.conditions_met@ == (if conditions_met {
                    "true"@
                } else {
                    "false"@
                })
                &&& exists|ts: u64|
                    h.nonce@ == nonce_text(ts, old(self).spec_counter()) && h.signature@
                        == signature_text(
                        old(self).spec_key(),
                        ucl.contract_id@,
                        amount_text(ucl.payment.amount@),
                        ucl.payment.token@,
                        nonce_text(ts, old(self).spec_counter()),
                    )
            },
            final(self).spec_counter() == counter_next(old(self).spec_counter()),
            final(self).spec_key() == old(self).spec_key(),
            final(self).spec_endpoint() == old(self).spec_endpoint(),
    {
        let nonce = self.generate_nonce();
        let ghost ts = choose|ts: u64| nonce@ == nonce_text(ts, old(self).spec_counter());
        let amount = ucl.payment.amount.render();
        let signature = signature_for(
            self.key.as_str(),
            ucl.contract_id.as_str(),
            amount.as_str(),
            ucl.payment.token.as_str(),
            nonce.as_str(),
        );
        let headers = X402Headers {
            contract_id: ucl.contract_id.clone(),
            payment_amount: amount,
            payment_token: ucl.payment.token.clone(),
            settlement_network: ucl.payment.blockchain.clone(),
            conditions_met: if conditions_met {
                String::from_str("true")
            } else {
                String::from_str("false")
            },
            signature,
            nonce,
        };
        Ok(headers)
    }

    /// Verify a received header set: look up every authenticated field,
    /// recompute the signature from them and the client's key, and compare
    /// without an early exit. Any missing field rejects.
    pub fn verify_response(&self, headers: &Vec<(String, String)>) -> (r: Result<bool, Error>)
        ensures
            r is Ok,
            r matches Ok(b) ==> b == response_verified(self.spec_key(), headers@),
    {
        let id = match lookup_header(headers, "X402-Contract-ID") {
            Some(v) => v,
            None => {
                return Ok(false);
            },
        };
        let amount = match lookup_header(headers, "X402-Payment-Amount") {
            Some(v) => v,
            None => {
                return Ok(false);
            },
        };
        let token = match lookup_header(headers, "X402-Payment-Token") {
            Some(v) => v,
            None => {
                return Ok(false);
            },
        };
        let nonce = match lookup_header(headers, "X402-Nonce") {
            Some(v) => v,
            None => {
                return Ok(false);
            },
        };
        let sig = match lookup_header(headers, "X402-Signature") {
            Some(v) => v,
            None => {
                return Ok(false);
            },
        };
        let expected = signature_for(
            self.key.as_str(),
            id.as_str(),
            amount.as_str(),
            token.as_str(),
            nonce.as_str(),
        );
        Ok(ct_str_eq(expected.as_str(), sig.as_str()))
    }

    /// Generate a fresh nonce and advance the counter.
    fn generate_nonce(&mut self) -> (r: String)
        ensures
            exists|ts: u64| r@ == nonce_text(ts, old(self).spec_counter()),
            final(self).spec_counter() == counter_next(old(self).spec_counter()),
            final(self).spec_key() == old(self).spec_key(),
            final(self).spec_endpoint() == old(self).spec_endpoint(),
    {
        let ts = now_unix_nanos();
        let mut out = String::new();
        push_dec_u64(&mut out, ts);
        out.push('-');
        push_dec_u64(&mut out, self.counter);
        proof {
            assert(out@ =~= nonce_text(ts, old(self).spec_counter()));
        }
        if self.counter == 0xffffffffffffffff {
            self.counter = 0;
        } else {
            self.counter = self.counter + 1;
        }
        out
    }
}

/// The first value carried under `name`, if any.
pub open spec fn spec_lookup_header(hs: Seq<(String, String)>, name: Seq<char>) -> Option<
    Seq<char>,
>
    decreases hs.len(),
{
    if hs.len() == 0 {
        Option::None
    } else if hs[0].0@ == name {
        Option::Some(hs[0].1@)
    } else {
        spec_lookup_header(hs.subrange(1, hs.len() as int), name)
    }
}

/// Whether a header set carries all authenticated fields and a signature
/// that matches them under `key`.
pub open spec fn response_verified(key: Seq<char>, hs: Seq<(String, String)>) -> bool {
    match (
        spec_lookup_header(hs, "X402-Contract-ID"@),
        spec_lookup_header(hs, "X402-Payment-Amount"@),
        spec_lookup_header(hs, "X402-Payment-Token"@),
        spec_lookup_header(hs, "X402-Nonce"@),
        spec_lookup_header(hs, "X402-Signature"@),
    ) {
        (
            Option::Some(id),
            Option::Some(amount),
            Option::Some(token),
            Option::Some(nonce),
            Option::Some(sig),
        ) => sig == signature_text(key, id, amount, token, nonce),
        _ => false,
    }
}

/// Find the first header with the given name.
fn lookup_header(headers: &Vec<(String, String)>, name: &str) -> (r: Option<String>)
    ensures
        match r {
            Some(v) => spec_lookup_header(headers@, name@) == Option::Some(v@),
            None => spec_lookup_header(headers@, name@) is None,
        },
{
    let r = lookup_header_from(headers, name, 0);
    proof {
        assert(headers@.skip(0) =~= headers@);
    }
    r
}

/// Find the first header with the given name at or after `from`.
fn lookup_header_from(headers: &Vec<(String, String)>, name: &str, from: usize) -> (r: Option<
    String,
>)
    requires
        from <= headers@.len(),
    ensures
        match r {
            Some(v) => spec_lookup_header(headers@.skip(from as int), name@) == Option::Some(v@),
            None => spec_lookup_header(headers@.skip(from as int), name@) is None,
        },
    decreases headers@.len() - from,
{
    if from >= headers.len() {
        proof {
            assert(headers@.skip(from as int) =~= Seq::<(String, String)>::empty());
        }
        return None;
    }
    let t = Ghost(headers@.skip(from as int));
    proof {
        assert(t@[0] == headers@[from as int]);
        assert(t@.subrange(1, t@.len() as int) =~= headers@.skip(from as int + 1));
    }
    if crate::text::str_eq(headers[from].0.as_str(), name) {
        Some(headers[from].1.clone())
    } else {
        lookup_header_from(headers, name, from + 1)
    }
}

/// Compare two strings of equal content without an early exit on the first
/// differing character.
fn ct_str_eq(a: &str, b: &str) -> (r: bool)
    ensures
        r == (a@ == b@),
{
    let na = a.unicode_len();
    let nb = b.unicode_len();
    if na != nb {
        return false;
    }
    let mut mismatches: u64 = 0;
    let mut i: usize = 0;
    while i < na
        invariant
            0 <= i <= na,
            na == a@.len(),
            na == b@.len(),
            mismatches <= i,
            (mismatches == 0) == (forall|j: int| 0 <= j < i ==> a@[j] == b@[j]),
        decreases na - i,
    {
        let ca = a.get_char(i);
        let cb = b.get_char(i);
        mismatches = mismatches + if ca != cb {
            1
        } else {
            0
        };
        i = i + 1;
    }
    proof {
        if mismatches == 0 {
            assert(a@ =~= b@);
        }
    }
    mismatches == 0
}

/// One step of the digest fold, executably.
fn mac_step_exec(h: u64, c: char) -> (r: u64)
    ensures
        r == mac_step(h, c),
{
    let x: u64 = h ^ ((c as u32) as u64);
    let p: u128 = (x as u128) * (MAC_PRIME as u128);
    (p % 0x10000000000000000u128) as u64
}

/// Fold the digest state over a text.
fn mac_fold_exec(h: u64, s: &str) -> (r: u64)
    ensures
        r == mac_fold(h, s@),
{
    let n = s.unicode_len();
    let mut acc = h;
    let mut i: usize = 0;
    proof {
        assert(s@.skip(0) =~= s@);
    }
    while i < n
        invariant
            0 <= i <= n,
            n == s@.len(),
            mac_fold(acc, s@.skip(i as int)) == mac_fold(h, s@),
        decreases n - i,
    {
        proof {
            let t = s@.skip(i as int);
            assert(t[0] == s@[i as int]);
            assert(t.subrange(1, t.len() as int) =~= s@.skip(i as int + 1));
        }
        acc = mac_step_exec(acc, s.get_char(i));
        i = i + 1;
    }
    proof {
        assert(s@.skip(n as int) =~= Seq::<char>::empty());
    }
    acc
}

/// Render a digest as sixteen hexadecimal characters.
fn push_hex16(out: &mut String, n: u64)
    ensures
        final(out)@ == old(out)@ + hex16(n),
{
    let mut i: u64 = 0;
    proof {
        assert(out@ =~= old(out)@ + hex16(n).take(0));
    }
    while i < 16
        invariant
            0 <= i <= 16,
            out@ == old(out)@ + hex16(n).take(i as int),
        decreases 16 - i,
    {
        let shift: u64 = (15 - i) * 4;
        let d: u64 = (n >> shift) & 0xf;
        proof {
            assert((n >> shift) & 0xf < 16) by (bit_vector);
        }
        out.append(hex_digit_str(d));
        proof {
            assert(hex16(n)[i as int] == hex_char(d as int));
            assert(hex16(n).take(i as int + 1) =~= hex16(n).take(i as int).push(
                hex16(n)[i as int],
            ));
            assert(out@ =~= old(out)@ + hex16(n).take(i as int + 1));
        }
        i = i + 1;
    }
    proof {
        assert(hex16(n).take(16) =~= hex16(n));
    }
}

/// The algorithm-tagged signature over the authenticated fields.
fn signature_for(key: &str, id: &str, amount: &str, token: &str, nonce: &str) -> (r: String)
    ensures
        r@ == signature_text(key@, id@, amount@, token@, nonce@),
{
    let mut msg = String::from_str(id);
    msg.push(':');
    msg.append(amount);
    msg.push(':');
    msg.append(token);
    msg.push(':');
    msg.append(nonce);
    proof {
        assert(msg@ =~= mac_message(id@, amount@, token@, nonce@));
    }
    let h0 = mac_fold_exec(MAC_OFFSET, key);
    let h1 = mac_step_exec(h0, '\u{0}');
    let digest = mac_fold_exec(h1, msg.as_str());
    let mut out = String::from_str("fnv1a64:");
    push_hex16(&mut out, digest);
    proof {
        assert(out@ =~= signature_text(key@, id@, amount@, token@, nonce@));
    }
    out
}

} // verus!
