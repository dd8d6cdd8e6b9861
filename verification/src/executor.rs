//! Order executors.
//!
//! The simulated executor allocates order ids locally; the brokerage
//! executor holds credentials and signs requests, while the network calls
//! themselves live with the surrounding application.

use vstd::prelude::*;
use vstd::string::StrSliceExecFns;
use vstd::string::StringSliceAdditionalSpecFns;
use crate::fixed::Fixed;
use crate::text::{dec_digits, int_digits, push_bytes, push_i64, push_u64};

verus! {

/// A simulated order executor: every order gets a fresh local id.
#[derive(Clone, Debug)]
pub struct SimExecutor {
    pub counter: u64,
}

/// The text of a simulated order id.
pub open spec fn sim_id_bytes(n: nat) -> Seq<u8> {
    "sim-".spec_bytes() + dec_digits(n)
}

impl SimExecutor {
    pub fn new() -> (r: SimExecutor)
        ensures
            r.counter == 0,
    {
        SimExecutor { counter: 0 }
    }

    /// Records a simulated buy: allocates the next order id and reports it.
    pub fn buy(&mut self, symbol: &[u8], price: Fixed, amount: Fixed) -> (id: Vec<u8>)
        requires
            old(self).counter < u64::MAX,
        ensures
            final(self).counter == old(self).counter + 1,
            id@ == sim_id_bytes(old(self).counter as nat),
    {
        let n = self.counter;
        self.counter = self.counter + 1;
        let mut out: Vec<u8> = Vec::new();
        push_bytes(&mut out, "sim-".as_bytes());
        push_u64(&mut out, n);
        out
    }

    /// Records a simulated sell: allocates the next order id and reports it.
    pub fn sell(&mut self, symbol: &[u8], price: Fixed, amount: Fixed) -> (id: Vec<u8>)
        requires
            old(self).counter < u64::MAX,
        ensures
            final(self).counter == old(self).counter + 1,
            id@ == sim_id_bytes(old(self).counter as nat),
    {
        let n = self.counter;
        self.counter = self.counter + 1;
        let mut out: Vec<u8> = Vec::new();
        push_bytes(&mut out, "sim-".as_bytes());
        push_u64(&mut out, n);
        out
    }
}

/// The brokerage executor: credentials and the endpoint base.
#[derive(Clone, Debug)]
pub struct GuosenExecutor {
    pub api_key: String,
    pub secret: String,
    pub base_url: String,
}

/// The placeholder signature text of an order request.
pub open spec fn sign_bytes(symbol: Seq<u8>, price: Fixed, amount: Fixed) -> Seq<u8> {
    "mock-signature-".spec_bytes() + symbol + seq![45u8] + int_digits(price.raw as int)
        + seq![45u8] + int_digits(amount.raw as int)
}

impl GuosenExecutor {
    pub fn new(api_key: String, secret: String) -> (r: GuosenExecutor)
        ensures
            r.api_key@ == api_key@,
            r.secret@ == secret@,
            r.base_url@ == "https://api.guosen.com.cn"@,
    {
        GuosenExecutor { api_key, secret, base_url: "https://api.guosen.com.cn".to_owned() }
    }

    /// The placeholder request signature, exactly `sign_bytes`.
    pub fn sign(&self, symbol: &[u8], price: Fixed, amount: Fixed) -> (r: Vec<u8>)
        requires
            price.raw > i64::MIN,
            amount.raw > i64::MIN,
        ensures
            r@ == sign_bytes(symbol@, price, amount),
    {
        let mut out: Vec<u8> = Vec::new();
        push_bytes(&mut out, "mock-signature-".as_bytes());
        push_bytes(&mut out, symbol);
        out.push(45);
        push_i64(&mut out, price.raw);
        out.push(45);
        push_i64(&mut out, amount.raw);
        assert(out@ =~= sign_bytes(symbol@, price, amount));
        out
    }
}

} // verus!
