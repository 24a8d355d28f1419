//! One-shot code listing: a row per account, in listing order.
//!
//! The rows carry the data a renderer prints — name, fresh passcode and
//! seconds left — and never mutate the store.  An account whose stored
//! secret is not valid Base32 stops the listing and is named in the
//! error.

use vstd::prelude::*;
use crate::codec;
use crate::codec::{b32_decode, valid_b32};
use crate::store::AccountStore;
use crate::totp;
use crate::totp::{spec_remaining, totp_code};

verus! {

/// One row of a listing: an account, its current passcode, and the
/// seconds the passcode stays valid.
#[derive(Debug)]
pub struct CodeRow {
    pub name: String,
    pub code: String,
    pub remaining: u64,
}

/// Why a passcode could not be produced.
#[derive(Debug)]
pub enum CodeError {
    /// The stored secret of the named account is not valid unpadded
    /// Base32.
    InvalidEncoding { name: String },
    /// No account of the requested name exists.
    NotFound { name: String },
}

impl CodeError {
    /// The account name the error is about.
    pub fn account_name(&self) -> (r: &String)
        ensures
            match self {
                CodeError::InvalidEncoding { name } => r@ == name@,
                CodeError::NotFound { name } => r@ == name@,
            },
    {
        match self {
            CodeError::InvalidEncoding { name } => name,
            CodeError::NotFound { name } => name,
        }
    }
}

/// Every stored secret decodes.
pub open spec fn all_secrets_valid(store: AccountStore) -> bool {
    forall|i: int| 0 <= i < store.len_spec() ==> valid_b32(#[trigger] store.secret_at(i))
}

/// `rows` is exactly the listing of `store` at time `now`: one row per
/// account, in order, each carrying that account's passcode and the
/// shared remaining time.
pub open spec fn rows_match(store: AccountStore, now: u64, rows: Seq<CodeRow>) -> bool {
    &&& rows.len() == store.len_spec()
    &&& forall|i: int|
        0 <= i < rows.len() ==> (#[trigger] rows[i]).name@ == store.name_at(i)
            && rows[i].code@ == totp_code(b32_decode(store.secret_at(i)), now)
            && rows[i].remaining == spec_remaining(now)
}

/// `e` names the first account, in listing order, whose secret does not
/// decode.
pub open spec fn names_first_invalid(store: AccountStore, e: CodeError) -> bool {
    match e {
        CodeError::InvalidEncoding { name } => exists|k: int|
            0 <= k < store.len_spec() && #[trigger] store.name_at(k) == name@ && !valid_b32(
                store.secret_at(k),
            ) && (forall|t: int| 0 <= t < k ==> valid_b32(#[trigger] store.secret_at(t))),
        CodeError::NotFound { .. } => false,
    }
}

/// Build the one-shot listing of `store` at time `now`.
///
/// Succeeds exactly when every stored secret is valid Base32; the first
/// account whose secret is not is named in the error, and nothing is
/// generated past it.  An empty store yields an empty listing.
pub fn render_rows(store: &AccountStore, now: u64) -> (r: Result<Vec<CodeRow>, CodeError>)
    ensures
        r is Ok <==> all_secrets_valid(*store),
        r matches Ok(rows) ==> rows_match(*store, now, rows@),
        r matches Err(e) ==> names_first_invalid(*store, e),
{
    let n = store.len();
    let mut rows: Vec<CodeRow> = Vec::new();
    let mut i: usize = 0;
    while i < n
        invariant
            i <= n,
            n == store.len_spec(),
            rows@.len() == i,
            forall|t: int| 0 <= t < i ==> valid_b32(#[trigger] store.secret_at(t)),
            forall|t: int|
                0 <= t < i ==> (#[trigger] rows@[t]).name@ == store.name_at(t) && rows@[t].code@
                    == totp_code(b32_decode(store.secret_at(t)), now) && rows@[t].remaining
                    == spec_remaining(now),
        decreases n - i,
    {
        let a = &store.accounts[i];
        match codec::decode(a.secret.as_str()) {
            Ok(key) => {
                let (code, remaining) = totp::generate(&key, now);
                rows.push(CodeRow { name: a.name.clone(), code, remaining });
            },
            Err(_) => {
                let e = CodeError::InvalidEncoding { name: a.name.clone() };
                proof {
                    assert(store.name_at(i as int) == e->InvalidEncoding_name@);
                    assert(!valid_b32(store.secret_at(i as int)));
                    assert(names_first_invalid(*store, e));
                }
                return Err(e);
            },
        }
        i += 1;
    }
    Ok(rows)
}

/// The passcode of the single account called `name` at time `now`.
///
/// Exactly one of three things happens: no such account and it is named
/// in `NotFound`; the account exists but its secret is rejected and it
/// is named in `InvalidEncoding`; or the passcode of its decoded secret
/// is returned.
pub fn code_for_name(store: &AccountStore, name: &String, now: u64) -> (r: Result<
    String,
    CodeError,
>)
    requires
        store.wf(),
    ensures
        !store.contains_name(name@) ==> (r matches Err(CodeError::NotFound { name: m }) && m@
            == name@),
        store.contains_name(name@) && valid_b32(store.as_map()[name@]) ==> (r matches Ok(code)
            && code@ == totp_code(b32_decode(store.as_map()[name@]), now)),
        store.contains_name(name@) && !valid_b32(store.as_map()[name@]) ==> (r matches Err(
            CodeError::InvalidEncoding { name: m },
        ) && m@ == name@),
{
    match store.get(name) {
        Some(secret) => {
            match codec::decode(secret.as_str()) {
                Ok(key) => {
                    let (code, _remaining) = totp::generate(&key, now);
                    Ok(code)
                },
                Err(_) => Err(CodeError::InvalidEncoding { name: name.clone() }),
            }
        },
        None => Err(CodeError::NotFound { name: name.clone() }),
    }
}

} // verus!
