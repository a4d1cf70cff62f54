//! A decoded Ethereum transaction.

use crate::account_storage::AccountStorage;
use crate::error::Error;
use crate::types::Address;
use crate::u256::U256;
use vstd::prelude::*;

verus! {

/// A signed transaction, decoded.
#[derive(Clone, Debug)]
pub struct Transaction {
    /// The caller's nonce that the transaction was signed for.
    pub nonce: u64,
    /// What the caller pays per unit of gas.
    pub gas_price: U256,
    /// The most gas that the transaction may be charged.
    pub gas_limit: U256,
    /// The contract called, or nothing for a contract creation.
    pub to: Option<Address>,
    /// The value sent along.
    pub value: U256,
    /// The call data, or the init code of a creation.
    pub call_data: Vec<u8>,
    /// The chain that the transaction was signed for, if it names one.
    pub chain_id: Option<U256>,
    /// The length of the encoded payload.
    pub rlp_len: usize,
    /// The hash of the unsigned payload, which the caller signed.
    pub hash: [u8; 32],
    /// The signature: r, s and the recovery id.
    pub signature: [u8; 65],
}

/// Why the store rejects the transaction of `caller`, if it does: the nonce
/// is not the caller's, or the transaction names a chain that is not the
/// store's.
pub open spec fn transaction_error<B: AccountStorage>(
    account_storage: &B,
    caller: Address,
    trx: &Transaction,
) -> Option<Error> {
    if account_storage.spec_nonce(caller) != trx.nonce {
        Some(Error::InvalidNonce)
    } else if trx.chain_id is Some && trx.chain_id.unwrap()@ != account_storage.spec_chain_id() {
        Some(Error::InvalidChainId)
    } else {
        None
    }
}

/// Validates a transaction against the store: its nonce must be the
/// caller's, and the chain it names, if it names one, the store's.
pub fn check_ethereum_transaction<B: AccountStorage>(
    account_storage: &B,
    caller: &Address,
    trx: &Transaction,
) -> (r: Result<(), Error>)
    ensures
        r is Ok <==> transaction_error(account_storage, *caller, trx) is None,
        r is Err ==> Some(r.unwrap_err()) == transaction_error(account_storage, *caller, trx),
{
    if account_storage.nonce(caller) != trx.nonce {
        return Err(Error::InvalidNonce);
    }
    match trx.chain_id {
        Some(chain_id) => {
            let expected = crate::u256::U256::from_u64(account_storage.chain_id());
            proof {
                if chain_id@ == expected@ {
                    crate::u256::lemma_view_injective(chain_id, expected);
                }
            }
            if chain_id != expected {
                return Err(Error::InvalidChainId);
            }
        },
        None => {},
    }
    Ok(())
}

} // verus!
