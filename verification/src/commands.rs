use vstd::prelude::*;
use std::str::FromStr;

verus! {

/// The arguments of the command that shows the balance of a key's account on
/// a chain. Without a key name, the one of the chain's configuration is
/// taken.
#[derive(Clone, Debug, PartialEq, Eq)]
pub struct KeyBalanceCmd {
    pub chain_id: String,
    pub key_name: Option<String>,
}

impl KeyBalanceCmd {
    /// The key name to show with the balance: the one given, or else the
    /// configured one.
    pub fn key_name_shown(&self, configured: &String) -> (name: String)
        ensures
            name@ == match self.key_name {
                Some(given) => given@,
                None => configured@,
            },
    {
        match &self.key_name {
            Some(given) => given.clone(),
            None => configured.clone(),
        }
    }
}

/// The arguments of the command that shows the events of a transaction.
#[derive(Clone, Debug, PartialEq, Eq)]
pub struct QueryTxEventsCmd {
    pub chain_id: String,
    pub hash: String,
}

/// The hash of a transaction to look up.
#[derive(Clone, Debug, PartialEq, Eq)]
pub struct QueryTxHash(pub Vec<u8>);

/// A query for transactions.
#[derive(Clone, Debug, PartialEq, Eq)]
pub enum QueryTxRequest {
    Transaction(QueryTxHash),
}

/// An error of a command.
#[derive(Clone, Debug, PartialEq, Eq)]
pub enum CommandError {
    /// The text is no transaction hash.
    InvalidHash(String),
}

/// The bytes that `tendermint::Hash::from_str` decodes from a text, or `None`
/// where it fails.
pub uninterp spec fn decoded_hash(text: Seq<char>) -> Option<Seq<u8>>;

/// Calls `tendermint::Hash::from_str`, which decodes upper-case hexadecimal
/// text into a hash, and hands back the bytes of the hash. The result depends
/// on the text alone, and is claimed to be what `decoded_hash` names.
#[verifier::external_body]
fn decode_hash(text: &str) -> (r: Option<Vec<u8>>)
    ensures
        r.is_some() == decoded_hash(text@).is_some(),
        r.is_some() ==> r.unwrap()@ == decoded_hash(text@).unwrap(),
{
    match tendermint::Hash::from_str(text) {
        Ok(hash) => Some(hash.as_bytes().to_vec()),
        Err(_) => None,
    }
}

/// The query that a decoded hash leads to, or the error that names the text
/// which could not be decoded.
pub fn tx_request(decoded: Option<Vec<u8>>, text: &String) -> (r: Result<
    QueryTxRequest,
    CommandError,
>)
    ensures
        match decoded {
            Some(bytes) => r == Ok::<QueryTxRequest, CommandError>(
                QueryTxRequest::Transaction(QueryTxHash(bytes)),
            ),
            None => match r {
                Err(CommandError::InvalidHash(t)) => t@ == text@,
                _ => false,
            },
        },
{
    match decoded {
        Some(bytes) => Ok(QueryTxRequest::Transaction(QueryTxHash(bytes))),
        None => Err(CommandError::InvalidHash(text.clone())),
    }
}

impl QueryTxEventsCmd {
    /// The query that the command puts to the chain: for the transaction
    /// whose hash the text decodes to. Text that does not decode is an error.
    pub fn request(&self) -> (r: Result<QueryTxRequest, CommandError>)
        ensures
            match decoded_hash(self.hash@) {
                Some(bytes) => match r {
                    Ok(QueryTxRequest::Transaction(QueryTxHash(b))) => b@ == bytes,
                    _ => false,
                },
                None => match r {
                    Err(CommandError::InvalidHash(t)) => t@ == self.hash@,
                    _ => false,
                },
            },
    {
        let decoded = decode_hash(self.hash.as_str());
        tx_request(decoded, &self.hash)
    }
}

} // verus!
