use vstd::prelude::*;
use crate::error::{SpawnError, SpawnErrorDetail};

verus! {

/// The configuration of one chain.
#[derive(Clone, Debug, PartialEq, Eq)]
pub struct ChainConfig {
    pub id: String,
    pub key_name: String,
}

/// The relayer's configuration, as far as its chains go.
#[derive(Clone, Debug, PartialEq, Eq)]
pub struct Config {
    pub chains: Vec<ChainConfig>,
}

impl Config {
    /// Whether no chain among the first `n` has the identifier.
    pub open spec fn none_before(self, n: int, chain_id: Seq<char>) -> bool {
        forall|i: int| 0 <= i < n ==> (#[trigger] self.chains@[i]).id@ != chain_id
    }

    /// The first chain of the configuration with the identifier, if any.
    pub fn find_chain(&self, chain_id: &String) -> (r: Option<&ChainConfig>)
        ensures
            match r {
                Some(c) => exists|i: int|
                    0 <= i < self.chains@.len() && *c == #[trigger] self.chains@[i] && c.id@
                        == chain_id@ && self.none_before(i, chain_id@),
                None => self.none_before(self.chains@.len() as int, chain_id@),
            },
    {
        let mut i: usize = 0;
        while i < self.chains.len()
            invariant
                0 <= i <= self.chains@.len(),
                self.none_before(i as int, chain_id@),
            decreases self.chains@.len() - i,
        {
            if self.chains[i].id == *chain_id {
                return Some(&self.chains[i]);
            }
            i += 1;
        }
        None
    }
}

/// The configuration from which the runtime of a chain is spawned: the first
/// entry with the chain's identifier. Where there is none, the error names
/// the chain.
pub fn chain_config_for<'a>(config: &'a Config, chain_id: &String) -> (r: Result<
    &'a ChainConfig,
    SpawnError,
>)
    ensures
        match r {
            Ok(c) => exists|i: int|
                0 <= i < config.chains@.len() && *c == #[trigger] config.chains@[i] && c.id@
                    == chain_id@ && config.none_before(i, chain_id@),
            Err(e) => config.none_before(config.chains@.len() as int, chain_id@)
                && (match e.detail {
                SpawnErrorDetail::MissingChainConfig(id) => id@ == chain_id@,
                _ => false,
            }),
        },
{
    match config.find_chain(chain_id) {
        Some(c) => Ok(c),
        None => Err(SpawnError::missing_chain_config(chain_id.clone())),
    }
}

} // verus!
