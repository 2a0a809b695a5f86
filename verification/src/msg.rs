//! Plain message and configuration types of the contract's public
//! interface. The transport layer (JSON schemas, serialization) lives with
//! the host; these are the bare shapes the logic and its callers share.

use vstd::prelude::*;

verus! {

/// This type represents optional configuration values.
/// All values are optional and have defaults which are more private by
/// default, but can be overridden if necessary.
pub struct InstantiateConfig {
    /// indicates whether the token IDs and the number of tokens controlled
    /// by the contract are public
    /// default: False
    pub public_token_supply: Option<bool>,
    /// indicates whether token ownership is public or private
    /// default: False
    pub public_owner: Option<bool>,
    /// indicates whether sealed metadata should be enabled
    /// default: False
    pub enable_sealed_metadata: Option<bool>,
    /// indicates if the Reveal function should keep the sealed metadata
    /// private after unwrapping
    /// default: False
    pub unwrapped_metadata_is_private: Option<bool>,
    /// indicates whether a minter is permitted to update a token's metadata
    /// default: True
    pub minter_may_update_metadata: Option<bool>,
    /// indicates whether the owner of a token is permitted to update a
    /// token's metadata
    /// default: False
    pub owner_may_update_metadata: Option<bool>,
    /// indicates whether burn functionality should be enabled
    /// default: False
    pub enable_burn: Option<bool>,
    /// indicates whether a minter can modify token storage
    /// default: False
    pub minter_may_put_token_storage: Option<bool>,
    /// indicates whether a minter can modify global storage
    /// default: False
    pub minter_may_put_global_storage: Option<bool>,
}

impl Default for InstantiateConfig {
    fn default() -> (r: Self)
        ensures
            r.public_token_supply == Some(false),
            r.public_owner == Some(false),
            r.enable_sealed_metadata == Some(false),
            r.unwrapped_metadata_is_private == Some(false),
            r.minter_may_update_metadata == Some(true),
            r.owner_may_update_metadata == Some(false),
            r.enable_burn == Some(false),
            r.minter_may_put_token_storage == Some(false),
            r.minter_may_put_global_storage == Some(false),
    {
        InstantiateConfig {
            public_token_supply: Some(false),
            public_owner: Some(false),
            enable_sealed_metadata: Some(false),
            unwrapped_metadata_is_private: Some(false),
            minter_may_update_metadata: Some(true),
            owner_may_update_metadata: Some(false),
            enable_burn: Some(false),
            minter_may_put_token_storage: Some(false),
            minter_may_put_global_storage: Some(false),
        }
    }
}

/// permission access level
#[derive(Clone, Copy, PartialEq, Eq, Structural, Debug)]
pub enum AccessLevel {
    /// approve permission only for the specified token
    ApproveToken,
    /// grant permission for all tokens
    All,
    /// revoke permission only for the specified token
    RevokeToken,
    /// remove all permissions for this address
    RemoveAll,
}

/// token transfer info used when doing a BatchTransferNft
pub struct Transfer {
    /// recipient of the transferred tokens
    pub recipient: String,
    /// tokens being transferred
    pub token_ids: Vec<String>,
    /// optional memo for the tx
    pub memo: Option<String>,
}

/// Storage key value pair
pub struct KeyValuePair {
    /// key
    pub key: String,
    /// value
    pub value: Option<String>,
}

/// the address and viewing key making an authenticated query request
pub struct ViewerInfo {
    /// querying address
    pub address: String,
    /// authentication key string
    pub viewing_key: String,
}

/// the address and viewing key making an authenticated query request
pub struct ViewerInfoAddrOpt {
    /// querying address
    pub address: Option<String>,
    /// authentication key string
    pub viewing_key: String,
}

/// a recipient contract's code hash and whether it implements
/// BatchReceiveNft
pub struct ReceiverInfo {
    /// recipient's code hash
    pub recipient_code_hash: String,
    /// true if the contract also implements BatchReceiveNft. Defaults to
    /// false if not specified
    pub also_implements_batch_receive_nft: Option<bool>,
}

/// an address delegated to act for specific tokens of an owner
pub struct TokenDelegateApproval {
    pub address: String,
    pub tokens: Vec<String>,
}

/// channel mode
#[derive(Clone, Copy, PartialEq, Eq, Structural, Debug)]
pub enum ChannelMode {
    Counter,
    Txhash,
}

#[derive(Clone, Copy, PartialEq, Eq, Structural, Debug)]
pub enum ResponseStatus {
    Success,
    Failure,
}

#[derive(Clone, Copy, PartialEq, Eq, Structural, Debug)]
pub enum ContractStatus {
    Normal,
    StopTransactions,
    StopAll,
}

impl ContractStatus {
    /// The byte each status is stored as.
    pub open spec fn as_u8(self) -> u8 {
        match self {
            ContractStatus::Normal => 0,
            ContractStatus::StopTransactions => 1,
            ContractStatus::StopAll => 2,
        }
    }

    /// Returns u8 representation of the ContractStatus
    pub fn to_u8(&self) -> (r: u8)
        ensures
            r == self.as_u8(),
    {
        match self {
            ContractStatus::Normal => 0,
            ContractStatus::StopTransactions => 1,
            ContractStatus::StopAll => 2,
        }
    }
}

/// queries using permits instead of viewing keys
pub enum QueryWithPermit {
    /// displays the private metadata if permitted to view it
    PrivateMetadata { token_id: String },
    /// displays all the information about a token that the viewer has
    /// permission to see
    NftDossier { token_id: String, include_expired: Option<bool> },
    /// displays all the information about multiple tokens that the viewer
    /// has permission to see
    BatchNftDossier { token_ids: Vec<String>, include_expired: Option<bool> },
    /// display the owner of the specified token if authorized to view it
    OwnerOf { token_id: String, include_expired: Option<bool> },
    /// displays all the information contained in the OwnerOf and NftInfo
    /// queries
    AllNftInfo { token_id: String, include_expired: Option<bool> },
    /// list all the inventory-wide approvals in place for the permit
    /// creator
    InventoryApprovals { include_expired: Option<bool> },
    /// display the transaction history for the permit creator in reverse
    /// chronological order
    TransactionHistory { page: Option<u32>, page_size: Option<u32> },
}

} // verus!
