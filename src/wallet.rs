//! Validation and one-time creation of authorization accounts.
//!
//! Accounts live in an [`AccountStore`] keyed by the seed derived from their
//! credential identifier; creation is an insert-if-absent on that key, so at
//! most one account exists per seed.

use crate::seed::{derive_seed, seed_of, SEED_LEN};
use anchor_lang::prelude::Pubkey;
use vstd::prelude::*;
use vstd::utf8::encode_utf8;

verus! {

/// A public identity: account owners and fee payers. Declares anchor_lang's
/// `Pubkey` (solana_program's 32-byte key) so that accounts can carry it;
/// nothing about its contents is assumed.
#[verifier::external_type_specification]
#[verifier::external_body]
pub struct ExPubkey(Pubkey);

/// Longest accepted credential identifier, in bytes.
pub const MAX_CREDENTIAL_ID_LEN: usize = 64;

/// Bytes reserved for an account before its credential identifier: the
/// discriminator, the fixed-width fields, and the identifier's length prefix.
pub const MULTISIG_FIXED_SPACE: usize = 8 + 1 + 1 + 8 + 1 + 8 + 8 + 32 + 4;

/// Why an initialization was refused.
#[derive(Debug, Clone, Copy, PartialEq, Eq, Structural)]
pub enum WalletError {
    /// A zero threshold or an empty credential identifier.
    InvalidConfig,
    /// A credential identifier longer than [`MAX_CREDENTIAL_ID_LEN`] bytes.
    NameTooLong,
    /// An account already exists at the derived seed.
    AlreadyInitialized,
}

/// The multi-party authorization account record.
pub struct MultiSigWallet {
    pub threshold: u8,
    pub guardian_count: u8,
    pub recovery_nonce: u64,
    pub bump: u8,
    pub transaction_nonce: u64,
    pub last_transaction_timestamp: i64,
    pub owner: Pubkey,
    pub credential_id: String,
}

/// A stored account with the seed it is addressed by and the space reserved
/// for it.
pub struct MultisigEntry {
    pub seed: [u8; 24],
    pub space: usize,
    pub wallet: MultiSigWallet,
}

/// What the host supplies to an initialization: the verified fee payer and
/// the address disambiguator it chose for the derived address.
pub struct InitializeMultisig {
    pub fee_payer: Pubkey,
    pub bump: u8,
}

/// The accounts created so far, in order of creation.
pub struct AccountStore {
    entries: Vec<MultisigEntry>,
}

/// Storage reserved for an account whose identifier has `id_len` bytes.
pub open spec fn space_for(id_len: nat) -> nat {
    MULTISIG_FIXED_SPACE as nat + id_len
}

/// Some entry of `entries` is addressed by `seed`.
pub open spec fn seed_taken(entries: Seq<MultisigEntry>, seed: Seq<u8>) -> bool {
    exists|i: int| 0 <= i < entries.len() && (#[trigger] entries[i]).seed@ == seed
}

/// `e` is the account that a successful initialization creates.
pub open spec fn is_fresh_entry(
    e: MultisigEntry,
    payer: Pubkey,
    bump: u8,
    threshold: u8,
    credential_id: Seq<char>,
) -> bool {
    let bytes = encode_utf8(credential_id);
    &&& e.seed@ == seed_of(bytes)
    &&& e.space == space_for(bytes.len())
    &&& e.wallet.threshold == threshold
    &&& e.wallet.guardian_count == 0
    &&& e.wallet.recovery_nonce == 0
    &&& e.wallet.bump == bump
    &&& e.wallet.transaction_nonce == 0
    &&& e.wallet.last_transaction_timestamp == 0
    &&& e.wallet.owner == payer
    &&& e.wallet.credential_id@ == credential_id
}

/// An entry that is consistent with its own identifier.
pub open spec fn entry_wf(e: MultisigEntry) -> bool {
    let bytes = encode_utf8(e.wallet.credential_id@);
    &&& e.seed@ == seed_of(bytes)
    &&& e.space == space_for(bytes.len())
    &&& e.wallet.threshold > 0
    &&& 0 < bytes.len() <= MAX_CREDENTIAL_ID_LEN
}

/// Every entry is consistent and no two entries share a seed.
pub open spec fn entries_wf(entries: Seq<MultisigEntry>) -> bool {
    &&& forall|i: int| 0 <= i < entries.len() ==> entry_wf(#[trigger] entries[i])
    &&& forall|i: int, j: int|
        0 <= i < entries.len() && 0 <= j < entries.len() && i != j ==> (#[trigger] entries[i]).seed@
            != (#[trigger] entries[j]).seed@
}

/// The outcome of initializing with `threshold` and `credential_id` on a
/// store holding `pre`: the store afterwards holds `post` and the call
/// returned `r`.
pub open spec fn initialize_step(
    pre: Seq<MultisigEntry>,
    post: Seq<MultisigEntry>,
    payer: Pubkey,
    bump: u8,
    threshold: u8,
    credential_id: Seq<char>,
    r: Result<(), WalletError>,
) -> bool {
    let bytes = encode_utf8(credential_id);
    if threshold == 0 || bytes.len() == 0 {
        r == Err::<(), WalletError>(WalletError::InvalidConfig) && post == pre
    } else if bytes.len() > MAX_CREDENTIAL_ID_LEN {
        r == Err::<(), WalletError>(WalletError::NameTooLong) && post == pre
    } else if seed_taken(pre, seed_of(bytes)) {
        r == Err::<(), WalletError>(WalletError::AlreadyInitialized) && post == pre
    } else {
        &&& r == Ok::<(), WalletError>(())
        &&& post.len() == pre.len() + 1
        &&& post.drop_last() == pre
        &&& is_fresh_entry(post.last(), payer, bump, threshold, credential_id)
    }
}

/// Initializing twice with the same credential identifier: once the first
/// call has created the account, the second call fails, with
/// `AlreadyInitialized` whenever its threshold is valid, and leaves the store
/// as the first call left it.
pub proof fn reinitialize_rejected(
    s0: Seq<MultisigEntry>,
    s1: Seq<MultisigEntry>,
    s2: Seq<MultisigEntry>,
    payer1: Pubkey,
    bump1: u8,
    threshold1: u8,
    payer2: Pubkey,
    bump2: u8,
    threshold2: u8,
    credential_id: Seq<char>,
    r1: Result<(), WalletError>,
    r2: Result<(), WalletError>,
)
    requires
        initialize_step(s0, s1, payer1, bump1, threshold1, credential_id, r1),
        r1 is Ok,
        initialize_step(s1, s2, payer2, bump2, threshold2, credential_id, r2),
    ensures
        r2 is Err,
        s2 == s1,
        threshold2 > 0 ==> r2 == Err::<(), WalletError>(WalletError::AlreadyInitialized),
        s1.last().wallet.credential_id@ == credential_id,
{
    let bytes = encode_utf8(credential_id);
    let k = s1.len() - 1;
    assert(s1[k].seed@ == seed_of(bytes));
    assert(seed_taken(s1, seed_of(bytes)));
}

impl View for AccountStore {
    type V = Seq<MultisigEntry>;

    closed spec fn view(&self) -> Seq<MultisigEntry> {
        self.entries@
    }
}

fn seeds_equal(a: &[u8; 24], b: &[u8; 24]) -> (r: bool)
    ensures
        r == (a@ == b@),
{
    let mut i: usize = 0;
    while i < SEED_LEN
        invariant
            i <= SEED_LEN,
            forall|k: int| 0 <= k < i ==> a@[k] == b@[k],
        decreases SEED_LEN - i,
    {
        if a[i] != b[i] {
            return false;
        }
        i = i + 1;
    }
    assert(a@ =~= b@);
    true
}

/// Storage to reserve for an account whose identifier has `id_len` bytes.
pub fn multisig_space(id_len: usize) -> (r: usize)
    requires
        id_len <= MAX_CREDENTIAL_ID_LEN,
    ensures
        r == space_for(id_len as nat),
{
    MULTISIG_FIXED_SPACE + id_len
}

impl AccountStore {
    /// Every entry is consistent and no two entries share a seed.
    #[verifier::type_invariant]
    closed spec fn inv(&self) -> bool {
        entries_wf(self.entries@)
    }

    /// A store with no accounts.
    pub fn new() -> (r: AccountStore)
        ensures
            r@ == Seq::<MultisigEntry>::empty(),
    {
        AccountStore { entries: Vec::new() }
    }

    /// Number of accounts created.
    pub fn len(&self) -> (r: usize)
        ensures
            r == self@.len(),
    {
        self.entries.len()
    }

    /// Position of the account addressed by `seed`, if any.
    pub fn position(&self, seed: &[u8; 24]) -> (r: Option<usize>)
        ensures
            r is None <==> !seed_taken(self@, seed@),
            r matches Some(i) ==> i < self@.len() && self@[i as int].seed@ == seed@,
    {
        let mut i: usize = 0;
        while i < self.entries.len()
            invariant
                i <= self.entries@.len(),
                forall|k: int| 0 <= k < i ==> self.entries@[k].seed@ != seed@,
            decreases self.entries.len() - i,
        {
            if seeds_equal(&self.entries[i].seed, seed) {
                return Some(i);
            }
            i = i + 1;
        }
        None
    }

    /// The entry at position `i`.
    pub fn entry(&self, i: usize) -> (r: &MultisigEntry)
        requires
            i < self@.len(),
        ensures
            *r == self@[i as int],
    {
        &self.entries[i]
    }

    /// The account addressed by the seed of `credential_id`, if any.
    pub fn find(&self, credential_id: &str) -> (r: Option<&MultiSigWallet>)
        ensures
            r is None <==> !seed_taken(self@, seed_of(encode_utf8(credential_id@))),
            r matches Some(w) ==> exists|i: int|
                0 <= i < self@.len() && self@[i].seed@ == seed_of(encode_utf8(credential_id@))
                    && self@[i].wallet == *w,
    {
        let seed = derive_seed(credential_id.as_bytes());
        match self.position(&seed) {
            Some(i) => Some(&self.entries[i].wallet),
            None => None,
        }
    }
}

/// Validates the parameters and, when no account exists at the seed derived
/// from `credential_id`, creates one owned by the fee payer.
pub fn initialize_multisig(
    store: &mut AccountStore,
    ctx: &InitializeMultisig,
    threshold: u8,
    credential_id: String,
) -> (r: Result<(), WalletError>)
    ensures
        entries_wf(final(store)@),
        initialize_step(
            old(store)@,
            final(store)@,
            ctx.fee_payer,
            ctx.bump,
            threshold,
            credential_id@,
            r,
        ),
{
    proof {
        use_type_invariant(&*store);
    }
    let id_len = credential_id.as_str().as_bytes().len();
    if threshold == 0 {
        return Err(WalletError::InvalidConfig);
    }
    if id_len == 0 {
        return Err(WalletError::InvalidConfig);
    }
    if id_len > MAX_CREDENTIAL_ID_LEN {
        return Err(WalletError::NameTooLong);
    }
    let seed = derive_seed(credential_id.as_str().as_bytes());
    if store.position(&seed).is_some() {
        return Err(WalletError::AlreadyInitialized);
    }
    let space = multisig_space(id_len);
    let wallet = MultiSigWallet {
        threshold,
        guardian_count: 0,
        recovery_nonce: 0,
        bump: ctx.bump,
        transaction_nonce: 0,
        last_transaction_timestamp: 0,
        owner: ctx.fee_payer,
        credential_id,
    };
    let ghost pre = store@;
    let mut entries = Vec::new();
    std::mem::swap(&mut entries, &mut store.entries);
    entries.push(MultisigEntry { seed, space, wallet });
    *store = AccountStore { entries };
    proof {
        assert(store@.drop_last() =~= pre);
        assert forall|i: int| 0 <= i < pre.len() implies store@[i].seed@ != seed@ by {
            assert(store@[i] == pre[i]);
        }
    }
    Ok(())
}

} // verus!
