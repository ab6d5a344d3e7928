use vstd::prelude::*;

verus! {

/// A 32-byte account address.
#[derive(Debug, Clone, Copy)]
pub struct Pubkey {
    bytes: [u8; 32],
}

impl View for Pubkey {
    type V = Seq<u8>;

    closed spec fn view(&self) -> Seq<u8> {
        self.bytes@
    }
}

/// The address of the system program: 32 zero bytes.
pub open spec fn system_program_key() -> Seq<u8> {
    Seq::new(32, |i: int| 0u8)
}

/// Relies on solana_program::system_program::ID, declared there from the
/// base58 text "11111111111111111111111111111111", which decodes to 32 zero
/// bytes; `Pubkey::to_bytes` hands those bytes out.
#[verifier::external_body]
fn system_program_id() -> (r: Pubkey)
    ensures
        r@ == system_program_key(),
{
    Pubkey { bytes: solana_program::system_program::ID.to_bytes() }
}

impl Pubkey {
    pub fn new_from_array(bytes: [u8; 32]) -> (r: Pubkey)
        ensures
            r@ == bytes@,
    {
        Pubkey { bytes }
    }

    pub fn to_bytes(&self) -> (r: [u8; 32])
        ensures
            r@ == self@,
    {
        self.bytes
    }

    /// The system program's address.
    pub fn system_program() -> (r: Pubkey)
        ensures
            r@ == system_program_key(),
    {
        system_program_id()
    }

    /// Whether two addresses hold the same bytes.
    pub fn same_as(&self, other: &Pubkey) -> (r: bool)
        ensures
            r == (self@ == other@),
    {
        let mut i: usize = 0;
        while i < 32
            invariant
                i <= 32,
                self.bytes@.len() == 32,
                other.bytes@.len() == 32,
                forall|j: int| 0 <= j < i ==> self.bytes@[j] == other.bytes@[j],
            decreases 32 - i,
        {
            if self.bytes[i] != other.bytes[i] {
                return false;
            }
            i = i + 1;
        }
        assert(self.bytes@ =~= other.bytes@);
        true
    }
}

/// One externally supplied account, as the engine sees it.
#[derive(Debug)]
pub struct AccountInfo {
    pub key: Pubkey,
    pub owner: Pubkey,
    pub is_signer: bool,
    pub is_writable: bool,
    pub lamports: u64,
    pub data: Vec<u8>,
}

/// Transaction metadata for one account: its address and its flags.
#[derive(Debug, Clone, Copy)]
pub struct AccountMeta {
    pub pubkey: Pubkey,
    pub is_signer: bool,
    pub is_writable: bool,
}

impl AccountMeta {
    /// Metadata for a writable account.
    pub fn new(pubkey: Pubkey, is_signer: bool) -> (r: AccountMeta)
        ensures
            r == (AccountMeta { pubkey, is_signer, is_writable: true }),
    {
        AccountMeta { pubkey, is_signer, is_writable: true }
    }

    /// Metadata for a read-only account.
    pub fn new_readonly(pubkey: Pubkey, is_signer: bool) -> (r: AccountMeta)
        ensures
            r == (AccountMeta { pubkey, is_signer, is_writable: false }),
    {
        AccountMeta { pubkey, is_signer, is_writable: false }
    }
}

/// The metadata entry for handle `h`: its own signer flag unless `is_signer`
/// overrides it, and its writable flag.
pub open spec fn meta_of(h: AccountInfo, is_signer: Option<bool>) -> AccountMeta {
    AccountMeta {
        pubkey: h.key,
        is_signer: match is_signer {
            Some(s) => s,
            None => h.is_signer,
        },
        is_writable: h.is_writable,
    }
}

/// The metadata entry for `info`, as `meta_of` states it.
pub fn meta_for(info: &AccountInfo, is_signer: Option<bool>) -> (r: AccountMeta)
    ensures
        r == meta_of(*info, is_signer),
{
    let signer = match is_signer {
        Some(s) => s,
        None => info.is_signer,
    };
    if info.is_writable {
        AccountMeta::new(info.key, signer)
    } else {
        AccountMeta::new_readonly(info.key, signer)
    }
}

} // verus!
