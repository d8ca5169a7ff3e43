//! The stored form of a token account, as far as the escrow reads it.

use vstd::prelude::*;
use anchor_lang::solana_program::program_error::ProgramError;
use anchor_lang::solana_program::program_pack::Pack;
use anchor_spl::token::spl_token::state::Account;
use crate::state::Pubkey;

verus! {

/// The error of the token program's account decoder. Nothing is read of it.
#[verifier::external_type_specification]
#[verifier::external_body]
pub struct ExProgramError(ProgramError);

/// What the escrow reads of a token account: the asset it holds and who
/// controls it.
#[derive(Clone, Copy, Debug, PartialEq, Eq)]
pub struct TokenAccount {
    pub mint: Pubkey,
    pub owner: Pubkey,
}

/// Whether the four bytes at `at` are the tag of an optional field: 0 or 1 as
/// a little-endian 32-bit number.
pub open spec fn option_tag_valid(data: Seq<u8>, at: int) -> bool {
    (data[at] == 0 || data[at] == 1) && data[at + 1] == 0 && data[at + 2] == 0 && data[at + 3]
        == 0
}

/// Whether `data` is the stored form of an initialized token account: 165
/// bytes, the tags of the three optional fields valid, and the state byte
/// "initialized" or "frozen".
pub open spec fn is_token_account(data: Seq<u8>) -> bool {
    &&& data.len() == 165
    &&& option_tag_valid(data, 72)
    &&& (data[108] == 1 || data[108] == 2)
    &&& option_tag_valid(data, 109)
    &&& option_tag_valid(data, 129)
}

/// The bytes of a stored token account that name its asset.
pub open spec fn packed_mint(data: Seq<u8>) -> Seq<u8> {
    data.subrange(0, 32)
}

/// The bytes of a stored token account that name its owner.
pub open spec fn packed_owner(data: Seq<u8>) -> Seq<u8> {
    data.subrange(32, 64)
}

/// Decodes a stored token account by calling `Account::unpack` of
/// `spl_token::state` (the `unpack` of the `Pack` trait).
///
/// Not proved but taken from that crate's source: the decoder accepts exactly
/// the data that [`is_token_account`] describes, and the mint and the owner it
/// hands back are the first and the second 32 bytes of the data.
#[verifier::external_body]
pub(crate) fn unpack_token_account(data: &[u8]) -> (r: Result<TokenAccount, ProgramError>)
    ensures
        r is Ok <==> is_token_account(data@),
        r matches Ok(account) ==> account.mint@ == packed_mint(data@) && account.owner@
            == packed_owner(data@),
{
    match Account::unpack(data) {
        Ok(account) => Ok(
            TokenAccount {
                mint: Pubkey { bytes: account.mint.to_bytes() },
                owner: Pubkey { bytes: account.owner.to_bytes() },
            },
        ),
        Err(e) => Err(e),
    }
}

} // verus!
