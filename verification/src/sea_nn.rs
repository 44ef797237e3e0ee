//! The operations that the ledger program offers, one function each.

use vstd::prelude::*;
use crate::account::{close_given_account_handler, CloseGivenAccount};
use crate::chat::{
    chat_handler, initialize_chat_handler, Chat, ChatStateView, InitializeChat, MAX_SEQ_LEN,
};
use crate::chunk::{upload_chunk_handler, UploadChunk};
use crate::decoder::greedy_response;
use crate::error::ProgramError;
use crate::registry::{initialize_model_handler, InitializeModel, ModelRegistryView};

verus! {

/// Creates a model: the signer becomes its authority, the shape is recorded, and
/// no chunk counts as uploaded.
pub fn initialize_model(
    ctx: &mut InitializeModel,
    vocab_size: u32,
    embedding_dim: u32,
    hidden_dim: u32,
    context_length: u32,
    layer_count: u32,
) -> (r: Result<(), ProgramError>)
    ensures
        r is Ok,
        final(ctx).registry@ == ModelRegistryView::created(
            old(ctx).signer@,
            vocab_size as nat,
            embedding_dim as nat,
            hidden_dim as nat,
            context_length as nat,
            layer_count as nat,
        ),
        final(ctx).signer == old(ctx).signer,
        final(ctx).embedding_chunk == old(ctx).embedding_chunk,
        final(ctx).hidden_chunk == old(ctx).hidden_chunk,
        final(ctx).ln_gamma == old(ctx).ln_gamma,
        final(ctx).ln_beta == old(ctx).ln_beta,
        final(ctx).output_chunk == old(ctx).output_chunk,
{
    initialize_model_handler(
        ctx,
        vocab_size,
        embedding_dim,
        hidden_dim,
        context_length,
        layer_count,
    )
}

/// Stores `data` as chunk `chunk_index` of kind `chunk_type`, for the
/// registry's authority only.
pub fn upload_chunk(ctx: &mut UploadChunk, chunk_index: u32, chunk_type: u8, data: Vec<i32>) -> (r:
    Result<(), ProgramError>)
    requires
        old(ctx)@.authorized() ==> chunk_index < u32::MAX,
    ensures
        r is Ok <==> old(ctx)@.authorized(),
        r is Err ==> r == Err::<(), ProgramError>(ProgramError::E000) && *final(ctx) == *old(ctx),
        final(ctx)@ == old(ctx)@.after_upload(chunk_index as nat, chunk_type as nat, data@),
        final(ctx).registry.chunk_count >= old(ctx).registry.chunk_count,
        r is Ok ==> final(ctx).registry.chunk_count > chunk_index,
{
    upload_chunk_handler(ctx, chunk_index, chunk_type, data)
}

/// Empties the given account into the signer's.
pub fn close_given_account(ctx: &mut CloseGivenAccount) -> (r: Result<(), ProgramError>)
    requires
        old(ctx).wf(),
        old(ctx).total() <= u64::MAX,
    ensures
        r is Ok,
        final(ctx).signer == old(ctx).signer,
        final(ctx).given_account == old(ctx).given_account,
        final(ctx).signer_lamports == old(ctx).total(),
        final(ctx).given_account_lamports == if old(ctx).closes_itself() {
            old(ctx).given_account_lamports
        } else {
            0
        },
        final(ctx).wf(),
        final(ctx).total() == old(ctx).total(),
{
    ctx.transfer_balance();
    close_given_account_handler(ctx)
}

/// Opens the signer's session with a model.
pub fn initialize_chat(ctx: &mut InitializeChat) -> (r: Result<(), ProgramError>)
    ensures
        r is Ok,
        final(ctx).chat@ == ChatStateView::opened(old(ctx).signer@, old(ctx).model@),
        final(ctx).chat@.wf(),
        final(ctx).signer == old(ctx).signer,
        final(ctx).model == old(ctx).model,
{
    initialize_chat_handler(ctx)
}

/// Answers a chat in the signer's session; see `chat_handler`.
pub fn chat(ctx: &mut Chat, input_text: Vec<u8>, input_length: u32, probabilities: &[u32; 256]) -> (r:
    Result<Vec<u8>, ProgramError>)
    ensures
        match r {
            Ok(response) => {
                &&& old(ctx).refusal(input_text@, input_length as nat) is None
                &&& final(ctx).chat_state@ == old(ctx).chat_state@.recorded(
                    input_text@,
                    input_length as nat,
                )
                &&& final(ctx).chat_state@.wf()
                &&& final(ctx).same_model_and_signer(old(ctx))
                &&& response@ == greedy_response(probabilities@)
            },
            Err(e) => {
                &&& old(ctx).refusal(input_text@, input_length as nat) == Some(e)
                &&& *final(ctx) == *old(ctx)
            },
        },
        input_length > MAX_SEQ_LEN ==> r is Err && *final(ctx) == *old(ctx),
        old(ctx).authorized() && input_length > MAX_SEQ_LEN ==> r == Err::<Vec<u8>, ProgramError>(
            ProgramError::E001,
        ),
{
    chat_handler(ctx, input_text, input_length, probabilities)
}

} // verus!
