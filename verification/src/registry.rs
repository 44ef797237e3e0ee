//! The registry of a model: its shape and its authority.

use vstd::prelude::*;
use crate::chunk::ModelChunk;
use crate::error::ProgramError;
use crate::pubkey::Pubkey;

verus! {

/// The shape of one model and the identity that may upload its parameters.
#[derive(Clone, Copy, Debug, PartialEq, Eq)]
pub struct ModelRegistry {
    pub authority: Pubkey,
    /// One more than the highest chunk index uploaded so far. Informational:
    /// no read is bounded by it.
    pub chunk_count: u32,
    pub vocab_size: u32,
    pub embedding_dim: u32,
    pub hidden_dim: u32,
    pub context_length: u32,
    pub layer_count: u32,
}

/// A registry as a mathematical record.
pub struct ModelRegistryView {
    pub authority: Seq<u8>,
    pub chunk_count: nat,
    pub vocab_size: nat,
    pub embedding_dim: nat,
    pub hidden_dim: nat,
    pub context_length: nat,
    pub layer_count: nat,
}

impl View for ModelRegistry {
    type V = ModelRegistryView;

    open spec fn view(&self) -> ModelRegistryView {
        ModelRegistryView {
            authority: self.authority@,
            chunk_count: self.chunk_count as nat,
            vocab_size: self.vocab_size as nat,
            embedding_dim: self.embedding_dim as nat,
            hidden_dim: self.hidden_dim as nat,
            context_length: self.context_length as nat,
            layer_count: self.layer_count as nat,
        }
    }
}

impl ModelRegistryView {
    /// The registry that `authority` gets on creating a model of the given shape:
    /// nothing uploaded yet.
    pub open spec fn created(
        authority: Seq<u8>,
        vocab_size: nat,
        embedding_dim: nat,
        hidden_dim: nat,
        context_length: nat,
        layer_count: nat,
    ) -> ModelRegistryView {
        ModelRegistryView {
            authority,
            chunk_count: 0,
            vocab_size,
            embedding_dim,
            hidden_dim,
            context_length,
            layer_count,
        }
    }
}

/// The accounts of a model creation: who signs, the registry to fill in, and the
/// five parameter blobs that the host allocates along with it.
#[derive(Clone, Debug, PartialEq, Eq)]
pub struct InitializeModel {
    pub signer: Pubkey,
    pub registry: ModelRegistry,
    pub embedding_chunk: ModelChunk,
    pub hidden_chunk: ModelChunk,
    pub ln_gamma: ModelChunk,
    pub ln_beta: ModelChunk,
    pub output_chunk: ModelChunk,
}

/// Records the signer as the model's authority together with the declared shape,
/// and starts the chunk count at zero. The parameter blobs are left as the host
/// allocated them.
pub fn initialize_model_handler(
    ctx: &mut InitializeModel,
    vocab_size: u32,
    embedding_dim: u32,
    hidden_dim: u32,
    context_length: u32,
    layer_count: u32,
) -> (r: Result<(), ProgramError>)
    ensures
        r is Ok,
        final(ctx).registry@ == ModelRegistryView::created(
            old(ctx).signer@,
            vocab_size as nat,
            embedding_dim as nat,
            hidden_dim as nat,
            context_length as nat,
            layer_count as nat,
        ),
        final(ctx).signer == old(ctx).signer,
        final(ctx).embedding_chunk == old(ctx).embedding_chunk,
        final(ctx).hidden_chunk == old(ctx).hidden_chunk,
        final(ctx).ln_gamma == old(ctx).ln_gamma,
        final(ctx).ln_beta == old(ctx).ln_beta,
        final(ctx).output_chunk == old(ctx).output_chunk,
{
    ctx.registry.authority = ctx.signer;
    ctx.registry.chunk_count = 0;
    ctx.registry.vocab_size = vocab_size;
    ctx.registry.embedding_dim = embedding_dim;
    ctx.registry.hidden_dim = hidden_dim;
    ctx.registry.context_length = context_length;
    ctx.registry.layer_count = layer_count;
    Ok(())
}

} // verus!
