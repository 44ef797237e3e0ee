//! The verified core of a small quantized feed-forward language model kept in
//! ledger accounts: the registry of a model's shape, the parameter blobs with
//! their addressing and decoding, the chat session, and greedy decoding.
//!
//! The model computes in IEEE 754 single precision. This crate handles such
//! numbers by their bit patterns: it decodes stored parameters, rectifies, and
//! compares probabilities, all of which is exact. The arithmetic that rounds
//! (sums of products, normalization, exponentials) is done by the caller, who
//! hands in the probabilities that it arrives at.
//!
//! What is verified here is everything around that arithmetic: who may change
//! what, which cells of which blob a forward pass reads and whether they exist,
//! what number a stored parameter stands for, what a chat records, and which
//! response follows from the probabilities of the token ids.

pub mod account;
pub mod chat;
pub mod chunk;
pub mod codec;
pub mod decoder;
pub mod error;
pub mod layout;
pub mod pubkey;
pub mod registry;
pub mod sea_nn;

pub use crate::account::{close_given_account, close_given_account_handler, CloseGivenAccount};
pub use crate::chat::{
    chat_handler, initialize_chat_handler, Chat, ChatState, InitializeChat, MAX_SEQ_LEN,
};
pub use crate::chunk::{upload_chunk_handler, ModelChunk, UploadChunk};
pub use crate::decoder::VOCAB_SIZE;
pub use crate::error::ProgramError;
pub use crate::pubkey::Pubkey;
pub use crate::registry::{initialize_model_handler, InitializeModel, ModelRegistry};
