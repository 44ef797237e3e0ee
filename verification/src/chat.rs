//! Chat sessions, and what a chat request goes through: the checks before
//! anything is changed, the lookups of the forward pass, the record in the
//! session, and the response.

use vstd::prelude::*;
use crate::chunk::ModelChunk;
use crate::decoder::{generate_response, greedy_response, VOCAB_SIZE};
use crate::error::ProgramError;
use crate::codec::is_decoding;
use crate::layout::{
    cell, lemma_row_in_range, lemma_table_in_range, lemma_table_rows_in_range, row_fits,
    row_in_range, table_fits, table_in_range,
};
use crate::pubkey::Pubkey;
use crate::registry::ModelRegistry;

verus! {

/// Capacity of the session buffer, and the longest input that a chat accepts.
pub const MAX_SEQ_LEN: usize = 128;

/// One owner's chat session: a buffer of 128 bytes that holds the input of the
/// latest chat, and that chat's declared length. Each chat replaces both;
/// nothing accumulates, and the buffer never changes its size.
#[derive(Clone, Debug, PartialEq, Eq)]
pub struct ChatState {
    pub authority: Pubkey,
    pub model: Pubkey,
    pub history: Vec<u8>,
    pub history_len: u32,
}

/// A session as a mathematical record.
pub struct ChatStateView {
    pub authority: Seq<u8>,
    pub model: Seq<u8>,
    pub history: Seq<u8>,
    pub history_len: nat,
}

impl View for ChatState {
    type V = ChatStateView;

    open spec fn view(&self) -> ChatStateView {
        ChatStateView {
            authority: self.authority@,
            model: self.model@,
            history: self.history@,
            history_len: self.history_len as nat,
        }
    }
}

impl ChatStateView {
    /// The buffer has its fixed capacity, and the recorded length does not
    /// exceed it.
    pub open spec fn wf(self) -> bool {
        &&& self.history.len() == MAX_SEQ_LEN
        &&& self.history_len <= MAX_SEQ_LEN
    }

    /// The buffer that holds `tokens`: the tokens from its start, as far as it
    /// has room, and zeros behind them.
    pub open spec fn buffer_of(tokens: Seq<u8>) -> Seq<u8> {
        Seq::new(
            MAX_SEQ_LEN as nat,
            |i: int|
                if i < tokens.len() {
                    tokens[i]
                } else {
                    0u8
                },
        )
    }

    /// The session that `authority` gets on opening a chat with `model`: a
    /// zero-filled buffer of full capacity, nothing recorded.
    pub open spec fn opened(authority: Seq<u8>, model: Seq<u8>) -> ChatStateView {
        ChatStateView {
            authority,
            model,
            history: Seq::new(MAX_SEQ_LEN as nat, |i: int| 0u8),
            history_len: 0,
        }
    }

    /// The session after a chat with `input`: the buffer holds the consumed
    /// tokens and nothing of what it held before, and the declared length is
    /// recorded.
    pub open spec fn recorded(self, input: Seq<u8>, input_length: nat) -> ChatStateView {
        ChatStateView {
            history: Self::buffer_of(consumed_tokens(input, input_length)),
            history_len: input_length,
            ..self
        }
    }
}

/// The accounts of a session creation: who signs, the session to fill in, and
/// the address of the model it talks to.
#[derive(Clone, Debug, PartialEq, Eq)]
pub struct InitializeChat {
    pub signer: Pubkey,
    pub chat: ChatState,
    pub model: Pubkey,
}

/// Opens the signer's session with the model: a zero-filled buffer of 128 bytes
/// and a recorded length of zero.
pub fn initialize_chat_handler(ctx: &mut InitializeChat) -> (r: Result<(), ProgramError>)
    ensures
        r is Ok,
        final(ctx).chat@ == ChatStateView::opened(old(ctx).signer@, old(ctx).model@),
        final(ctx).chat@.wf(),
        final(ctx).signer == old(ctx).signer,
        final(ctx).model == old(ctx).model,
{
    ctx.chat.authority = ctx.signer;
    ctx.chat.model = ctx.model;
    ctx.chat.history = vec![0u8; MAX_SEQ_LEN];
    ctx.chat.history_len = 0;
    assert(ctx.chat.history@ =~= Seq::new(MAX_SEQ_LEN as nat, |i: int| 0u8));
    Ok(())
}

/// The accounts of a chat: who signs, the signer's session, and the model with
/// its five parameter blobs.
#[derive(Clone, Debug, PartialEq, Eq)]
pub struct Chat {
    pub signer: Pubkey,
    pub chat_state: ChatState,
    pub model_registry: ModelRegistry,
    pub embedding_chunk: ModelChunk,
    pub hidden_chunk: ModelChunk,
    pub ln_gamma: ModelChunk,
    pub ln_beta: ModelChunk,
    pub output_chunk: ModelChunk,
}

/// The tokens that a chat runs through the model: the first `input_length`
/// bytes of the input, or all of it where it is shorter.
pub open spec fn consumed_tokens(input: Seq<u8>, input_length: nat) -> Seq<u8> {
    if input_length <= input.len() {
        input.take(input_length as int)
    } else {
        input
    }
}

impl Chat {
    /// Only the session's authority may chat in it.
    pub open spec fn authorized(&self) -> bool {
        self.chat_state.authority@ == self.signer@
    }

    /// The embedding of `token` can be looked up: the blob holds the token's row,
    /// and the hidden vector has room for it.
    pub open spec fn embeds(&self, token: u8) -> bool {
        &&& self.model_registry.embedding_dim <= self.model_registry.hidden_dim
        &&& row_in_range(
            token as int,
            self.model_registry.embedding_dim as int,
            self.embedding_chunk@.data.len() as int,
        )
    }

    /// `hidden` is the hidden vector that the embedding lookup of `token` gives:
    /// one cell for each hidden unit, the first `embedding_dim` of them holding
    /// the token's embedding, decoded, and the others zero.
    pub open spec fn is_embedding(&self, token: u8, hidden: Seq<u32>) -> bool {
        let embedding_dim = self.model_registry.embedding_dim as int;
        &&& hidden.len() == self.model_registry.hidden_dim
        &&& forall|i: int|
            0 <= i < embedding_dim ==> is_decoding(
                self.embedding_chunk@.data[cell(token as int, embedding_dim, i)] as int,
                #[trigger] hidden[i],
            )
        &&& forall|i: int| embedding_dim <= i < hidden.len() ==> hidden[i] == 0
    }

    /// Every cell that the forward pass over `tokens` reads or writes exists.
    ///
    /// For each token, the pass reads the token's row of the embedding table
    /// (`embedding_dim` cells) into the hidden vector (`hidden_dim` cells), then
    /// the whole hidden-weight table (`hidden_dim` rows and columns) and the first
    /// `hidden_dim` cells of the normalization scale and shift. After the last
    /// token it reads one row of `hidden_dim` output weights for each of the 256
    /// token ids; with no token at all, that is all it reads, and the hidden
    /// vector is zero. The bounds are the lengths of the blobs as stored,
    /// whatever shape the registry declares.
    pub open spec fn reads_in_range(&self, tokens: Seq<u8>) -> bool {
        let embedding_dim = self.model_registry.embedding_dim as int;
        let hidden_dim = self.model_registry.hidden_dim as int;
        &&& forall|k: int|
            0 <= k < tokens.len() ==> row_in_range(
                (#[trigger] tokens[k]) as int,
                embedding_dim,
                self.embedding_chunk@.data.len() as int,
            )
        &&& tokens.len() > 0 ==> {
            &&& embedding_dim <= hidden_dim
            &&& table_in_range(hidden_dim, hidden_dim, self.hidden_chunk@.data.len() as int)
            &&& hidden_dim <= self.ln_gamma@.data.len()
            &&& hidden_dim <= self.ln_beta@.data.len()
        }
        &&& table_in_range(VOCAB_SIZE as int, hidden_dim, self.output_chunk@.data.len() as int)
    }

    /// The blobs have exactly the lengths that the registry's shape calls for:
    /// one embedding row and one output row for each of the 256 token ids, a
    /// square table of hidden weights, and one normalization scale and shift for
    /// each hidden unit.
    pub open spec fn well_shaped(&self) -> bool {
        let embedding_dim = self.model_registry.embedding_dim as int;
        let hidden_dim = self.model_registry.hidden_dim as int;
        &&& self.model_registry.vocab_size == VOCAB_SIZE
        &&& self.embedding_chunk@.data.len() == VOCAB_SIZE * embedding_dim
        &&& self.hidden_chunk@.data.len() == hidden_dim * hidden_dim
        &&& self.ln_gamma@.data.len() == hidden_dim
        &&& self.ln_beta@.data.len() == hidden_dim
        &&& self.output_chunk@.data.len() == VOCAB_SIZE * hidden_dim
    }

    /// Why a chat with this input is refused, if it is: first for a signer who is
    /// not the session's authority, then for a declared length over the buffer's
    /// capacity, then for a read outside what the blobs hold.
    pub open spec fn refusal(&self, input: Seq<u8>, input_length: nat) -> Option<ProgramError> {
        if !self.authorized() {
            Some(ProgramError::E000)
        } else if input_length > MAX_SEQ_LEN {
            Some(ProgramError::E001)
        } else if !self.reads_in_range(consumed_tokens(input, input_length)) {
            Some(ProgramError::IndexOutOfRange)
        } else {
            None
        }
    }

    /// Everything but the session is the same in `self` and `other`.
    pub open spec fn same_model_and_signer(&self, other: &Chat) -> bool {
        &&& self.signer == other.signer
        &&& self.model_registry == other.model_registry
        &&& self.embedding_chunk == other.embedding_chunk
        &&& self.hidden_chunk == other.hidden_chunk
        &&& self.ln_gamma == other.ln_gamma
        &&& self.ln_beta == other.ln_beta
        &&& self.output_chunk == other.output_chunk
    }

    /// Embedding lookup, the first step of the forward pass for one token: the
    /// hidden vector before the hidden layer, as bit patterns.
    pub fn embed(&self, token: u8) -> (r: Result<Vec<u32>, ProgramError>)
        ensures
            match r {
                Ok(hidden) => self.embeds(token) && self.is_embedding(token, hidden@),
                Err(e) => e == ProgramError::IndexOutOfRange && !self.embeds(token),
            },
    {
        let embedding_dim = self.model_registry.embedding_dim;
        let hidden_dim = self.model_registry.hidden_dim;
        if embedding_dim > hidden_dim {
            return Err(ProgramError::IndexOutOfRange);
        }
        match self.embedding_chunk.decoded_row(token as u32, embedding_dim) {
            Err(e) => Err(e),
            Ok(row) => {
                let mut hidden = row;
                let mut i: u32 = embedding_dim;
                while i < hidden_dim
                    invariant
                        embedding_dim <= i <= hidden_dim,
                        hidden@.len() == i,
                        forall|k: int| 0 <= k < embedding_dim ==> hidden@[k] == row@[k],
                        forall|k: int| embedding_dim <= k < i ==> hidden@[k] == 0,
                    decreases hidden_dim - i,
                {
                    hidden.push(0);
                    i += 1;
                }
                Ok(hidden)
            },
        }
    }

    /// Whether the forward pass over the first `count` bytes of `input` stays
    /// inside the blobs and the hidden vector.
    fn reads_fit(&self, input: &Vec<u8>, count: usize) -> (ok: bool)
        requires
            count <= input@.len(),
        ensures
            ok == self.reads_in_range(input@.take(count as int)),
    {
        let embedding_dim = self.model_registry.embedding_dim;
        let hidden_dim = self.model_registry.hidden_dim;
        let ghost tokens = input@.take(count as int);
        if !table_fits(VOCAB_SIZE as u32, hidden_dim, self.output_chunk.data.len()) {
            return false;
        }
        if count == 0 {
            return true;
        }
        if embedding_dim > hidden_dim
            || !table_fits(hidden_dim, hidden_dim, self.hidden_chunk.data.len())
            || hidden_dim as usize > self.ln_gamma.data.len()
            || hidden_dim as usize > self.ln_beta.data.len() {
            return false;
        }
        let mut k: usize = 0;
        while k < count
            invariant
                k <= count <= input@.len(),
                tokens == input@.take(count as int),
                embedding_dim == self.model_registry.embedding_dim,
                forall|j: int|
                    0 <= j < k ==> row_in_range(
                        (#[trigger] tokens[j]) as int,
                        embedding_dim as int,
                        self.embedding_chunk@.data.len() as int,
                    ),
            decreases count - k,
        {
            if !row_fits(input[k] as u32, embedding_dim, self.embedding_chunk.data.len()) {
                assert(tokens[k as int] == input@[k as int]);
                return false;
            }
            assert(tokens[k as int] == input@[k as int]);
            k += 1;
        }
        true
    }

    /// Decides whether a chat with this input goes ahead, changing nothing. On
    /// success, tells how many leading bytes of the input the model consumes.
    pub fn validate(&self, input_text: &Vec<u8>, input_length: u32) -> (r: Result<usize, ProgramError>)
        ensures
            match r {
                Ok(count) => {
                    &&& self.refusal(input_text@, input_length as nat) is None
                    &&& count <= input_text@.len()
                    &&& input_text@.take(count as int) == consumed_tokens(
                        input_text@,
                        input_length as nat,
                    )
                },
                Err(e) => self.refusal(input_text@, input_length as nat) == Some(e),
            },
    {
        if !(self.chat_state.authority == self.signer) {
            return Err(ProgramError::E000);
        }
        if input_length as usize > MAX_SEQ_LEN {
            return Err(ProgramError::E001);
        }
        let count: usize = if input_length as usize <= input_text.len() {
            input_length as usize
        } else {
            input_text.len()
        };
        assert(input_text@.take(count as int) =~= consumed_tokens(input_text@, input_length as nat));
        if !self.reads_fit(input_text, count) {
            return Err(ProgramError::IndexOutOfRange);
        }
        Ok(count)
    }
}

/// Once a chat is validated, every lookup of the forward pass finds what it
/// looks for: the embedding of each token, and, if there is a token at all,
/// each row of hidden weights and the normalization scale and shift; and in
/// any case the output weights of each token id.
pub proof fn lemma_validated_lookups_succeed(chat: Chat, tokens: Seq<u8>)
    requires
        chat.reads_in_range(tokens),
    ensures
        forall|k: int| 0 <= k < tokens.len() ==> chat.embeds(#[trigger] tokens[k]),
        tokens.len() > 0 ==> forall|unit: int|
            0 <= unit < chat.model_registry.hidden_dim ==> #[trigger] row_in_range(
                unit,
                chat.model_registry.hidden_dim as int,
                chat.hidden_chunk@.data.len() as int,
            ),
        tokens.len() > 0 ==> row_in_range(
            0,
            chat.model_registry.hidden_dim as int,
            chat.ln_gamma@.data.len() as int,
        ),
        tokens.len() > 0 ==> row_in_range(
            0,
            chat.model_registry.hidden_dim as int,
            chat.ln_beta@.data.len() as int,
        ),
        forall|token: int|
            0 <= token < VOCAB_SIZE ==> #[trigger] row_in_range(
                token,
                chat.model_registry.hidden_dim as int,
                chat.output_chunk@.data.len() as int,
            ),
{
    let hidden_dim = chat.model_registry.hidden_dim as int;
    if tokens.len() > 0 {
        assert forall|unit: int| 0 <= unit < hidden_dim implies #[trigger] row_in_range(
            unit,
            hidden_dim,
            chat.hidden_chunk@.data.len() as int,
        ) by {
            lemma_table_rows_in_range(
                hidden_dim,
                hidden_dim,
                chat.hidden_chunk@.data.len() as int,
                unit,
            );
        }
        lemma_row_in_range(0, hidden_dim, chat.ln_gamma@.data.len() as int);
        lemma_row_in_range(0, hidden_dim, chat.ln_beta@.data.len() as int);
    }
    assert forall|token: int| 0 <= token < VOCAB_SIZE implies #[trigger] row_in_range(
        token,
        hidden_dim,
        chat.output_chunk@.data.len() as int,
    ) by {
        lemma_table_rows_in_range(
            VOCAB_SIZE as int,
            hidden_dim,
            chat.output_chunk@.data.len() as int,
            token,
        );
    }
}

/// A model whose blobs have the declared shape, with an embedding no wider than
/// the hidden vector, serves every input: no read of the forward pass falls
/// outside a blob, whatever the tokens.
pub proof fn lemma_well_shaped_reads_in_range(chat: Chat, tokens: Seq<u8>)
    requires
        chat.well_shaped(),
        chat.model_registry.embedding_dim <= chat.model_registry.hidden_dim,
    ensures
        chat.reads_in_range(tokens),
{
    let embedding_dim = chat.model_registry.embedding_dim as int;
    let hidden_dim = chat.model_registry.hidden_dim as int;
    lemma_table_in_range(hidden_dim, hidden_dim, hidden_dim * hidden_dim);
    lemma_table_in_range(VOCAB_SIZE as int, hidden_dim, VOCAB_SIZE * hidden_dim);
    lemma_table_in_range(VOCAB_SIZE as int, embedding_dim, VOCAB_SIZE * embedding_dim);
    assert forall|k: int| 0 <= k < tokens.len() implies row_in_range(
        (#[trigger] tokens[k]) as int,
        embedding_dim,
        chat.embedding_chunk@.data.len() as int,
    ) by {
        lemma_table_rows_in_range(
            VOCAB_SIZE as int,
            embedding_dim,
            VOCAB_SIZE * embedding_dim,
            tokens[k] as int,
        );
    }
}

/// The buffer that holds the tokens of a chat has full capacity whatever the
/// tokens; where they fit, it starts with them, and it is zero behind them.
pub proof fn lemma_buffer_holds_tokens(tokens: Seq<u8>)
    ensures
        ChatStateView::buffer_of(tokens).len() == MAX_SEQ_LEN,
        tokens.len() <= MAX_SEQ_LEN ==> ChatStateView::buffer_of(tokens).take(tokens.len() as int)
            == tokens,
        forall|i: int|
            tokens.len() <= i < MAX_SEQ_LEN ==> #[trigger] ChatStateView::buffer_of(tokens)[i] == 0,
{
    if tokens.len() <= MAX_SEQ_LEN {
        assert(ChatStateView::buffer_of(tokens).take(tokens.len() as int) =~= tokens);
    }
}

/// A fresh session buffer that holds the first `count` bytes of `input`.
fn session_buffer(input: &Vec<u8>, count: usize) -> (buffer: Vec<u8>)
    requires
        count <= input@.len(),
    ensures
        buffer@ == ChatStateView::buffer_of(input@.take(count as int)),
{
    let ghost tokens = input@.take(count as int);
    let mut buffer: Vec<u8> = Vec::new();
    let mut i: usize = 0;
    while i < MAX_SEQ_LEN
        invariant
            i <= MAX_SEQ_LEN,
            count <= input@.len(),
            tokens == input@.take(count as int),
            buffer@.len() == i,
            forall|k: int|
                0 <= k < i ==> buffer@[k] == if k < tokens.len() {
                    tokens[k]
                } else {
                    0u8
                },
        decreases MAX_SEQ_LEN - i,
    {
        let byte: u8 = if i < count {
            input[i]
        } else {
            0
        };
        buffer.push(byte);
        i += 1;
    }
    assert(buffer@ =~= ChatStateView::buffer_of(tokens));
    buffer
}

/// Answers a chat. Entry `i` of `probabilities` is the probability that the
/// model gives token `i` after the consumed tokens, as the bit pattern of a
/// single-precision number.
///
/// A refused chat changes nothing. An accepted one fills the session's buffer
/// anew with the consumed tokens, zeros behind them, records the declared
/// length, and returns the greedy response for `probabilities`.
pub fn chat_handler(
    ctx: &mut Chat,
    input_text: Vec<u8>,
    input_length: u32,
    probabilities: &[u32; 256],
) -> (r: Result<Vec<u8>, ProgramError>)
    ensures
        match r {
            Ok(response) => {
                &&& old(ctx).refusal(input_text@, input_length as nat) is None
                &&& final(ctx).chat_state@ == old(ctx).chat_state@.recorded(
                    input_text@,
                    input_length as nat,
                )
                &&& final(ctx).chat_state@.wf()
                &&& final(ctx).same_model_and_signer(old(ctx))
                &&& response@ == greedy_response(probabilities@)
            },
            Err(e) => {
                &&& old(ctx).refusal(input_text@, input_length as nat) == Some(e)
                &&& *final(ctx) == *old(ctx)
            },
        },
        input_length > MAX_SEQ_LEN ==> r is Err && *final(ctx) == *old(ctx),
        old(ctx).authorized() && input_length > MAX_SEQ_LEN ==> r == Err::<Vec<u8>, ProgramError>(
            ProgramError::E001,
        ),
{
    match ctx.validate(&input_text, input_length) {
        Err(e) => Err(e),
        Ok(count) => {
            ctx.chat_state.history = session_buffer(&input_text, count);
            ctx.chat_state.history_len = input_length;
            Ok(generate_response(probabilities))
        },
    }
}

} // verus!
