use sea_nn::sea_nn::{chat, initialize_chat};
use sea_nn::{
    chat_handler, initialize_chat_handler, Chat, ChatState, InitializeChat, ModelChunk,
    ModelRegistry, ProgramError, Pubkey, MAX_SEQ_LEN,
};

fn key(fill: u8) -> Pubkey {
    Pubkey::new_from_array([fill; 32])
}

/// The session buffer that holds `tokens`: 128 bytes, zeros behind the tokens.
fn buffer(tokens: &[u8]) -> Vec<u8> {
    let mut bytes = tokens.to_vec();
    bytes.resize(128, 0);
    bytes
}

fn chunk_of(chunk_type: u8, data: Vec<i32>) -> ModelChunk {
    ModelChunk { authority: key(1), registry: key(9), chunk_index: 0, chunk_type, data }
}

/// A model of the declared shape with all parameters zero, and the session of
/// owner 5 holding an earlier input.
fn accounts(embedding_dim: u32, hidden_dim: u32) -> Chat {
    let e = embedding_dim as usize;
    let h = hidden_dim as usize;
    Chat {
        signer: key(5),
        chat_state: ChatState {
            authority: key(5),
            model: key(9),
            history: buffer(&[104, 105]),
            history_len: 2,
        },
        model_registry: ModelRegistry {
            authority: key(1),
            chunk_count: 3,
            vocab_size: 256,
            embedding_dim,
            hidden_dim,
            context_length: 128,
            layer_count: 1,
        },
        embedding_chunk: chunk_of(0, vec![0; 256 * e]),
        hidden_chunk: chunk_of(1, vec![0; h * h]),
        ln_gamma: chunk_of(1, vec![0; h]),
        ln_beta: chunk_of(1, vec![0; h]),
        output_chunk: chunk_of(2, vec![0; 256 * h]),
    }
}

/// Probabilities, by their bit patterns, under which `token` is the most
/// probable.
fn scores_peaking_at(token: usize) -> [u32; 256] {
    let mut scores = [0.003f32.to_bits(); 256];
    scores[token] = 0.235f32.to_bits();
    scores
}

#[test]
fn session_opens_zero_filled() {
    let mut ctx = InitializeChat {
        signer: key(5),
        chat: ChatState { authority: key(0), model: key(0), history: vec![1, 2, 3], history_len: 3 },
        model: key(9),
    };
    assert_eq!(initialize_chat_handler(&mut ctx), Ok(()));
    assert_eq!(
        ctx.chat,
        ChatState { authority: key(5), model: key(9), history: vec![0u8; 128], history_len: 0 }
    );
    assert_eq!(ctx.chat.history.len(), MAX_SEQ_LEN);
    assert_eq!(ctx.signer, key(5));
    assert_eq!(ctx.model, key(9));
}

#[test]
fn program_entry_opens_the_same_session() {
    let blank = InitializeChat {
        signer: key(5),
        chat: ChatState { authority: key(0), model: key(0), history: Vec::new(), history_len: 0 },
        model: key(9),
    };
    let mut by_handler = blank.clone();
    let mut by_entry = blank.clone();
    assert_eq!(initialize_chat_handler(&mut by_handler), Ok(()));
    assert_eq!(initialize_chat(&mut by_entry), Ok(()));
    assert_eq!(by_handler, by_entry);
}

#[test]
fn chat_records_the_input_and_answers() {
    let mut ctx = accounts(2, 2);
    let before = ctx.clone();
    let response = chat_handler(&mut ctx, vec![72, 105, 33], 3, &scores_peaking_at(65));
    assert_eq!(response, Ok(vec![65u8; 32]));
    assert_eq!(ctx.chat_state.history, buffer(&[72, 105, 33]));
    assert_eq!(ctx.chat_state.history.len(), MAX_SEQ_LEN);
    assert_eq!(ctx.chat_state.history_len, 3);
    assert_eq!(ctx.chat_state.authority, before.chat_state.authority);
    assert_eq!(ctx.chat_state.model, before.chat_state.model);
    assert_eq!(ctx.signer, before.signer);
    assert_eq!(ctx.model_registry, before.model_registry);
    assert_eq!(ctx.embedding_chunk, before.embedding_chunk);
    assert_eq!(ctx.hidden_chunk, before.hidden_chunk);
    assert_eq!(ctx.ln_gamma, before.ln_gamma);
    assert_eq!(ctx.ln_beta, before.ln_beta);
    assert_eq!(ctx.output_chunk, before.output_chunk);
}

#[test]
fn chat_overwrites_rather_than_appends() {
    let mut ctx = accounts(2, 2);
    assert_eq!(chat_handler(&mut ctx, vec![1, 2, 3, 4], 4, &scores_peaking_at(0)), Ok(vec![0]));
    assert_eq!(chat_handler(&mut ctx, vec![9], 1, &scores_peaking_at(0)), Ok(vec![0]));
    // nothing of the earlier, longer input is left behind the new one
    assert_eq!(ctx.chat_state.history, buffer(&[9]));
    assert_eq!(ctx.chat_state.history_len, 1);
}

#[test]
fn chat_by_a_stranger_is_refused_and_changes_nothing() {
    let mut ctx = accounts(2, 2);
    ctx.signer = key(6);
    let before = ctx.clone();
    assert_eq!(
        chat_handler(&mut ctx, vec![1, 2, 3], 3, &scores_peaking_at(65)),
        Err(ProgramError::E000)
    );
    assert_eq!(ctx, before);
}

#[test]
fn chat_with_input_length_over_128_is_refused_and_changes_nothing() {
    let mut ctx = accounts(2, 2);
    let before = ctx.clone();
    assert_eq!(
        chat_handler(&mut ctx, vec![7; 129], 129, &scores_peaking_at(65)),
        Err(ProgramError::E001)
    );
    assert_eq!(ctx, before);
    assert_eq!(
        chat_handler(&mut ctx, vec![7; 3], u32::MAX, &scores_peaking_at(65)),
        Err(ProgramError::E001)
    );
    assert_eq!(ctx, before);
}

#[test]
fn chat_with_input_length_of_exactly_128_is_accepted() {
    let mut ctx = accounts(2, 2);
    let input = vec![7u8; 128];
    assert_eq!(chat_handler(&mut ctx, input.clone(), 128, &scores_peaking_at(66)), Ok(vec![66u8; 32]));
    assert_eq!(ctx.chat_state.history, input);
    assert_eq!(ctx.chat_state.history_len, 128);
}

#[test]
fn stranger_is_refused_before_the_length_is_looked_at() {
    let mut ctx = accounts(2, 2);
    ctx.signer = key(6);
    assert_eq!(
        chat_handler(&mut ctx, vec![7; 200], 200, &scores_peaking_at(65)),
        Err(ProgramError::E000)
    );
}

#[test]
fn length_is_refused_before_the_blobs_are_looked_at() {
    let mut ctx = accounts(2, 2);
    ctx.output_chunk.data.clear();
    assert_eq!(
        chat_handler(&mut ctx, vec![7; 200], 200, &scores_peaking_at(65)),
        Err(ProgramError::E001)
    );
}

#[test]
fn chat_on_a_short_embedding_blob_is_out_of_range() {
    let mut ctx = accounts(2, 2);
    // rows 0..=199 only: token 200 has no row
    ctx.embedding_chunk.data.truncate(400);
    let before = ctx.clone();
    assert_eq!(
        chat_handler(&mut ctx, vec![3, 200, 4], 3, &scores_peaking_at(65)),
        Err(ProgramError::IndexOutOfRange)
    );
    assert_eq!(ctx, before);
    // tokens below 200 are served
    assert_eq!(chat_handler(&mut ctx, vec![3, 199, 4], 3, &scores_peaking_at(65)), Ok(vec![65u8; 32]));
}

#[test]
fn chat_on_an_embedding_row_cut_in_half_is_out_of_range() {
    let mut ctx = accounts(2, 2);
    ctx.embedding_chunk.data.truncate(401);
    assert_eq!(
        chat_handler(&mut ctx, vec![200], 1, &scores_peaking_at(65)),
        Err(ProgramError::IndexOutOfRange)
    );
}

#[test]
fn token_beyond_the_declared_length_is_not_read() {
    let mut ctx = accounts(2, 2);
    ctx.embedding_chunk.data.truncate(400);
    // token 200 stands after the first two bytes, which are all that is consumed
    assert_eq!(chat_handler(&mut ctx, vec![3, 4, 200], 2, &scores_peaking_at(65)), Ok(vec![65u8; 32]));
    assert_eq!(ctx.chat_state.history, buffer(&[3, 4]));
    assert_eq!(ctx.chat_state.history_len, 2);
}

#[test]
fn declared_length_beyond_the_input_consumes_the_whole_input() {
    let mut ctx = accounts(2, 2);
    ctx.embedding_chunk.data.truncate(400);
    assert_eq!(chat_handler(&mut ctx, vec![3, 4], 100, &scores_peaking_at(65)), Ok(vec![65u8; 32]));
    assert_eq!(ctx.chat_state.history, buffer(&[3, 4]));
    assert_eq!(ctx.chat_state.history_len, 100);
    assert_eq!(
        chat_handler(&mut ctx, vec![3, 250], 100, &scores_peaking_at(65)),
        Err(ProgramError::IndexOutOfRange)
    );
}

#[test]
fn chat_on_a_short_hidden_blob_is_out_of_range() {
    let mut ctx = accounts(3, 3);
    ctx.hidden_chunk.data.truncate(8);
    let before = ctx.clone();
    assert_eq!(
        chat_handler(&mut ctx, vec![1], 1, &scores_peaking_at(65)),
        Err(ProgramError::IndexOutOfRange)
    );
    assert_eq!(ctx, before);
}

#[test]
fn chat_on_a_short_scale_or_shift_blob_is_out_of_range() {
    let mut ctx = accounts(3, 3);
    ctx.ln_gamma.data.truncate(2);
    assert_eq!(
        chat_handler(&mut ctx, vec![1], 1, &scores_peaking_at(65)),
        Err(ProgramError::IndexOutOfRange)
    );
    let mut ctx = accounts(3, 3);
    ctx.ln_beta.data.truncate(2);
    assert_eq!(
        chat_handler(&mut ctx, vec![1], 1, &scores_peaking_at(65)),
        Err(ProgramError::IndexOutOfRange)
    );
}

#[test]
fn chat_on_a_short_output_blob_is_out_of_range() {
    let mut ctx = accounts(3, 3);
    ctx.output_chunk.data.truncate(256 * 3 - 1);
    let before = ctx.clone();
    assert_eq!(
        chat_handler(&mut ctx, vec![1], 1, &scores_peaking_at(65)),
        Err(ProgramError::IndexOutOfRange)
    );
    assert_eq!(ctx, before);
}

#[test]
fn embedding_wider_than_the_hidden_vector_is_out_of_range() {
    let mut ctx = accounts(3, 2);
    assert_eq!(
        chat_handler(&mut ctx, vec![1], 1, &scores_peaking_at(65)),
        Err(ProgramError::IndexOutOfRange)
    );
}

#[test]
fn embedding_narrower_than_the_hidden_vector_is_served() {
    let mut ctx = accounts(2, 3);
    assert_eq!(chat_handler(&mut ctx, vec![1, 255], 2, &scores_peaking_at(65)), Ok(vec![65u8; 32]));
}

#[test]
fn longer_blobs_than_declared_are_served() {
    let mut ctx = accounts(2, 2);
    ctx.embedding_chunk.data.push(1);
    ctx.hidden_chunk.data.push(1);
    ctx.ln_gamma.data.push(1);
    ctx.ln_beta.data.push(1);
    ctx.output_chunk.data.push(1);
    assert_eq!(chat_handler(&mut ctx, vec![255], 1, &scores_peaking_at(65)), Ok(vec![65u8; 32]));
}

#[test]
fn empty_input_reads_the_output_blob_only() {
    let mut ctx = accounts(3, 2);
    ctx.embedding_chunk.data.clear();
    ctx.hidden_chunk.data.clear();
    ctx.ln_gamma.data.clear();
    ctx.ln_beta.data.clear();
    assert_eq!(chat_handler(&mut ctx, Vec::new(), 0, &scores_peaking_at(0)), Ok(vec![0]));
    assert_eq!(ctx.chat_state.history, buffer(&[]));
    assert_eq!(ctx.chat_state.history_len, 0);
    // a declared length of zero consumes nothing of a non-empty input either
    assert_eq!(chat_handler(&mut ctx, vec![1, 2], 0, &scores_peaking_at(0)), Ok(vec![0]));
    assert_eq!(ctx.chat_state.history, buffer(&[]));
    ctx.output_chunk.data.pop();
    assert_eq!(
        chat_handler(&mut ctx, Vec::new(), 0, &scores_peaking_at(0)),
        Err(ProgramError::IndexOutOfRange)
    );
}

#[test]
fn model_without_hidden_units_reads_nothing() {
    let mut ctx = accounts(0, 0);
    assert!(ctx.embedding_chunk.data.is_empty());
    assert!(ctx.output_chunk.data.is_empty());
    assert_eq!(chat_handler(&mut ctx, vec![1, 2, 3], 3, &scores_peaking_at(0)), Ok(vec![0]));
}

#[test]
fn validation_tells_how_many_bytes_are_consumed() {
    let ctx = accounts(2, 2);
    assert_eq!(ctx.validate(&vec![1, 2, 3], 3), Ok(3));
    assert_eq!(ctx.validate(&vec![1, 2, 3], 2), Ok(2));
    assert_eq!(ctx.validate(&vec![1, 2, 3], 0), Ok(0));
    assert_eq!(ctx.validate(&vec![1, 2, 3], 128), Ok(3));
    assert_eq!(ctx.validate(&Vec::new(), 128), Ok(0));
    assert_eq!(ctx.validate(&vec![1; 128], 128), Ok(128));
    assert_eq!(ctx.validate(&vec![1; 300], 128), Ok(128));
}

#[test]
fn validation_refuses_as_the_chat_does() {
    let mut ctx = accounts(2, 2);
    assert_eq!(ctx.validate(&vec![1, 2, 3], 129), Err(ProgramError::E001));
    ctx.output_chunk.data.pop();
    assert_eq!(ctx.validate(&vec![1, 2, 3], 3), Err(ProgramError::IndexOutOfRange));
    ctx.signer = key(6);
    assert_eq!(ctx.validate(&vec![1, 2, 3], 3), Err(ProgramError::E000));
}

#[test]
fn program_entry_chats_like_the_handler() {
    let mut by_handler = accounts(2, 2);
    let mut by_entry = accounts(2, 2);
    let scores = scores_peaking_at(33);
    assert_eq!(
        chat_handler(&mut by_handler, vec![1, 2], 2, &scores),
        chat(&mut by_entry, vec![1, 2], 2, &scores)
    );
    assert_eq!(by_handler, by_entry);
    assert_eq!(chat(&mut by_entry, vec![1, 2], 129, &scores), Err(ProgramError::E001));
    assert_eq!(by_handler, by_entry);
}

#[test]
fn stranger_with_overlong_input_is_refused_as_a_stranger() {
    let mut ctx = accounts(2, 2);
    ctx.signer = key(6);
    let before = ctx.clone();
    assert_eq!(ctx.validate(&vec![7; 129], 129), Err(ProgramError::E000));
    assert_eq!(chat(&mut ctx, vec![7; 129], 129, &scores_peaking_at(65)), Err(ProgramError::E000));
    assert_eq!(ctx, before);
}

#[test]
fn embedding_lookup_decodes_the_row_of_the_token() {
    let mut ctx = accounts(2, 2);
    ctx.embedding_chunk.data[10] = 16384;
    ctx.embedding_chunk.data[11] = -8192;
    let hidden: Vec<f32> = ctx.embed(5).unwrap().into_iter().map(f32::from_bits).collect();
    assert_eq!(hidden, vec![0.5, -0.25]);
    assert_eq!(ctx.embed(4), Ok(vec![0, 0]));
}

#[test]
fn embedding_lookup_fills_the_hidden_vector_with_zeros() {
    let mut ctx = accounts(2, 5);
    ctx.embedding_chunk.data[510] = 32768;
    ctx.embedding_chunk.data[511] = 32768;
    assert_eq!(ctx.embed(255), Ok(vec![0x3f80_0000, 0x3f80_0000, 0, 0, 0]));
}

#[test]
fn embedding_lookup_without_a_row_is_out_of_range() {
    let mut ctx = accounts(2, 2);
    ctx.embedding_chunk.data.truncate(401);
    assert_eq!(ctx.embed(199).map(|hidden| hidden.len()), Ok(2));
    assert_eq!(ctx.embed(200), Err(ProgramError::IndexOutOfRange));
    assert_eq!(ctx.embed(255), Err(ProgramError::IndexOutOfRange));
}

#[test]
fn embedding_lookup_wider_than_the_hidden_vector_is_out_of_range() {
    let ctx = accounts(3, 2);
    assert_eq!(ctx.embed(0), Err(ProgramError::IndexOutOfRange));
}

#[test]
fn embedding_lookup_of_no_width_is_all_zeros() {
    let ctx = accounts(0, 3);
    assert_eq!(ctx.embed(77), Ok(vec![0, 0, 0]));
}

#[test]
fn session_buffer_keeps_its_capacity_under_an_overlong_input() {
    let mut ctx = accounts(2, 2);
    let input: Vec<u8> = (0..200).map(|i| (i % 199 + 1) as u8).collect();
    // nothing consumed: the buffer is all zeros
    assert_eq!(chat_handler(&mut ctx, input.clone(), 0, &scores_peaking_at(0)), Ok(vec![0]));
    assert_eq!(ctx.chat_state.history, vec![0u8; 128]);
    assert_eq!(ctx.chat_state.history_len, 0);
    // as much consumed as the buffer holds: the first 128 bytes
    assert_eq!(chat_handler(&mut ctx, input.clone(), 128, &scores_peaking_at(0)), Ok(vec![0]));
    assert_eq!(ctx.chat_state.history, input[..128].to_vec());
    assert_eq!(ctx.chat_state.history_len, 128);
    // part of it consumed: that part, and zeros
    assert_eq!(chat_handler(&mut ctx, input.clone(), 5, &scores_peaking_at(0)), Ok(vec![0]));
    assert_eq!(ctx.chat_state.history, buffer(&input[..5]));
    assert_eq!(ctx.chat_state.history.len(), MAX_SEQ_LEN);
    assert_eq!(ctx.chat_state.history_len, 5);
}

#[test]
fn session_buffer_has_full_capacity_after_every_accepted_chat() {
    let mut ctx = accounts(2, 2);
    ctx.chat_state.history = vec![1, 2, 3];
    for length in [0u32, 1, 2, 64, 127, 128] {
        for size in [0usize, 1, 2, 64, 127, 128, 129, 300] {
            let input = vec![7u8; size];
            assert!(chat_handler(&mut ctx, input, length, &scores_peaking_at(0)).is_ok());
            assert_eq!(ctx.chat_state.history.len(), MAX_SEQ_LEN);
            assert_eq!(ctx.chat_state.history_len, length);
            let consumed = size.min(length as usize);
            assert_eq!(ctx.chat_state.history, buffer(&vec![7u8; consumed]));
        }
    }
}
