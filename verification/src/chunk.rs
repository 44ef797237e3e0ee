//! Parameter blobs: reading them with every index held against the stored
//! length, uploading them, and the storage that an upload needs.

use vstd::prelude::*;
use crate::error::ProgramError;
use crate::codec::{decode, is_decoding};
use crate::layout::{cell, row_fits, row_in_range};
use crate::pubkey::Pubkey;
use crate::registry::{ModelRegistry, ModelRegistryView};

verus! {

/// Tag of the blob that holds the embedding table.
pub const CHUNK_TYPE_EMBEDDING: u8 = 0;

/// Tag of the blob that holds the hidden-layer weights.
pub const CHUNK_TYPE_HIDDEN: u8 = 1;

/// Tag of the blob that holds the output projection.
pub const CHUNK_TYPE_OUTPUT: u8 = 2;

/// One blob of quantized parameters: 32-bit fixed-point values with 15
/// fractional bits, in the order in which the forward pass addresses them.
#[derive(Clone, Debug, PartialEq, Eq)]
pub struct ModelChunk {
    pub authority: Pubkey,
    pub registry: Pubkey,
    pub chunk_index: u32,
    pub chunk_type: u8,
    pub data: Vec<i32>,
}

/// A blob as a mathematical record.
pub struct ModelChunkView {
    pub authority: Seq<u8>,
    pub registry: Seq<u8>,
    pub chunk_index: nat,
    pub chunk_type: nat,
    pub data: Seq<i32>,
}

impl View for ModelChunk {
    type V = ModelChunkView;

    open spec fn view(&self) -> ModelChunkView {
        ModelChunkView {
            authority: self.authority@,
            registry: self.registry@,
            chunk_index: self.chunk_index as nat,
            chunk_type: self.chunk_type as nat,
            data: self.data@,
        }
    }
}

impl ModelChunk {
    /// The value in row `row`, column `col` of the blob read as a table of `width`
    /// columns, checked against what the blob really holds.
    pub fn weight(&self, row: u32, width: u32, col: u32) -> (r: Result<i32, ProgramError>)
        ensures
            cell(row as int, width as int, col as int) < self@.data.len() ==> r == Ok::<
                i32,
                ProgramError,
            >(self@.data[cell(row as int, width as int, col as int)]),
            cell(row as int, width as int, col as int) >= self@.data.len() ==> r == Err::<
                i32,
                ProgramError,
            >(ProgramError::IndexOutOfRange),
    {
        assert(row * width + col <= 0xffff_ffff * 0x1_0000_0000) by (nonlinear_arith)
            requires
                0 <= row <= 0xffff_ffff,
                0 <= width <= 0xffff_ffff,
                0 <= col <= 0xffff_ffff,
        ;
        let at: u64 = row as u64 * width as u64 + col as u64;
        if at < self.data.len() as u64 {
            Ok(self.data[at as usize])
        } else {
            Err(ProgramError::IndexOutOfRange)
        }
    }
}

impl ModelChunk {
    /// `numbers` holds, as bit patterns, the numbers that row `row` of the blob
    /// stands for when the blob is read as a table of `width` columns.
    pub open spec fn is_decoded_row(&self, row: int, width: int, numbers: Seq<u32>) -> bool {
        &&& numbers.len() == width
        &&& forall|col: int|
            0 <= col < width ==> is_decoding(
                self@.data[cell(row, width, col)] as int,
                #[trigger] numbers[col],
            )
    }

    /// Row `row` of the blob read as a table of `width` columns, decoded; out of
    /// range unless the blob holds the whole row.
    pub fn decoded_row(&self, row: u32, width: u32) -> (r: Result<Vec<u32>, ProgramError>)
        ensures
            match r {
                Ok(numbers) => {
                    &&& row_in_range(row as int, width as int, self@.data.len() as int)
                    &&& self.is_decoded_row(row as int, width as int, numbers@)
                },
                Err(e) => {
                    &&& e == ProgramError::IndexOutOfRange
                    &&& !row_in_range(row as int, width as int, self@.data.len() as int)
                },
            },
    {
        if !row_fits(row, width, self.data.len()) {
            return Err(ProgramError::IndexOutOfRange);
        }
        let mut numbers: Vec<u32> = Vec::new();
        let mut col: u32 = 0;
        while col < width
            invariant
                col <= width,
                row_in_range(row as int, width as int, self@.data.len() as int),
                numbers@.len() == col,
                forall|c: int|
                    0 <= c < col ==> is_decoding(
                        self@.data[cell(row as int, width as int, c)] as int,
                        #[trigger] numbers@[c],
                    ),
            decreases width - col,
        {
            assert(cell(row as int, width as int, col as int) < self@.data.len());
            match self.weight(row, width, col) {
                Ok(raw) => numbers.push(decode(raw)),
                Err(e) => {
                    return Err(e);
                },
            }
            col += 1;
        }
        Ok(numbers)
    }
}

/// Bytes that a stored blob takes up besides its values: an 8-byte tag, two
/// 32-byte addresses, the 4-byte chunk index, the 1-byte chunk type and the
/// 4-byte count of values.
pub const CHUNK_HEADER_BYTES: usize = 81;

/// Bytes that one stored value takes up.
pub const VALUE_BYTES: usize = 4;

/// Bytes that a stored blob of `values` values takes up.
pub open spec fn stored_size(values: nat) -> nat {
    CHUNK_HEADER_BYTES as nat + VALUE_BYTES as nat * values
}

/// Size of a blob's storage region after an upload of `values` values into a
/// region of `current` bytes: large enough for the upload, and never smaller
/// than before.
pub open spec fn grown_size(current: nat, values: nat) -> nat {
    if current >= stored_size(values) {
        current
    } else {
        stored_size(values)
    }
}

/// The size to which a region of `current` bytes has to grow, if at all, to
/// take an upload of `values` values; `None` where no region can be that large.
pub fn region_after_upload(current: usize, values: usize) -> (r: Option<usize>)
    ensures
        grown_size(current as nat, values as nat) <= usize::MAX ==> r == Some(
            grown_size(current as nat, values as nat) as usize,
        ),
        grown_size(current as nat, values as nat) > usize::MAX ==> r is None,
{
    match values.checked_mul(VALUE_BYTES) {
        None => None,
        Some(payload) => match payload.checked_add(CHUNK_HEADER_BYTES) {
            None => None,
            Some(needed) => if current >= needed {
                Some(current)
            } else {
                Some(needed)
            },
        },
    }
}

/// The accounts of an upload: who signs, the registry with its address, and the
/// blob to overwrite.
#[derive(Clone, Debug, PartialEq, Eq)]
pub struct UploadChunk {
    pub signer: Pubkey,
    pub registry_key: Pubkey,
    pub registry: ModelRegistry,
    pub chunk: ModelChunk,
}

/// The accounts of an upload as a mathematical record.
pub struct UploadChunkView {
    pub signer: Seq<u8>,
    pub registry_key: Seq<u8>,
    pub registry: ModelRegistryView,
    pub chunk: ModelChunkView,
}

impl View for UploadChunk {
    type V = UploadChunkView;

    open spec fn view(&self) -> UploadChunkView {
        UploadChunkView {
            signer: self.signer@,
            registry_key: self.registry_key@,
            registry: self.registry@,
            chunk: self.chunk@,
        }
    }
}

impl UploadChunkView {
    /// Only the registry's authority may upload.
    pub open spec fn authorized(self) -> bool {
        self.registry.authority == self.signer
    }

    /// The accounts after the signer has uploaded `data` as chunk `chunk_index` of
    /// kind `chunk_type`: the blob holds exactly `data` under the signer's name,
    /// and the registry counts at least `chunk_index + 1` chunks.
    pub open spec fn uploaded(self, chunk_index: nat, chunk_type: nat, data: Seq<i32>) -> UploadChunkView {
        UploadChunkView {
            signer: self.signer,
            registry_key: self.registry_key,
            registry: ModelRegistryView {
                chunk_count: if self.registry.chunk_count >= chunk_index + 1 {
                    self.registry.chunk_count
                } else {
                    chunk_index + 1
                },
                ..self.registry
            },
            chunk: ModelChunkView {
                authority: self.signer,
                registry: self.registry_key,
                chunk_index,
                chunk_type,
                data,
            },
        }
    }

    /// What an upload request leaves behind: the uploaded state for the
    /// authority, the state as it was for anyone else.
    pub open spec fn after_upload(self, chunk_index: nat, chunk_type: nat, data: Seq<i32>) -> UploadChunkView {
        if self.authorized() {
            self.uploaded(chunk_index, chunk_type, data)
        } else {
            self
        }
    }
}

/// Overwrites the blob with `data` and raises the registry's chunk count to at
/// least `chunk_index + 1`. Refused with `E000`, and without any change, unless
/// the signer is the registry's authority.
pub fn upload_chunk_handler(
    ctx: &mut UploadChunk,
    chunk_index: u32,
    chunk_type: u8,
    data: Vec<i32>,
) -> (r: Result<(), ProgramError>)
    requires
        old(ctx)@.authorized() ==> chunk_index < u32::MAX,
    ensures
        r is Ok <==> old(ctx)@.authorized(),
        r is Err ==> r == Err::<(), ProgramError>(ProgramError::E000) && *final(ctx) == *old(ctx),
        final(ctx)@ == old(ctx)@.after_upload(chunk_index as nat, chunk_type as nat, data@),
        final(ctx).registry.chunk_count >= old(ctx).registry.chunk_count,
        r is Ok ==> final(ctx).registry.chunk_count > chunk_index,
{
    if !(ctx.registry.authority == ctx.signer) {
        return Err(ProgramError::E000);
    }
    ctx.chunk.authority = ctx.signer;
    ctx.chunk.registry = ctx.registry_key;
    ctx.chunk.chunk_index = chunk_index;
    ctx.chunk.chunk_type = chunk_type;
    ctx.chunk.data = data;
    if ctx.registry.chunk_count < chunk_index + 1 {
        ctx.registry.chunk_count = chunk_index + 1;
    }
    Ok(())
}

/// Uploading the same chunk twice is the same as uploading it once: the stored
/// values and the chunk count are those of the first upload.
pub proof fn lemma_upload_is_idempotent(
    accounts: UploadChunkView,
    chunk_index: nat,
    chunk_type: nat,
    data: Seq<i32>,
)
    ensures
        accounts.after_upload(chunk_index, chunk_type, data).after_upload(
            chunk_index,
            chunk_type,
            data,
        ) == accounts.after_upload(chunk_index, chunk_type, data),
{
}

/// A region that has grown for an upload is large enough for it, is no smaller
/// than it was, and does not grow again for an upload of the same size.
pub proof fn lemma_region_grows_once(current: nat, values: nat)
    ensures
        grown_size(current, values) >= stored_size(values),
        grown_size(current, values) >= current,
        grown_size(grown_size(current, values), values) == grown_size(current, values),
{
}

} // verus!
