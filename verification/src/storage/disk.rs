//! Block arithmetic for direct device access: a device opened for direct
//! input and output takes only whole blocks, at offsets and from buffers
//! that are multiples of the block size. Opening, reading and writing the
//! device is the host's part.

use vstd::prelude::*;

verus! {

/// The block size of a device where none is given.
pub const DEFAULT_BLOCK_SIZE: usize = 4096;

/// Why a transfer was refused.
#[derive(Clone, Copy, Debug, PartialEq, Eq, Structural)]
pub enum AlignError {
    /// The buffer does not start at a multiple of the block size.
    Buffer,
    /// The buffer's length is not a multiple of the block size.
    Size,
    /// The offset is not a multiple of the block size.
    Offset,
}

impl AlignError {
    /// The error in words.
    pub fn message(&self) -> (text: String)
        ensures
            text@ == (match *self {
                AlignError::Buffer => "Buffer must be aligned to block size"@,
                AlignError::Size => "Buffer size must be a multiple of block size"@,
                AlignError::Offset => "Offset must be block-aligned"@,
            }),
    {
        match self {
            AlignError::Buffer => "Buffer must be aligned to block size".to_string(),
            AlignError::Size => "Buffer size must be a multiple of block size".to_string(),
            AlignError::Offset => "Offset must be block-aligned".to_string(),
        }
    }
}

/// The error with which a transfer of `size` bytes at `offset`, from or to
/// a buffer at the address `addr`, is refused: the buffer's address is
/// looked at first, then its length, then the offset.
pub open spec fn transfer_error(addr: usize, size: usize, offset: u64, block_size: usize) -> Option<
    AlignError,
> {
    if addr % block_size != 0 {
        Some(AlignError::Buffer)
    } else if size % block_size != 0 {
        Some(AlignError::Size)
    } else if offset % (block_size as u64) != 0 {
        Some(AlignError::Offset)
    } else {
        None
    }
}

/// Hold a buffer at the address `addr`, `size` bytes long, against the
/// block size.
pub fn ensure_alignment(addr: usize, size: usize, block_size: usize) -> (checked: Result<
    (),
    AlignError,
>)
    requires
        block_size > 0,
    ensures
        checked == (if addr % block_size != 0 {
            Err::<(), AlignError>(AlignError::Buffer)
        } else if size % block_size != 0 {
            Err::<(), AlignError>(AlignError::Size)
        } else {
            Ok::<(), AlignError>(())
        }),
{
    if addr % block_size != 0 {
        return Err(AlignError::Buffer);
    }
    if size % block_size != 0 {
        return Err(AlignError::Size);
    }
    Ok(())
}

/// Hold a transfer of `size` bytes at `offset`, from or to a buffer at the
/// address `addr`, against the block size.
pub fn check_transfer(addr: usize, size: usize, offset: u64, block_size: usize) -> (checked: Result<
    (),
    AlignError,
>)
    requires
        block_size > 0,
    ensures
        checked == (match transfer_error(addr, size, offset, block_size) {
            Some(e) => Err::<(), AlignError>(e),
            None => Ok::<(), AlignError>(()),
        }),
{
    match ensure_alignment(addr, size, block_size) {
        Err(e) => Err(e),
        Ok(_) => if offset % (block_size as u64) != 0 {
            Err(AlignError::Offset)
        } else {
            Ok(())
        },
    }
}

/// The start of the block in which `offset` lies.
pub open spec fn block_start(offset: u64, block_size: usize) -> u64 {
    ((offset / (block_size as u64)) * block_size) as u64
}

/// The least multiple of the block size that is no less than `size`.
pub open spec fn whole_blocks(size: nat, block_size: usize) -> nat {
    ((size + block_size - 1) / (block_size as int) * block_size) as nat
}

/// How a write of any length at any offset is brought to whole blocks.
#[derive(Clone, Copy, Debug, PartialEq, Eq, Structural)]
pub struct WritePlan {
    /// The offset at which the blocks are written: the start of the block
    /// in which the data starts.
    pub aligned_offset: u64,
    /// Where the data starts in the first block.
    pub offset_within_block: usize,
    /// The length of the blocks.
    pub buffer_len: usize,
    /// Whether the first block is to be read before it is written: it is
    /// where the data does not start at its start.
    pub read_first: bool,
}

/// The plan for a write of `len` bytes at `offset`.
pub open spec fn spec_plan(offset: u64, len: usize, block_size: usize) -> Option<WritePlan> {
    let start = block_start(offset, block_size);
    let within = offset - start;
    let blocks = whole_blocks((within + len) as nat, block_size);
    if blocks <= usize::MAX {
        Some(
            WritePlan {
                aligned_offset: start,
                offset_within_block: within as usize,
                buffer_len: blocks as usize,
                read_first: within > 0,
            },
        )
    } else {
        None
    }
}

/// Plan a write of `len` bytes at `offset`: the blocks that hold the data,
/// and where in them it lies. There is no plan where the blocks together
/// would be longer than a buffer can be.
pub fn plan_write(offset: u64, len: usize, block_size: usize) -> (plan: Option<WritePlan>)
    requires
        block_size > 0,
    ensures
        plan == spec_plan(offset, len, block_size),
        plan matches Some(p) ==> p.offset_within_block < block_size && p.offset_within_block + len
            <= p.buffer_len && p.buffer_len % block_size == 0 && p.aligned_offset
            + p.offset_within_block == offset,
{
    let block: u64 = block_size as u64;
    let blocks_before: u64 = offset / block;
    assert(blocks_before * block <= offset && offset - blocks_before * block < block) by (
        nonlinear_arith)
        requires
            block > 0,
            blocks_before == offset / block,
    ;
    let start: u64 = blocks_before * block;
    let within: u64 = offset - start;
    let wanted: u128 = within as u128 + len as u128 + (block as u128 - 1);
    let count: u128 = wanted / (block as u128);
    assert(count * block <= wanted && wanted - count * block < block) by (nonlinear_arith)
        requires
            block > 0,
            count == wanted / (block as u128),
    ;
    let blocks: u128 = count * (block as u128);
    assert((count * block) % (block as int) == 0) by (nonlinear_arith)
        requires
            block > 0,
    ;
    if blocks > usize::MAX as u128 {
        return None;
    }
    Some(
        WritePlan {
            aligned_offset: start,
            offset_within_block: within as usize,
            buffer_len: blocks as usize,
            read_first: within > 0,
        },
    )
}

} // verus!
