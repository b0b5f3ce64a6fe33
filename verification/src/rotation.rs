//! The rotation of the log file by size.

use vstd::prelude::*;
use vstd::string::*;

use crate::text::{decimal_text, push_decimal};

verus! {

/// The bytes in one megabyte of the rotation size.
pub const BYTES_PER_MB: u64 = 1_048_576;

/// Whether a file of `size` bytes is rotated before `incoming` more bytes are written:
/// it is where the bytes would pass the rotation size. A rotation size of zero means
/// that the file is never rotated.
pub open spec fn rotation_due(size: u64, incoming: u64, rotation_size_mb: u64) -> bool {
    rotation_size_mb > 0 && size + incoming > rotation_size_mb * BYTES_PER_MB
}

/// Whether the log file is rotated before the next line is written.
pub fn needs_rotation(size: u64, incoming: u64, rotation_size_mb: u64) -> (r: bool)
    ensures
        r == rotation_due(size, incoming, rotation_size_mb),
{
    if rotation_size_mb == 0 {
        return false;
    }
    assert(rotation_size_mb * BYTES_PER_MB <= u64::MAX * 1_048_576) by (nonlinear_arith)
        requires
            rotation_size_mb <= u64::MAX,
            BYTES_PER_MB == 1_048_576,
    ;
    let limit: u128 = rotation_size_mb as u128 * BYTES_PER_MB as u128;
    size as u128 + incoming as u128 > limit
}

/// The name of the file that holds generation `generation` of the log: the name of the
/// log file itself for generation 0, else that name, a dot and the number.
pub open spec fn rotated_name(base: Seq<char>, generation: u32) -> Seq<char> {
    if generation == 0 {
        base
    } else {
        base + seq!['.'] + decimal_text(generation as nat)
    }
}

/// The name of the file that holds a generation of the log.
pub fn rotated_path(base: &str, generation: u32) -> (name: String)
    ensures
        name@ == rotated_name(base@, generation),
{
    let mut name = String::from_str(base);
    if generation > 0 {
        name.push('.');
        push_decimal(&mut name, generation as u64);
    }
    name
}

/// The generations that a rotation keeps, when `max_files` files are retained in all:
/// the oldest of them is dropped to make room.
pub open spec fn oldest_kept(max_files: u32) -> u32 {
    if max_files <= 1 {
        0
    } else {
        (max_files - 1) as u32
    }
}

/// The number of the oldest generation that is kept.
pub fn oldest_generation(max_files: u32) -> (g: u32)
    ensures
        g == oldest_kept(max_files),
{
    if max_files <= 1 {
        0
    } else {
        max_files - 1
    }
}

} // verus!
