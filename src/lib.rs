//! A fixed-capacity bump arena: one zero-filled byte buffer from which
//! regions are carved in order and never freed one by one, with a hex dump
//! of the whole buffer.

mod arena;
mod dump;
mod error;

pub use arena::{
    Arena, Region, is_pow2, layout_error, lemma_capacity_bound, lemma_dump_repeatable,
    lemma_regions_disjoint, padded_size, region_start, total,
};
pub use dump::{
    byte_pos, dump_text, hex_digit, hex_pair, lemma_dump_group, lemma_dump_len, lemma_zero_dump,
    render_hex,
};
pub use error::{AllocError, ArenaError, ArenaResult, LayoutError};
