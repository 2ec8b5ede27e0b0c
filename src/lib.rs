pub mod amount;
pub mod tick;
pub mod wide;

pub use amount::{try_get_amount_delta, ErrorCode, ARITHMETIC_OVERFLOW, AMOUNT_EXCEEDS_MAX_U64};
pub use tick::{get_initializable_tick_index, is_tick_initializable};
