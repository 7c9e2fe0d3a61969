//! Arithmetic and book-keeping building blocks of the market.

pub mod bitmap_lib;
pub mod book_check;
pub mod book_laws;
pub mod calc_lib;
pub mod constants;
pub mod order_lib;
pub mod price_lib;
pub mod swap_lib;
pub mod tick_lib;
