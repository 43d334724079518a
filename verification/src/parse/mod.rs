pub mod acftref;
pub mod dealer;
pub mod dereg;
pub mod docindex;
pub mod engine;
pub mod fixed_width;
pub mod master;
pub mod reserved;

pub use acftref::parse_acftref;
pub use dealer::parse_dealer;
pub use dereg::parse_dereg;
pub use docindex::parse_docindex;
pub use engine::parse_engine;
pub use master::parse_master;
pub use reserved::parse_reserved;
