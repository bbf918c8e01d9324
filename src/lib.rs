//! Conversion between the octal and the symbolic ("rwx") notations of Unix
//! permission bits, with a table rendering of the symbolic form.
pub mod decimal;
pub mod dispatch;
pub mod error;
pub mod permissions;
pub mod table;

pub use dispatch::{convert, parse_octal_string};
pub use error::ModeError;
pub use permissions::{octal_string_to_rwx_string, rwx_string_to_octal_string};
pub use table::rwx_string_to_table;
