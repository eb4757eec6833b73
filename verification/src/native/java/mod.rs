pub mod io;
pub mod lang;
pub mod security;
