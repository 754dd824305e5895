pub mod callback;
pub mod chunk;
pub mod cipher;
pub mod crt_rand;
pub mod error;
pub mod form;
pub mod login;
pub mod machine;
pub mod number;
pub mod params;
pub mod text;
pub mod ticket;
