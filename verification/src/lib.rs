pub mod calculadora;
pub mod cliente;
pub mod io;
pub mod logger;
pub mod protocol;
pub mod servidor;
pub mod texto;
