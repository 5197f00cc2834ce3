//! Core logic of the Karu chat client.

pub mod base64;
pub mod texto;
pub mod chat;
pub mod dados;
pub mod markdown;
pub mod protocolo;
pub mod pfps;
pub mod estado;
pub mod conexao;
pub mod leis;
