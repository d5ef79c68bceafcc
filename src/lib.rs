#![allow(non_camel_case_types)]

pub mod damage;
pub mod encounter;
pub mod handlers;
pub mod model;
pub mod parser;
pub mod reference;
pub mod text;
