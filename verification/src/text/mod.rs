pub mod ascii;
pub mod chars;
pub mod whitespace;
pub mod run;
pub mod quoted;
pub mod words;
pub mod digits;
pub mod tag;
pub mod misc_token;
pub mod recovery;
