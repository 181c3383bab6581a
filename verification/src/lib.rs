//! The logic of a collection of manga sources for a reader app: how each
//! source turns searches, filters and links into requests, reads what its
//! site answers, decrypts and unscrambles what the site protects, and what
//! the app is shown. Each module holds one source, or what several share.
use vstd::prelude::*;

pub mod bakamh;
pub mod baozimanhua;
pub mod bilimanga;
pub mod cmanga;
pub mod copymanga;
pub mod desu;
pub mod dm5;
pub mod hako;
pub mod happymh;
pub mod jmcomic;
pub mod jsonptr;
pub mod komiic;
pub mod mangadex;
pub mod mangadotnet;
pub mod manhuagui;
pub mod mangafire;
pub mod mangaplus;
pub mod mangaplus_source;
pub mod minotruyen;
pub mod model;
pub mod myreadingmanga;
pub mod nhentai;
pub mod primitives;
pub mod suwayomi;
pub mod text;
pub mod wpsites;

verus! {

} // verus!
