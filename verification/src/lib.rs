//! Turns PCM audio samples into C header source text: normalize the bit
//! depth to 8 bits, decimate by a stride, and serialize the metadata macros
//! together with the sample array.

pub mod pcm;
pub mod text;
