//! Whisper transcription around the model: the configuration a GGML file
//! gives, the decoder's start tokens, and the text of generated tokens.

use vstd::prelude::*;
use crate::ggml::WhisperHparams;
use crate::ops::F32Bits;
use crate::scan::{bpe_char, decode_bpe_token};
use crate::templates::WhisperConfig;
use crate::text::{append_str, to_chars};
use crate::vocab::trim;

verus! {

/// `<|endoftext|>`.
pub const EOT: u32 = 50257;

/// `<|startoftranscript|>`; ids from here on are special.
pub const SOT: u32 = 50258;

/// `<|en|>`.
pub const LANG_EN: u32 = 50259;

/// `<|transcribe|>`.
pub const TRANSCRIBE: u32 = 50359;

/// `<|notimestamps|>`.
pub const NO_TIMESTAMPS: u32 = 50363;

/// The model configuration of a GGML whisper file: its sizes, and a norm
/// epsilon of 1e-5.
pub fn whisper_config(h: &WhisperHparams) -> (c: WhisperConfig)
    ensures
        c.n_audio_state == h.n_audio_state as usize,
        c.n_audio_head == h.n_audio_head as usize,
        c.n_audio_layer == h.n_audio_layer as usize,
        c.n_audio_ctx == h.n_audio_ctx as usize,
        c.n_text_state == h.n_text_state as usize,
        c.n_text_head == h.n_text_head as usize,
        c.n_text_layer == h.n_text_layer as usize,
        c.n_text_ctx == h.n_text_ctx as usize,
        c.n_vocab == h.n_vocab as usize,
        c.n_mels == h.n_mels as usize,
        c.eps == F32Bits(0x3727_c5ac),
{
    WhisperConfig {
        n_audio_state: h.n_audio_state as usize,
        n_audio_head: h.n_audio_head as usize,
        n_audio_layer: h.n_audio_layer as usize,
        n_audio_ctx: h.n_audio_ctx as usize,
        n_text_state: h.n_text_state as usize,
        n_text_head: h.n_text_head as usize,
        n_text_layer: h.n_text_layer as usize,
        n_text_ctx: h.n_text_ctx as usize,
        n_vocab: h.n_vocab as usize,
        n_mels: h.n_mels as usize,
        eps: F32Bits(0x3727_c5ac),
    }
}

/// The tokens the decoder starts from: start of transcript, English,
/// transcribe, no timestamps. No decoding step follows them yet, so they
/// are also what the loop returns.
pub fn decode_loop() -> (r: Vec<u32>)
    ensures
        r@ == seq![SOT, LANG_EN, TRANSCRIBE, NO_TIMESTAMPS],
{
    let v = vec![SOT, LANG_EN, TRANSCRIBE, NO_TIMESTAMPS];
    proof {
        assert(v@ =~= seq![SOT, LANG_EN, TRANSCRIBE, NO_TIMESTAMPS]);
    }
    v
}

/// The decoded text of the ordinary tokens with an entry in the vocabulary,
/// concatenated (special tokens skipped).
pub open spec fn token_text(vocab: Seq<String>, tokens: Seq<u32>) -> Seq<char>
    decreases tokens.len(),
{
    if tokens.len() == 0 {
        Seq::empty()
    } else {
        let t = tokens.last();
        token_text(vocab, tokens.drop_last()) + if t >= SOT || t == EOT || t >= vocab.len() {
            Seq::empty()
        } else {
            vocab[t as int]@.map_values(|c: char| bpe_char(c))
        }
    }
}

/// The text of generated tokens: each ordinary token's vocabulary entry,
/// decoded from byte-level BPE, concatenated and trimmed.
pub fn tokens_to_text(vocab: &Vec<String>, tokens: &[u32]) -> (r: String)
    ensures
        r@ == trim(token_text(vocab@, tokens@)),
{
    let mut text = String::new();
    let mut i: usize = 0;
    let n = tokens.len();
    proof {
        assert(tokens@.take(0) =~= Seq::<u32>::empty());
    }
    while i < n
        invariant
            n == tokens@.len(),
            i <= n,
            text@ == token_text(vocab@, tokens@.take(i as int)),
        decreases n - i,
    {
        let t = tokens[i];
        proof {
            assert(tokens@.take(i + 1).drop_last() =~= tokens@.take(i as int));
            assert(tokens@.take(i + 1).last() == t);
        }
        if !(t >= SOT || t == EOT) && (t as usize) < vocab.len() {
            let word = decode_bpe_token(vocab[t as usize].as_str());
            append_str(&mut text, word.as_str());
        } else {
            proof {
                assert(text@ =~= token_text(vocab@, tokens@.take(i + 1)));
            }
        }
        i = i + 1;
    }
    proof {
        assert(tokens@.take(n as int) =~= tokens@);
    }
    let cs = to_chars(text.as_str());
    crate::text::string_of(&crate::vocab::trimmed(&cs))
}

} // verus!
