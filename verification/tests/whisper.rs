use cyb_model::ggml::WhisperHparams;
use cyb_model::whisper::{decode_loop, tokens_to_text, whisper_config, EOT, SOT};

#[test]
fn config_from_hparams() {
    let h = WhisperHparams {
        n_vocab: 51865,
        n_audio_ctx: 1500,
        n_audio_state: 384,
        n_audio_head: 6,
        n_audio_layer: 4,
        n_text_ctx: 448,
        n_text_state: 384,
        n_text_head: 6,
        n_text_layer: 4,
        n_mels: 80,
        ftype: 1,
    };
    let c = whisper_config(&h);
    assert_eq!(c.n_vocab, 51865);
    assert_eq!(c.n_audio_ctx, 1500);
    assert_eq!(c.n_text_layer, 4);
    assert_eq!(c.n_mels, 80);
    assert_eq!(f32::from_bits(c.eps.0), 1e-5);
}

#[test]
fn decoder_starts_with_the_task_tokens() {
    assert_eq!(decode_loop(), vec![50258, 50259, 50359, 50363]);
}

#[test]
fn tokens_become_trimmed_text() {
    let vocab = vec!["\u{0120}Hello".to_string(), ",".to_string(), "\u{0120}world".to_string(), "\u{010a}".to_string()];
    assert_eq!(tokens_to_text(&vocab, &[SOT, 0, 1, 2, 3, EOT, 99]), "Hello, world");
}
