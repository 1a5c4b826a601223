use langchain_core::tokenization::{
    encoder_family_for_model, get_encoder_for_model, Cl100KEncoder, EncoderFamily, P50KEncoder,
    R50KEncoder, TokenEncoder,
};

#[test]
fn cl100k_keeps_ascii_and_offsets_other_bytes() {
    let e = Cl100KEncoder::new();
    assert_eq!(e.encode("a\u{e9}").unwrap(), vec![97, 256 + 0xC3, 256 + 0xA9]);
}

#[test]
fn cl100k_round_trip_drops_non_ascii() {
    let e = Cl100KEncoder::new();
    let tokens = e.encode("caf\u{e9} ok").unwrap();
    assert_eq!(e.decode(&tokens).unwrap(), "caf ok");
}

#[test]
fn p50k_round_trip_is_identity() {
    let e = P50KEncoder::new();
    let text = "h\u{e9}llo \u{1F600}";
    let tokens = e.encode(text).unwrap();
    assert_eq!(tokens.len(), text.len());
    assert_eq!(e.decode(&tokens).unwrap(), text);
}

#[test]
fn r50k_decodes_low_bytes() {
    let e = R50KEncoder::new();
    assert_eq!(e.decode(&[104, 256 + 105]).unwrap(), "hi");
}

#[test]
fn token_count_is_encoding_length() {
    let e = P50KEncoder::new();
    assert_eq!(e.get_token_count("abc").unwrap(), 3);
}

#[test]
fn model_names_select_families() {
    assert_eq!(encoder_family_for_model("GPT-4-turbo"), EncoderFamily::Cl100K);
    assert_eq!(encoder_family_for_model("gpt-3.5-turbo"), EncoderFamily::Cl100K);
    assert_eq!(encoder_family_for_model("text-gpt-3-davinci"), EncoderFamily::P50K);
    assert_eq!(encoder_family_for_model("llama-2"), EncoderFamily::R50K);
    let enc = get_encoder_for_model("gpt-4o");
    assert_eq!(enc.encode("\u{e9}").unwrap(), vec![256 + 0xC3, 256 + 0xA9]);
}
