use lyrix::parsers::decrypt::netease::eapi_encrypt;

#[test]
fn eapi_params_for_a_lyric_request() {
    let params = eapi_encrypt("/api/song/lyric", "{\"id\":\"1\"}").unwrap();
    assert_eq!(
        params,
        "9B1595479B79266065903BA79E9883029338432CD7D98D1A3626E997A2C53121AC2B599B578814D951DEFA214A4737E544B39A11DA780080374501DFDC0A5283F555AFF100F5F9A67BC1AE911F2217ACEBF3DCD872EE4323CA6AF88A5A9AD142"
    );
}

#[test]
fn eapi_params_are_upper_hex_blocks() {
    let params = eapi_encrypt("/u", "").unwrap();
    assert_eq!(params.len() % 32, 0);
    assert!(params.chars().all(|c| c.is_ascii_digit() || ('A'..='F').contains(&c)));
}
