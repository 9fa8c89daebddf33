use cbc::cipher::block_padding::{NoPadding, Pkcs7};
use cbc::cipher::{BlockEncryptMut, KeyIvInit};
use mi_thermald::decrypt::{
    choose_map, config_plaintext, decrypt_config_file, first_existing, map_candidates,
    map_plain_path, resolve_scenario_path, scenario_candidates, scenario_plain_path, DecryptError,
};

const KEY: &[u8; 16] = b"thermalopenssl.h";

fn encrypt(text: &[u8]) -> Vec<u8> {
    let mut buf = text.to_vec();
    buf.resize(text.len() + 16, 0);
    cbc::Encryptor::<aes::Aes128>::new(KEY.into(), KEY.into())
        .encrypt_padded_mut::<Pkcs7>(&mut buf, text.len())
        .unwrap()
        .to_vec()
}

#[test]
fn encrypted_files_are_decrypted() {
    for text in ["[x]\na b\n", "[0:thermal-normal.conf]\n[1:xxxxxxx]", "[sixteen chars.]"] {
        let data = encrypt(text.as_bytes());
        assert_ne!(data, text.as_bytes());
        assert_eq!(decrypt_config_file(&data), Ok(text.as_bytes().to_vec()));
    }
}

#[test]
fn text_without_padding_is_left_alone() {
    let mut buf = b"[block]\nk value1".to_vec();
    let data = cbc::Encryptor::<aes::Aes128>::new(KEY.into(), KEY.into())
        .encrypt_padded_mut::<NoPadding>(&mut buf, 16)
        .unwrap()
        .to_vec();
    assert_eq!(decrypt_config_file(&data), Ok(b"[block]\nk value1".to_vec()));
}

#[test]
fn other_files_are_refused() {
    assert_eq!(decrypt_config_file(&vec![1; 15]), Err(DecryptError::Unaligned));
    assert_eq!(decrypt_config_file(&encrypt(b"not a config")), Err(DecryptError::NotConfig));
    assert_eq!(decrypt_config_file(&vec![]), Err(DecryptError::NotConfig));
    assert_eq!(decrypt_config_file(&encrypt(b"[")), Err(DecryptError::NotConfig));
}

#[test]
fn padding_is_stripped_only_where_it_is_whole() {
    assert_eq!(config_plaintext(b"[ab\x02\x02".to_vec()), Ok(b"[ab".to_vec()));
    assert_eq!(config_plaintext(b"[ab\x01\x02".to_vec()), Ok(b"[ab\x01\x02".to_vec()));
    assert_eq!(config_plaintext(b"[ab\x11".to_vec()), Ok(b"[ab\x11".to_vec()));
    assert_eq!(config_plaintext(b"[\x01".to_vec()), Err(DecryptError::NotConfig));
    assert_eq!(config_plaintext(vec![2, 2]), Err(DecryptError::NotConfig));
}

#[test]
fn files_are_looked_for_in_order() {
    let m = map_candidates("/data/x");
    assert_eq!(m[0], "/data/vendor/thermal/config/thermal-map.conf");
    assert_eq!(m[3], "/data/x/thermal-map.conf");
    assert_eq!(choose_map("/d", &vec![false, false, true, true]), "/vendor/etc/thermal-map.conf");
    assert_eq!(choose_map("/d", &vec![false; 4]), m[0]);
    assert_eq!(first_existing(&vec![false, true]), Some(1));
    assert_eq!(first_existing(&vec![]), None);
    assert_eq!(
        scenario_candidates("a.conf", "/d"),
        vec!["/odm/etc/a.conf", "/vendor/etc/a.conf", "/d/config/a.conf"]
    );
    assert_eq!(map_plain_path(), "/data/vendor/thermal/thermald_decrypt/thermal-map.txt");
    assert_eq!(
        scenario_plain_path("a.conf"),
        "/data/vendor/thermal/thermald_decrypt/a.conf.txt"
    );
}

#[test]
fn scenarios_fall_back_to_the_plain_file() {
    let e = vec![false, true, true];
    assert_eq!(
        resolve_scenario_path("a.conf", "/d", &e, true),
        Some("/data/vendor/thermal/thermald_decrypt/a.conf.txt".to_string())
    );
    assert_eq!(
        resolve_scenario_path("a.conf", "/d", &e, false),
        Some("/vendor/etc/a.conf".to_string())
    );
    assert_eq!(resolve_scenario_path("a.conf", "/d", &vec![false; 3], true), None);
}
