//! Encrypted configuration files: decryption, and where the files are.

use aes::Aes128;
use cbc::cipher::block_padding::{NoPadding, UnpadError};
use cbc::cipher::generic_array::GenericArray;
use cbc::cipher::{BlockDecryptMut, KeyIvInit};
use cbc::Decryptor;
use vstd::prelude::*;

use crate::text::join;
#[allow(unused_imports)]
use crate::text::texts;
use crate::types::{MI_THERMALD_CONFIG_DIR, MI_THERMALD_DECRYPT_DIR};

verus! {

// ---------------------------------------------------------------------------
// The cipher
// ---------------------------------------------------------------------------

/// The error of a failed decryption.
#[verifier::external_type_specification]
#[verifier::external_body]
pub struct ExUnpadError(UnpadError);

/// The AES-128 decryption of whole blocks in cipher block chaining mode.
pub uninterp spec fn aes128_cbc_plain(key: Seq<u8>, iv: Seq<u8>, data: Seq<u8>) -> Seq<u8>;

/// `cbc::Decryptor::<Aes128>::decrypt_padded_mut` without padding. It fails
/// exactly on data that is no whole number of 16-byte blocks. Otherwise the
/// result has the length of the data, and depends on key, initial vector and
/// data alone. Key and initial vector must have 16 bytes each.
#[verifier::external_body]
fn decrypt_blocks(key: &[u8], iv: &[u8], data: &[u8]) -> (r: Result<Vec<u8>, UnpadError>)
    requires
        key@.len() == 16,
        iv@.len() == 16,
    ensures
        r is Ok <==> data@.len() % 16 == 0,
        r is Ok ==> r->Ok_0@ == aes128_cbc_plain(key@, iv@, data@),
        r is Ok ==> r->Ok_0@.len() == data@.len(),
{
    let mut buf = data.to_vec();
    Decryptor::<Aes128>::new(GenericArray::from_slice(key), GenericArray::from_slice(iv))
        .decrypt_padded_mut::<NoPadding>(&mut buf)
        .map(|plain| plain.to_vec())
}

/// The fixed key of the configuration files, which is their initial vector too.
pub open spec fn config_key() -> Seq<u8> {
    seq![
        0x74u8,
        0x68,
        0x65,
        0x72,
        0x6d,
        0x61,
        0x6c,
        0x6f,
        0x70,
        0x65,
        0x6e,
        0x73,
        0x73,
        0x6c,
        0x2e,
        0x68,
    ]
}

fn config_key_bytes() -> (r: Vec<u8>)
    ensures
        r@ == config_key(),
{
    let r: Vec<u8> = vec![
        0x74,
        0x68,
        0x65,
        0x72,
        0x6d,
        0x61,
        0x6c,
        0x6f,
        0x70,
        0x65,
        0x6e,
        0x73,
        0x73,
        0x6c,
        0x2e,
        0x68,
    ];
    assert(r@ =~= config_key());
    r
}

// ---------------------------------------------------------------------------
// Plaintext
// ---------------------------------------------------------------------------

#[derive(Debug, Clone, Copy, PartialEq, Eq, Structural)]
pub enum DecryptError {
    /// The file is no whole number of blocks, and so is no encrypted file.
    Unaligned,
    /// The plaintext does not start like a configuration.
    NotConfig,
}

/// Do the last bytes of `p` say how many of them are padding?
pub open spec fn is_padded(p: Seq<u8>) -> bool {
    p.len() > 0 && 0 < p.last() <= 16 && p.last() < p.len() && forall|i: int|
        p.len() - p.last() <= i < p.len() ==> #[trigger] p[i] == p.last()
}

/// The text without its padding. A text that is not padded is left alone.
pub open spec fn stripped(p: Seq<u8>) -> Seq<u8> {
    if is_padded(p) {
        p.take(p.len() - p.last())
    } else {
        p
    }
}

/// Does a text start like a configuration, with a bracket?
pub open spec fn looks_like_config(p: Seq<u8>) -> bool {
    p.len() >= 2 && p[0] == 0x5b
}

/// The configuration in a decrypted text.
pub open spec fn config_in(p: Seq<u8>) -> Result<Seq<u8>, DecryptError> {
    if looks_like_config(stripped(p)) {
        Ok(stripped(p))
    } else {
        Err(DecryptError::NotConfig)
    }
}

/// The configuration in the content of an encrypted file.
pub open spec fn decrypted(data: Seq<u8>) -> Result<Seq<u8>, DecryptError> {
    if data.len() % 16 != 0 {
        Err(DecryptError::Unaligned)
    } else {
        config_in(aes128_cbc_plain(config_key(), config_key(), data))
    }
}

pub open spec fn bytes_view(r: Result<Vec<u8>, DecryptError>) -> Result<Seq<u8>, DecryptError> {
    match r {
        Ok(v) => Ok(v@),
        Err(e) => Err(e),
    }
}

/// The configuration in a decrypted text: the text without its padding, if it
/// starts like one.
pub fn config_plaintext(plain: Vec<u8>) -> (r: Result<Vec<u8>, DecryptError>)
    ensures
        bytes_view(r) == config_in(plain@),
{
    let mut text = plain;
    let ghost p = text@;
    let n: usize = text.len();
    if n > 0 {
        let pad: usize = text[n - 1] as usize;
        if pad > 0 && pad <= 16 && pad < n {
            let mut i: usize = n - pad;
            while i < n && text[i] as usize == pad
                invariant
                    n == text@.len(),
                    p == text@,
                    0 < pad < n,
                    pad == p.last(),
                    n - pad <= i <= n,
                    forall|k: int| n - pad <= k < i ==> #[trigger] p[k] == p.last(),
                decreases n - i,
            {
                i += 1;
            }
            if i == n {
                assert(is_padded(p));
                text.truncate(n - pad);
                assert(text@ =~= stripped(p));
            } else {
                assert(p[i as int] != p.last());
            }
        }
    }
    assert(text@ == stripped(p));
    if text.len() < 2 || text[0] != 0x5b {
        return Err(DecryptError::NotConfig);
    }
    Ok(text)
}

/// Decrypts the content of a configuration file.
pub fn decrypt_config_file(encrypted: &Vec<u8>) -> (r: Result<Vec<u8>, DecryptError>)
    ensures
        bytes_view(r) == decrypted(encrypted@),
{
    if encrypted.len() % 16 != 0 {
        return Err(DecryptError::Unaligned);
    }
    let key = config_key_bytes();
    match decrypt_blocks(key.as_slice(), key.as_slice(), encrypted.as_slice()) {
        Ok(plain) => config_plaintext(plain),
        Err(_) => Err(DecryptError::Unaligned),
    }
}

/// Padding that was added to a text is removed again.
pub proof fn law_padding_is_removed(p: Seq<u8>, n: u8)
    requires
        p.len() > 0,
        0 < n <= 16,
    ensures
        stripped(p + Seq::new(n as nat, |i: int| n)) == p,
{
    let q = p + Seq::new(n as nat, |i: int| n);
    assert(q.last() == n);
    assert(is_padded(q));
    assert(q.take(p.len() as int) =~= p);
}

// ---------------------------------------------------------------------------
// Files
// ---------------------------------------------------------------------------

/// Where the scenario map may be, in the order of preference.
pub open spec fn map_locations(data_path: Seq<char>) -> Seq<Seq<char>> {
    seq![
        MI_THERMALD_CONFIG_DIR@ + "/thermal-map.conf"@,
        "/odm/etc/thermal-map.conf"@,
        "/vendor/etc/thermal-map.conf"@,
        data_path + "/thermal-map.conf"@,
    ]
}

/// Where the configuration of a scenario may be, in the order of preference.
pub open spec fn scenario_locations(fname: Seq<char>, data_path: Seq<char>) -> Seq<Seq<char>> {
    seq![
        "/odm/etc/"@ + fname,
        "/vendor/etc/"@ + fname,
        data_path + "/config/"@ + fname,
    ]
}

/// Where the decrypted configuration of a scenario goes.
pub open spec fn plain_location(fname: Seq<char>) -> Seq<char> {
    MI_THERMALD_DECRYPT_DIR@ + "/"@ + fname + ".txt"@
}

/// The first position that holds, or the length.
pub open spec fn first_true(v: Seq<bool>) -> int
    decreases v.len(),
{
    if v.len() == 0 || v[0] {
        0
    } else {
        1 + first_true(v.skip(1))
    }
}

pub fn map_candidates(data_path: &str) -> (r: Vec<String>)
    ensures
        texts(r@) == map_locations(data_path@),
{
    let mut v: Vec<String> = Vec::new();
    v.push(join(MI_THERMALD_CONFIG_DIR, "/thermal-map.conf"));
    v.push("/odm/etc/thermal-map.conf".to_string());
    v.push("/vendor/etc/thermal-map.conf".to_string());
    v.push(join(data_path, "/thermal-map.conf"));
    assert(texts(v@) =~= map_locations(data_path@));
    v
}

pub fn scenario_candidates(fname: &str, data_path: &str) -> (r: Vec<String>)
    ensures
        texts(r@) == scenario_locations(fname@, data_path@),
{
    let mut v: Vec<String> = Vec::new();
    v.push(join("/odm/etc/", fname));
    v.push(join("/vendor/etc/", fname));
    let dir = join(data_path, "/config/");
    v.push(join(dir.as_str(), fname));
    assert(texts(v@) =~= scenario_locations(fname@, data_path@));
    v
}

/// The first file that exists.
pub fn first_existing(exists: &Vec<bool>) -> (r: Option<usize>)
    ensures
        match r {
            Some(i) => i < exists@.len() && i == first_true(exists@),
            None => first_true(exists@) == exists@.len(),
        },
{
    let mut i: usize = 0;
    assert(exists@.skip(0) =~= exists@);
    while i < exists.len()
        invariant
            i <= exists@.len(),
            first_true(exists@) == i + first_true(exists@.skip(i as int)),
        decreases exists@.len() - i,
    {
        assert(exists@.skip(i as int)[0] == exists@[i as int]);
        assert(exists@.skip(i as int).skip(1) =~= exists@.skip(i + 1));
        if exists[i] {
            return Some(i);
        }
        i += 1;
    }
    None
}

/// The map that is read: the first that exists, or else the preferred one.
pub fn choose_map(data_path: &str, exists: &Vec<bool>) -> (r: String)
    requires
        exists@.len() == 4,
    ensures
        r@ == map_locations(data_path@)[if first_true(exists@) < 4 {
            first_true(exists@)
        } else {
            0
        }],
{
    let v = map_candidates(data_path);
    assert(texts(v@).len() == v@.len());
    let i: usize = match first_existing(exists) {
        Some(i) => i,
        None => 0,
    };
    assert(texts(v@)[i as int] == v@[i as int]@);
    v[i].clone()
}

/// Where the decrypted map goes.
pub fn map_plain_path() -> (r: String)
    ensures
        r@ == MI_THERMALD_DECRYPT_DIR@ + "/thermal-map.txt"@,
{
    join(MI_THERMALD_DECRYPT_DIR, "/thermal-map.txt")
}

/// Where the decrypted configuration of a scenario goes.
pub fn scenario_plain_path(fname: &str) -> (r: String)
    ensures
        r@ == plain_location(fname@),
{
    let dir = join(MI_THERMALD_DECRYPT_DIR, "/");
    let path = join(dir.as_str(), fname);
    join(path.as_str(), ".txt")
}

/// The file that a scenario is read from: its decrypted configuration, or the
/// file itself where that could not be decrypted. There is none where no file
/// exists.
pub fn resolve_scenario_path(
    fname: &str,
    data_path: &str,
    exists: &Vec<bool>,
    decryptable: bool,
) -> (r: Option<String>)
    requires
        exists@.len() == 3,
    ensures
        match r {
            Some(p) => first_true(exists@) < 3 && p@ == (if decryptable {
                plain_location(fname@)
            } else {
                scenario_locations(fname@, data_path@)[first_true(exists@)]
            }),
            None => first_true(exists@) == 3,
        },
{
    let v = scenario_candidates(fname, data_path);
    assert(texts(v@).len() == v@.len());
    match first_existing(exists) {
        Some(i) => {
            assert(texts(v@)[i as int] == v@[i as int]@);
            if decryptable {
                Some(scenario_plain_path(fname))
            } else {
                Some(v[i].clone())
            }
        },
        None => None,
    }
}

/// The key is sixteen letters.
pub proof fn law_key_is_a_text(i: int)
    requires
        0 <= i < 16,
    ensures
        config_key().len() == 16,
        config_key()[i] == "thermalopenssl.h"@[i] as u8,
{
    reveal_strlit("thermalopenssl.h");
}

/// What is not padding stays: a text whose last byte is no count from 1 to 16, or counts more
/// than there is, or whose last bytes differ from it.
pub proof fn law_unpadded_texts_stay(p: Seq<u8>, i: int)
    ensures
        p.len() == 0 ==> stripped(p) == p,
        p.len() > 0 && (p.last() == 0 || p.last() > 16 || p.last() >= p.len()) ==> stripped(p) == p,
        p.len() > 0 && p.len() - p.last() <= i < p.len() && i >= 0 && p[i] != p.last()
            ==> stripped(p) == p,
        stripped(p).len() <= p.len() <= stripped(p).len() + 16,
        p.take(stripped(p).len() as int) == stripped(p),
{
    assert(p.take(p.len() as int) =~= p);
}

/// A decrypted text is a configuration where it has two bytes or more and begins with a
/// bracket, once the padding is off; nothing else of it is looked at.
pub proof fn law_configurations_begin_with_a_bracket(p: Seq<u8>)
    ensures
        config_in(p) is Ok <==> stripped(p).len() > 1 && stripped(p)[0] == '[' as u8,
        config_in(p) is Ok ==> config_in(p)->Ok_0 == stripped(p),
        config_in(p) is Err ==> config_in(p)->Err_0 == DecryptError::NotConfig,
{
}

/// Only whole blocks of sixteen bytes are decrypted, with the key as key and initial vector.
pub proof fn law_whole_blocks_are_decrypted(data: Seq<u8>, blocks: int, rest: int)
    requires
        0 <= rest < 16,
        data.len() == 16 * blocks + rest,
    ensures
        rest != 0 ==> decrypted(data) == Err::<Seq<u8>, DecryptError>(DecryptError::Unaligned),
        rest == 0 ==> decrypted(data) == config_in(
            aes128_cbc_plain(config_key(), config_key(), data),
        ),
{
}

/// Where configurations are looked for: the map first among the own files, scenarios first
/// among those of the device; decrypted ones go to a directory of their own.
pub proof fn law_locations(fname: Seq<char>, data_path: Seq<char>)
    ensures
        map_locations(data_path).len() == 4,
        map_locations(data_path)[0] == "/data/vendor/thermal/config"@ + "/thermal-map.conf"@,
        map_locations(data_path)[1] == "/odm/etc/thermal-map.conf"@,
        map_locations(data_path)[2] == "/vendor/etc/thermal-map.conf"@,
        map_locations(data_path)[3] == data_path + "/thermal-map.conf"@,
        scenario_locations(fname, data_path).len() == 3,
        scenario_locations(fname, data_path)[0] == "/odm/etc/"@ + fname,
        scenario_locations(fname, data_path)[1] == "/vendor/etc/"@ + fname,
        scenario_locations(fname, data_path)[2] == data_path + "/config/"@ + fname,
        plain_location(fname) == "/data/vendor/thermal/thermald_decrypt"@ + "/"@ + fname + ".txt"@,
{
}

/// The first of some places that exists is chosen.
pub proof fn law_first_true(v: Seq<bool>, k: int)
    ensures
        0 <= k < v.len() && v[k] && (forall|i: int| 0 <= i < k ==> !#[trigger] v[i])
            ==> first_true(v) == k,
        (forall|i: int| 0 <= i < v.len() ==> !#[trigger] v[i]) ==> first_true(v) == v.len(),
    decreases v.len(),
{
    if v.len() > 0 && !v[0] {
        law_first_true(v.skip(1), k - 1);
        if 0 < k < v.len() {
            assert(v.skip(1)[k - 1] == v[k]);
        }
    }
}

} // verus!
