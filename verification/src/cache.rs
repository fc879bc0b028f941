//! Cache keys for synthesized speech, and the expected places of model,
//! configuration and cached output files.
//!
//! A request is keyed by the SHA-256 digest, written in lowercase hex, of
//! `model_path::config_path::trimmed_text` — or by an explicit key, which
//! bypasses the digest.  Identical requests therefore share one key, and
//! a request whose output already exists is not synthesized again unless
//! regeneration is forced.

use vstd::prelude::*;

use crate::paths::{join_path, spec_join_path};
use crate::plan::TTSSpec;

verus! {

/// The SHA-256 digest of the text's bytes.
pub uninterp spec fn sha256_of(s: Seq<char>) -> Seq<u8>;

/// Relies on `sha2::Sha256`: the digest depends on the input bytes alone
/// and is 32 bytes long.
#[verifier::external_body]
fn sha256_digest(s: &str) -> (r: Vec<u8>)
    ensures
        r@ == sha256_of(s@),
        r@.len() == 32,
{
    <sha2::Sha256 as sha2::Digest>::digest(s.as_bytes()).to_vec()
}

/// The text with leading and trailing whitespace removed.
pub uninterp spec fn trimmed_of(s: Seq<char>) -> Seq<char>;

/// Relies on `str::trim`: removes leading and trailing whitespace, a
/// function of the text alone.
#[verifier::external_body]
fn trim_text(s: &str) -> (r: String)
    ensures
        r@ == trimmed_of(s@),
        r@.len() <= s@.len(),
{
    s.trim().to_string()
}

/// The lowercase hex digit for a value below sixteen.
pub open spec fn hex_digit(v: int) -> char {
    if v == 0 {
        '0'
    } else if v == 1 {
        '1'
    } else if v == 2 {
        '2'
    } else if v == 3 {
        '3'
    } else if v == 4 {
        '4'
    } else if v == 5 {
        '5'
    } else if v == 6 {
        '6'
    } else if v == 7 {
        '7'
    } else if v == 8 {
        '8'
    } else if v == 9 {
        '9'
    } else if v == 10 {
        'a'
    } else if v == 11 {
        'b'
    } else if v == 12 {
        'c'
    } else if v == 13 {
        'd'
    } else if v == 14 {
        'e'
    } else {
        'f'
    }
}

/// Lowercase hex text of a byte sequence: two digits per byte, high
/// nibble first.
pub open spec fn hex_of(bytes: Seq<u8>) -> Seq<char>
    decreases bytes.len(),
{
    if bytes.len() == 0 {
        Seq::empty()
    } else {
        hex_of(bytes.drop_last()) + seq![
            hex_digit(bytes.last() as int / 16),
            hex_digit(bytes.last() as int % 16),
        ]
    }
}

/// The one-character text for a hex digit value.
fn hex_digit_str(v: u8) -> (r: &'static str)
    requires
        v < 16,
    ensures
        r@ == seq![hex_digit(v as int)],
{
    proof {
        reveal_strlit("0");
        reveal_strlit("1");
        reveal_strlit("2");
        reveal_strlit("3");
        reveal_strlit("4");
        reveal_strlit("5");
        reveal_strlit("6");
        reveal_strlit("7");
        reveal_strlit("8");
        reveal_strlit("9");
        reveal_strlit("a");
        reveal_strlit("b");
        reveal_strlit("c");
        reveal_strlit("d");
        reveal_strlit("e");
        reveal_strlit("f");
    }
    if v == 0 {
        "0"
    } else if v == 1 {
        "1"
    } else if v == 2 {
        "2"
    } else if v == 3 {
        "3"
    } else if v == 4 {
        "4"
    } else if v == 5 {
        "5"
    } else if v == 6 {
        "6"
    } else if v == 7 {
        "7"
    } else if v == 8 {
        "8"
    } else if v == 9 {
        "9"
    } else if v == 10 {
        "a"
    } else if v == 11 {
        "b"
    } else if v == 12 {
        "c"
    } else if v == 13 {
        "d"
    } else if v == 14 {
        "e"
    } else {
        "f"
    }
}

/// Write a byte sequence as lowercase hex, two digits per byte.
pub fn encode_hex(bytes: &Vec<u8>) -> (r: String)
    ensures
        r@ == hex_of(bytes@),
        r@.len() == 2 * bytes@.len(),
{
    let mut r = String::new();
    let n = bytes.len();
    let mut i: usize = 0;
    while i < n
        invariant
            i <= n,
            n == bytes@.len(),
            r@ == hex_of(bytes@.take(i as int)),
            r@.len() == 2 * i,
        decreases n - i,
    {
        let b = bytes[i];
        let hi = b / 16;
        let lo = b % 16;
        r.append(hex_digit_str(hi));
        r.append(hex_digit_str(lo));
        proof {
            let pre = bytes@.take(i + 1 as int);
            assert(pre.drop_last() =~= bytes@.take(i as int));
            assert(pre.last() == bytes@[i as int]);
            assert(r@ =~= hex_of(bytes@.take(i + 1 as int)));
        }
        i = i + 1;
    }
    proof {
        assert(bytes@.take(n as int) =~= bytes@);
    }
    r
}

/// The text whose digest keys a request: the canonical model path, the
/// canonical configuration path and the trimmed text, joined by `::`.
pub open spec fn spec_key_source(
    model_path: Seq<char>,
    config_path: Seq<char>,
    text: Seq<char>,
) -> Seq<char> {
    model_path + seq![':', ':'] + config_path + seq![':', ':'] + trimmed_of(text)
}

/// The cache key a request derives when it carries no explicit key.
pub open spec fn spec_derived_key(
    model_path: Seq<char>,
    config_path: Seq<char>,
    text: Seq<char>,
) -> Seq<char> {
    hex_of(sha256_of(spec_key_source(model_path, config_path, text)))
}

/// The key a synthesized-speech result is cached under: the trimmed
/// explicit key when one is given, else the hex SHA-256 digest of
/// `model_path::config_path::trimmed_text`.
pub fn cache_key(explicit: &Option<String>, model_path: &str, config_path: &str, text: &str) -> (r:
    String)
    ensures
        explicit matches Some(k) ==> r@ == trimmed_of(k@),
        explicit is None ==> r@ == spec_derived_key(model_path@, config_path@, text@),
{
    match explicit {
        Some(k) => trim_text(k.as_str()),
        None => {
            proof {
                reveal_strlit("::");
            }
            let mut source = String::from_str(model_path);
            source.append("::");
            source.append(config_path);
            source.append("::");
            let trimmed = trim_text(text);
            source.append(trimmed.as_str());
            proof {
                assert(source@ =~= spec_key_source(model_path@, config_path@, text@));
            }
            let digest = sha256_digest(source.as_str());
            encode_hex(&digest)
        },
    }
}

/// Law: the derived cache key is a function of the model path, the
/// configuration path and the trimmed text alone — two requests with
/// identical inputs and no explicit key share one key, so the second
/// finds the first one's cached output.
pub proof fn lemma_cache_key_deterministic(
    m1: Seq<char>,
    c1: Seq<char>,
    t1: Seq<char>,
    m2: Seq<char>,
    c2: Seq<char>,
    t2: Seq<char>,
)
    requires
        m1 == m2,
        c1 == c2,
        trimmed_of(t1) == trimmed_of(t2),
    ensures
        spec_derived_key(m1, c1, t1) == spec_derived_key(m2, c2, t2),
{
    assert(spec_key_source(m1, c1, t1) == spec_key_source(m2, c2, t2));
}

/// Whether synthesis must run: only when regeneration is forced or no
/// cached output exists.
pub open spec fn spec_should_generate(cached_exists: bool, force: bool) -> bool {
    force || !cached_exists
}

/// Decide whether to synthesize: a cache hit is reused silently unless
/// regeneration is forced.
pub fn should_generate(cached_exists: bool, force: bool) -> (r: bool)
    ensures
        r == spec_should_generate(cached_exists, force),
{
    force || !cached_exists
}

impl TTSSpec {
    /// The model file's expected place: the model name under the model
    /// directory.
    pub fn model_path(&self, model_dir: &str) -> (r: String)
        ensures
            r@ == spec_join_path(model_dir@, self.model@),
    {
        join_path(model_dir, self.model.as_str())
    }

    /// The model configuration file's expected place: the named file
    /// under the model directory when one is given, else the model name
    /// with `.json` appended.
    pub fn config_path(&self, model_dir: &str) -> (r: String)
        ensures
            self.config matches Some(c) ==> r@ == spec_join_path(model_dir@, c@),
            self.config is None ==> r@ == spec_join_path(model_dir@, self.model@ + ".json"@),
    {
        match &self.config {
            Some(c) => join_path(model_dir, c.as_str()),
            None => {
                let mut name = self.model.clone();
                name.append(".json");
                join_path(model_dir, name.as_str())
            },
        }
    }

    /// Where this request's synthesized waveform is cached: `_tts_` and
    /// the key, under the audio directory.
    pub fn out_path(&self, audio_dir: &str, key: &str) -> (r: String)
        ensures
            r@ == spec_join_path(audio_dir@, "_tts_"@ + key@),
    {
        let mut name = String::from_str("_tts_");
        name.append(key);
        join_path(audio_dir, name.as_str())
    }

    /// The cache key of this request, given the canonical model and
    /// configuration paths.
    pub fn get_key(&self, model_canon: &str, config_canon: &str) -> (r: String)
        ensures
            self.key matches Some(k) ==> r@ == trimmed_of(k@),
            self.key is None ==> r@ == spec_derived_key(model_canon@, config_canon@, self.text@),
    {
        cache_key(&self.key, model_canon, config_canon, self.text.as_str())
    }
}

} // verus!
