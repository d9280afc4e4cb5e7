//! Passwords of users, by the hash field of an account.

use vstd::prelude::*;
use vstd::utf8::*;

use crate::argon::{check_runnable, encoded_new, encoded_verify, holds_session, Variant};
use crate::number::to_hex_upper;

verus! {

/// How many seconds a wrong password costs
pub const TIMEOUT: u64 = 3;

/// How often Argon2 goes over its memory
pub const PASSES: u32 = 10;

/// How many lanes Argon2 works on
pub const LANES: u32 = 1;

/// How much memory Argon2 works on, in KiB
pub const KIB: u32 = 4096;

/// The least number with the eight hexadecimal digits that a salt needs
pub const MIN_NONCE: u64 = 0x1000_0000;

/// `hash` is a serialized hashing session.
pub open spec fn has_session(hash: Seq<char>) -> bool {
    crate::argon::is_session(encode_utf8(hash))
}

/// Anyone can log in without a password.
pub open spec fn is_blank(hash: Seq<char>) -> bool {
    hash.len() == 0
}

/// Nobody can log in: `hash` is neither empty nor a serialized hashing session.
pub open spec fn is_unset(hash: Seq<char>) -> bool {
    !is_blank(hash) && !has_session(hash)
}

/// `password` opens an account with the given hash field.
pub open spec fn accepts(hash: Seq<char>, password: Seq<char>) -> bool {
    if has_session(hash) {
        crate::argon::session_accepts(encode_utf8(hash), encode_utf8(password))
    } else {
        is_blank(hash) && password.len() == 0
    }
}

/// Argon2 can be asked whether `password` is right.
pub open spec fn can_verify(hash: Seq<char>, password: Seq<char>) -> bool {
    has_session(hash) ==> {
        &&& crate::argon::is_runnable(encode_utf8(hash))
        &&& encode_utf8(password).len() <= u32::MAX
    }
}

/// The hash field for `password`, from Argon2i without a secret key and without
/// associated data, with the hexadecimal digits of `nonce` as salt.
pub open spec fn salted_hash(password: Seq<char>, nonce: u64) -> Seq<char> {
    decode_utf8(
        crate::argon::new_session(
            Variant::Argon2i,
            PASSES,
            LANES,
            KIB,
            encode_utf8(password),
            encode_utf8(crate::number::hex_upper(nonce as nat)),
            seq![],
            seq![],
        ),
    )
}

/// The hash field of an account, and whether it is a serialized hashing session. The
/// field holds no semicolon, so that it stays one field in the entry of the account.
#[derive(Debug)]
pub struct Password {
    hash: String,
    encoded: bool,
}

impl View for Password {
    type V = Seq<char>;

    closed spec fn view(&self) -> Seq<char> {
        self.hash@
    }
}

/// Calls [`String::from_utf8`], which takes the bytes for UTF-8 and gives back the
/// string that they encode, or fails where they are not valid UTF-8.
#[verifier::external_body]
fn string_from_utf8(bytes: Vec<u8>) -> (res: Option<String>)
    ensures
        res is Some == valid_utf8(bytes@),
        res matches Some(s) ==> s@ == decode_utf8(bytes@),
{
    String::from_utf8(bytes).ok()
}

/// Calls [`rand::os::OsRng::new`] and, on the generator that it gives,
/// [`rand::Rng::next_u64`]; the error is given as its text. Which number comes
/// back is chance, and whether one does depends on the operating system, so
/// nothing is claimed of the result. The second call panics where the operating
/// system stops giving random bytes.
#[verifier::external_body]
pub(crate) fn os_random() -> (res: Result<u64, String>) {
    match rand::os::OsRng::new() {
        Ok(mut rng) => Ok(rand::Rng::next_u64(&mut rng)),
        Err(e) => Err(e.to_string()),
    }
}

/// `drawn` is one that drawing a random number can give, or the reason why none comes.
pub closed spec fn is_draw(drawn: Result<u64, String>) -> bool {
    call_ensures(os_random, (), drawn)
}

/// Nothing counts as drawn but what [`os_random`] can give.
proof fn law_draw(drawn: Result<u64, String>)
    ensures
        is_draw(drawn) <==> call_ensures(os_random, (), drawn),
{
}

/// Draws a random number
pub(crate) fn draw() -> (res: Result<u64, String>)
    ensures
        is_draw(res),
{
    os_random()
}

/// The bytes of a session are the characters of its text.
proof fn lemma_session_text(text: Seq<u8>)
    requires
        crate::argon::has_session_bytes(text),
    ensures
        valid_utf8(text),
        encode_utf8(decode_utf8(text)) == text,
        decode_utf8(text).len() == text.len(),
        forall|i: int|
            0 <= i < text.len() ==> text[i] == #[trigger] decode_utf8(text)[i] as u8,
        is_ascii_chars(decode_utf8(text)),
{
    let chars = Seq::new(text.len(), |i: int| text[i] as char);
    assert forall|i: int| 0 <= i < chars.len() implies '\0' <= #[trigger] chars[i] <= '\u{7f}' by {
        assert(crate::argon::is_session_byte(text[i]));
    }
    is_ascii_chars_encode_utf8(chars);
    assert forall|i: int| 0 <= i < text.len() implies #[trigger] encode_utf8(chars)[i]
        == text[i] by {
        assert(crate::argon::is_session_byte(text[i]));
        assert(chars[i] as u8 == text[i]);
    }
    assert(encode_utf8(chars) == text);
    encode_utf8_valid_utf8(chars);
    encode_utf8_decode_utf8(chars);
}

impl Password {
    #[verifier::type_invariant]
    spec fn consistent(self) -> bool {
        &&& self.encoded == has_session(self.hash@)
        &&& !self.hash@.contains(';')
    }

    /// The password of an account that anyone can log in to
    pub fn blank() -> (res: Password)
        ensures
            is_blank(res@),
            res@.len() == 0,
    {
        let hash: String = String::new();
        proof {
            lemma_short_is_no_session(hash@);
        }
        Password { hash, encoded: false }
    }

    /// The password of an account that nobody can log in to
    pub fn unset() -> (res: Password)
        ensures
            res@ == "!"@,
    {
        let hash: String = "!".to_owned();
        proof {
            reveal_strlit("!");
            lemma_short_is_no_session(hash@);
        }
        Password { hash, encoded: false }
    }

    /// The password with the given hash field
    pub(crate) fn from_hash(hash: &str) -> (res: Password)
        requires
            !hash@.contains(';'),
        ensures
            res@ == hash@,
    {
        Password { hash: hash.to_owned(), encoded: holds_session(hash.as_bytes()) }
    }

    /// Hashes `password`, with the hexadecimal digits of `nonce` as salt
    pub fn salted(password: &str, nonce: u64) -> (res: Password)
        requires
            nonce >= MIN_NONCE,
            encode_utf8(password@).len() <= u32::MAX,
        ensures
            res@ == salted_hash(password@, nonce),
            encode_utf8(res@) == crate::argon::new_session(
                Variant::Argon2i,
                10,
                1,
                4096,
                encode_utf8(password@),
                encode_utf8(crate::number::hex_upper(nonce as nat)),
                seq![],
                seq![],
            ),
            has_session(res@),
            "$argon2i$m=4096,t=10,p=1$"@.is_prefix_of(res@),
            can_verify(res@, password@),
            accepts(res@, password@),
            crate::text::is_field(res@),
    {
        let salt: String = to_hex_upper(nonce);
        proof {
            crate::number::lemma_hex_ascii(nonce as nat);
            crate::number::lemma_hex_len(nonce);
            is_ascii_chars_encode_utf8(salt@);
        }
        let nothing: [u8; 0] = [];
        proof {
            assert(nothing@ == Seq::<u8>::empty());
        }
        let session: Result<Vec<u8>, argon2rs::ParamErr> = encoded_new(
            Variant::Argon2i,
            PASSES,
            LANES,
            KIB,
            password.as_bytes(),
            salt.as_str().as_bytes(),
            &nothing,
            &nothing,
        );
        match session {
            Ok(text) => {
                let ghost bytes = text@;
                proof {
                    lemma_session_text(bytes);
                    lemma_session_is_field(bytes);
                    lemma_salted_start(bytes);
                }
                match string_from_utf8(text) {
                    Some(hash) => Password { hash, encoded: true },
                    None => {
                        assert(false);
                        Password::unset()
                    },
                }
            },
            Err(_) => {
                assert(false);
                Password::unset()
            },
        }
    }

    /// The hash field, which holds no semicolon
    pub fn hash(&self) -> (res: &str)
        ensures
            res@ == self@,
            !res@.contains(';'),
    {
        proof {
            use_type_invariant(self);
        }
        self.hash.as_str()
    }

    /// Whether the hash field is a serialized hashing session
    pub fn is_encoded(&self) -> (res: bool)
        ensures
            res == has_session(self@),
    {
        proof {
            use_type_invariant(self);
        }
        self.encoded
    }

    /// Whether the hash field is empty
    pub fn is_blank(&self) -> (res: bool)
        ensures
            res == is_blank(self@),
            res == (self@.len() == 0),
    {
        self.hash.as_str().is_empty()
    }

    /// Whether Argon2 can be asked if `password` is right
    pub fn can_verify(&self, password: &str) -> (res: bool)
        ensures
            res == can_verify(self@, password@),
            !has_session(self@) ==> res,
            has_session(self@) ==> res == (crate::argon::is_runnable(encode_utf8(self@))
                && encode_utf8(password@).len() <= u32::MAX),
    {
        proof {
            use_type_invariant(self);
        }
        if !self.encoded {
            return true;
        }
        password.as_bytes().len() <= u32::MAX as usize && check_runnable(
            self.hash.as_str().as_bytes(),
        )
    }

    /// Whether `password` is right
    pub fn verify(&self, password: &str) -> (res: bool)
        requires
            can_verify(self@, password@),
        ensures
            res == accepts(self@, password@),
            has_session(self@) ==> res == crate::argon::session_accepts(
                encode_utf8(self@),
                encode_utf8(password@),
            ),
            !has_session(self@) ==> res == (self@.len() == 0 && password@.len() == 0),
    {
        proof {
            use_type_invariant(self);
        }
        let answer: Option<bool> = if self.encoded {
            Some(encoded_verify(self.hash.as_str().as_bytes(), password.as_bytes()))
        } else {
            None
        };
        is_right(self.hash.as_str(), password, answer)
    }
}

/// Whether `password` opens an account with the given hash field, where `answer` is
/// what the hashing session says to it, if the hash field is one.
pub fn is_right(hash: &str, password: &str, answer: Option<bool>) -> (res: bool)
    ensures
        res == match answer {
            Some(verified) => verified,
            None => is_blank(hash@) && password@.len() == 0,
        },
        answer is None ==> res == (hash@.len() == 0 && password@.len() == 0),
{
    match answer {
        Some(verified) => verified,
        None => hash.is_empty() && password.is_empty(),
    }
}

/// How many seconds to wait after a password was found right or wrong
pub fn delay(verified: bool) -> (res: u64)
    ensures
        res == if verified {
            0
        } else {
            TIMEOUT
        },
        verified ==> res == 0,
        !verified ==> res == 3,
{
    if verified {
        0
    } else {
        TIMEOUT
    }
}

/// A text of fewer than four characters is no session.
proof fn lemma_short_is_no_session(hash: Seq<char>)
    requires
        hash.len() < 4,
        is_ascii_chars(hash),
    ensures
        !has_session(hash),
{
    is_ascii_chars_encode_utf8(hash);
    crate::text::lemma_split_len(encode_utf8(hash), 36u8);
}

/// The text of a session can stand in a field.
proof fn lemma_session_is_field(text: Seq<u8>)
    requires
        crate::argon::has_session_bytes(text),
    ensures
        crate::text::is_field(decode_utf8(text)),
{
    lemma_session_text(text);
    let chars = decode_utf8(text);
    assert forall|i: int| 0 <= i < chars.len() implies chars[i] != ';' && chars[i] != '\n' by {
        assert(crate::argon::is_session_byte(text[i]));
        assert(text[i] == chars[i] as u8);
    }
}

/// The text of a session with the parameters of this crate starts with them.
proof fn lemma_salted_start(text: Seq<u8>)
    requires
        crate::argon::has_session_bytes(text),
        encode_utf8(
            crate::argon::session_start(Variant::Argon2i, PASSES, LANES, KIB, false),
        ).is_prefix_of(text),
    ensures
        "$argon2i$m=4096,t=10,p=1$"@.is_prefix_of(decode_utf8(text)),
{
    let start = crate::argon::session_start(Variant::Argon2i, PASSES, LANES, KIB, false);
    let chars = decode_utf8(text);
    reveal_strlit("$argon2");
    reveal_strlit("i");
    reveal_strlit("$m=");
    reveal_strlit(",t=");
    reveal_strlit(",p=");
    reveal_strlit("$");
    reveal_strlit("$argon2i$m=4096,t=10,p=1$");
    reveal_with_fuel(crate::number::numeral, 5);
    assert(start == "$argon2i$m=4096,t=10,p=1$"@);
    is_ascii_chars_encode_utf8(start);
    lemma_session_text(text);
    assert forall|i: int| 0 <= i < start.len() implies start[i] == #[trigger] chars[i] by {
        assert(encode_utf8(start)[i] == text[i]);
        assert(start[i] as u8 == chars[i] as u8);
    }
    assert(start == chars.subrange(0, start.len() as int));
}

/// An account is blank, unset or has a hashing session, and never two of these.
pub proof fn law_one_kind(hash: Seq<char>)
    ensures
        is_blank(hash) ==> !is_unset(hash) && !has_session(hash),
        is_unset(hash) ==> !has_session(hash),
        is_blank(hash) || is_unset(hash) || has_session(hash),
{
    if is_blank(hash) {
        lemma_short_is_no_session(hash);
    }
}

/// A blank account is opened with the empty password, and with no other.
pub proof fn law_blank_takes_blank(hash: Seq<char>, password: Seq<char>)
    requires
        is_blank(hash),
    ensures
        accepts(hash, password) == (password.len() == 0),
        can_verify(hash, password),
{
    lemma_short_is_no_session(hash);
}

/// A hash field is a session if Argon2 reads one out of all its bytes and it holds `$`
/// four times or more.
pub proof fn law_has_session(hash: Seq<char>)
    ensures
        has_session(hash) <==> crate::argon::session_decodes(encode_utf8(hash)) && encode_utf8(
            hash,
        ).to_multiset().count(36u8) >= 4,
{
    crate::argon::law_session(encode_utf8(hash));
}

/// An account with a session is opened with the passwords that Argon2 accepts for the
/// session, and Argon2 is asked with every byte of the password.
pub proof fn law_whole_password_counts(hash: Seq<char>, password: Seq<char>)
    requires
        has_session(hash),
    ensures
        accepts(hash, password) == crate::argon::session_accepts(
            encode_utf8(hash),
            encode_utf8(password),
        ),
        can_verify(hash, password) == (crate::argon::is_runnable(encode_utf8(hash))
            && encode_utf8(password).len() <= u32::MAX),
{
}

/// The hash field for a password is the text of the Argon2i session, with ten passes over
/// 4096 KiB in one lane, of every byte of the password and the hexadecimal digits of the
/// number drawn, without key and data.
pub proof fn law_whole_password_is_hashed(password: Seq<char>, nonce: u64)
    ensures
        salted_hash(password, nonce) == decode_utf8(
            crate::argon::new_session(
                Variant::Argon2i,
                10,
                1,
                4096,
                encode_utf8(password),
                encode_utf8(crate::number::hex_upper(nonce as nat)),
                seq![],
                seq![],
            ),
        ),
{
}

/// A number is refused as a salt if it has fewer than the eight digits that Argon2 needs.
pub proof fn law_refused_salt(nonce: u64)
    ensures
        nonce < MIN_NONCE <==> encode_utf8(crate::number::hex_upper(nonce as nat)).len() < 8,
{
    crate::number::law_eight_hex_digits(nonce);
    crate::number::lemma_hex_ascii(nonce as nat);
    is_ascii_chars_encode_utf8(crate::number::hex_upper(nonce as nat));
}

/// No password opens an account whose password is unset.
pub proof fn law_unset_takes_nothing(hash: Seq<char>, password: Seq<char>)
    requires
        is_unset(hash),
    ensures
        !accepts(hash, password),
        can_verify(hash, password),
{
}

/// The hash `!` is that of an unset password.
pub proof fn law_bang_is_unset()
    ensures
        is_unset("!"@),
{
    reveal_strlit("!");
    lemma_short_is_no_session("!"@);
}

} // verus!
