//! Argon2 hashing sessions, as the text that stands in an account file.
//!
//! A session is five fields with `$` between them: an empty one, the variant, the
//! parameters (with `,` between them), the salt and the hash, the last two in
//! base 64 without padding.

use vstd::prelude::*;

verus! {

/// The variants of Argon2.
#[derive(Debug, Clone, Copy, PartialEq, Eq, Structural)]
pub enum Variant {
    /// Memory is walked in an order that depends on the password
    Argon2d,
    /// Memory is walked in an order that does not depend on the password
    Argon2i,
}

/// Whether [`argon2rs::verifier::Encoded::from_u8`] reads a session out of `text`.
pub uninterp spec fn session_decodes(text: Seq<u8>) -> bool;

/// What [`argon2rs::verifier::Encoded::verify`] answers to `password`, in the
/// session that `text` holds.
pub uninterp spec fn session_accepts(text: Seq<u8>, password: Seq<u8>) -> bool;

/// The text of a new session, as [`argon2rs::verifier::Encoded::new`] makes it and
/// [`argon2rs::verifier::Encoded::to_u8`] writes it.
pub uninterp spec fn new_session(
    variant: Variant,
    passes: u32,
    lanes: u32,
    kib: u32,
    password: Seq<u8>,
    salt: Seq<u8>,
    key: Seq<u8>,
    data: Seq<u8>,
) -> Seq<u8>;

/// [`argon2rs::ParamErr`], which says what is wrong with Argon2 parameters.
#[verifier::external_type_specification]
#[verifier::external_body]
pub struct ExParamErr(argon2rs::ParamErr);

/// The start of the text of a session: the variant and the parameters that every session
/// has, up to the `,` or `$` that comes next, by whether more parameters follow.
pub open spec fn session_start(
    variant: Variant,
    passes: u32,
    lanes: u32,
    kib: u32,
    more: bool,
) -> Seq<char> {
    "$argon2"@ + (match variant {
        Variant::Argon2d => "d"@,
        Variant::Argon2i => "i"@,
    }) + "$m="@ + crate::number::decimal(kib as nat) + ",t="@ + crate::number::decimal(
        passes as nat,
    ) + ",p="@ + crate::number::decimal(lanes as nat) + (if more {
        ","@
    } else {
        "$"@
    })
}

/// `text` has the fields of a session.
pub open spec fn has_session_fields(text: Seq<u8>) -> bool {
    crate::text::split(text, 36u8).len() >= 5
}

/// `text` is a serialized hashing session.
pub open spec fn is_session(text: Seq<u8>) -> bool {
    has_session_fields(text) && session_decodes(text)
}

/// How many bytes the given number of base 64 digits stand for.
pub open spec fn decoded_len(digits: nat) -> nat {
    digits * 3 / 4
}

/// `keyid=`
pub open spec fn key_tag() -> Seq<u8> {
    seq![107u8, 101u8, 121u8, 105u8, 100u8, 61u8]
}

/// `data=`
pub open spec fn data_tag() -> Seq<u8> {
    seq![100u8, 97u8, 116u8, 97u8, 61u8]
}

/// A secret key or associated data is not too long for Argon2.
pub open spec fn param_fits(param: Seq<u8>) -> bool {
    &&& key_tag().is_prefix_of(param) ==> decoded_len((param.len() - 6) as nat) <= 32
    &&& data_tag().is_prefix_of(param) ==> decoded_len((param.len() - 5) as nat) <= u32::MAX
}

/// The salt, the key and the data of the session `text` have lengths that Argon2
/// can work with.
pub open spec fn is_runnable(text: Seq<u8>) -> bool {
    let fields = crate::text::split(text, 36u8);
    let params = crate::text::split(fields[2], 44u8);
    &&& fields.len() >= 5
    &&& 8 <= decoded_len(fields[3].len()) <= u32::MAX
    &&& forall|i: int| 0 <= i < params.len() ==> param_fits(#[trigger] params[i])
}

/// A byte that a session is written with: a letter, a digit or one of `$+,/=`.
pub open spec fn is_session_byte(b: u8) -> bool {
    ||| 48 <= b <= 57
    ||| 65 <= b <= 90
    ||| 97 <= b <= 122
    ||| b == 36
    ||| b == 43
    ||| b == 44
    ||| b == 47
    ||| b == 61
}

/// `text` is written with the bytes of a session.
pub open spec fn has_session_bytes(text: Seq<u8>) -> bool {
    forall|i: int| 0 <= i < text.len() ==> is_session_byte(#[trigger] text[i])
}

/// Calls [`argon2rs::verifier::Encoded::from_u8`] and says whether it gave a session.
/// That depends on the text alone. On a text that ends early, where a field
/// should follow, the call can panic; none of those has four `$`.
#[verifier::external_body]
fn encoded_from_u8(text: &[u8]) -> (ok: bool)
    requires
        has_session_fields(text@),
    ensures
        ok == session_decodes(text@),
{
    argon2rs::verifier::Encoded::from_u8(text).is_ok()
}

/// Calls [`argon2rs::verifier::Encoded::verify`] on the session that `text` holds.
/// The answer depends on the text and the password alone. The call panics on a
/// salt, a key, data or a password of a length that Argon2 does not take. It needs
/// the memory and the threads that the session asks for: what happens where the
/// machine lacks them is left unsaid.
#[verifier::external_body]
pub(crate) fn encoded_verify(text: &[u8], password: &[u8]) -> (accepted: bool)
    requires
        is_session(text@),
        is_runnable(text@),
        password@.len() <= u32::MAX,
    ensures
        accepted == session_accepts(text@, password@),
{
    match argon2rs::verifier::Encoded::from_u8(text) {
        Ok(encoded) => encoded.verify(password),
        Err(_) => false,
    }
}

/// Calls [`argon2rs::Argon2::new`], hands its result to
/// [`argon2rs::verifier::Encoded::new`] and writes the session with
/// [`argon2rs::verifier::Encoded::to_u8`]. Only the first of these can fail, and does so
/// where the parameters are out of range. The text depends on the arguments alone, is
/// written with few characters and starts with the parameters. It can be run again; it is
/// read back as a session, which accepts the password, unless there is a key and no data,
/// since a key is read up to the `,` in front of the data. The second call panics on a
/// password, a salt, a key or data of a length that Argon2 does not take.
#[verifier::external_body]
pub(crate) fn encoded_new(
    variant: Variant,
    passes: u32,
    lanes: u32,
    kib: u32,
    password: &[u8],
    salt: &[u8],
    key: &[u8],
    data: &[u8],
) -> (res: Result<Vec<u8>, argon2rs::ParamErr>)
    requires
        lanes == 1,
        password@.len() <= u32::MAX,
        8 <= salt@.len() <= u32::MAX,
        key@.len() <= 32,
        data@.len() <= u32::MAX,
    ensures
        res is Ok == (passes >= 1 && kib >= 8),
        res matches Ok(text) ==> text@ == new_session(
            variant,
            passes,
            lanes,
            kib,
            password@,
            salt@,
            key@,
            data@,
        ),
        res matches Ok(text) ==> has_session_bytes(text@),
        res matches Ok(text) ==> vstd::utf8::encode_utf8(
            session_start(variant, passes, lanes, kib, key@.len() > 0 || data@.len() > 0),
        ).is_prefix_of(text@),
        res matches Ok(text) ==> is_runnable(text@),
        res matches Ok(text) ==> (key@.len() == 0 || data@.len() > 0) ==> is_session(text@),
        res matches Ok(text) ==> (key@.len() == 0 || data@.len() > 0) ==> session_accepts(
            text@,
            password@,
        ),
{
    let variant = match variant {
        Variant::Argon2d => argon2rs::Variant::Argon2d,
        Variant::Argon2i => argon2rs::Variant::Argon2i,
    };
    let argon = argon2rs::Argon2::new(passes, lanes, kib, variant)?;
    Ok(argon2rs::verifier::Encoded::new(argon, password, salt, key, data).to_u8())
}

/// The bytes of each of the given vectors.
pub open spec fn byte_strings(list: Seq<Vec<u8>>) -> Seq<Seq<u8>> {
    list.map_values(|v: Vec<u8>| v@)
}

/// Splits `s` at each `sep`.
fn split_bytes(s: &[u8], sep: u8) -> (pieces: Vec<Vec<u8>>)
    ensures
        byte_strings(pieces@) == crate::text::split(s@, sep),
{
    let mut done: Vec<Vec<u8>> = Vec::new();
    let mut cur: Vec<u8> = Vec::new();
    for i in 0..s.len()
        invariant
            byte_strings(done@).push(cur@) == crate::text::split(s@.take(i as int), sep),
    {
        proof {
            assert(s@.take(i + 1).drop_last() == s@.take(i as int));
        }
        if s[i] == sep {
            done.push(cur);
            cur = Vec::new();
        } else {
            cur.push(s[i]);
        }
    }
    done.push(cur);
    proof {
        assert(s@.take(s@.len() as int) == s@);
    }
    done
}

/// Whether `text` is a serialized hashing session.
pub fn holds_session(text: &[u8]) -> (res: bool)
    ensures
        res == is_session(text@),
{
    let fields: Vec<Vec<u8>> = split_bytes(text, 36);
    proof {
        assert(byte_strings(fields@).len() == fields@.len());
    }
    fields.len() >= 5 && encoded_from_u8(text)
}

/// Whether `s` starts with `tag`.
fn starts_with(s: &Vec<u8>, tag: &[u8]) -> (res: bool)
    ensures
        res == tag@.is_prefix_of(s@),
{
    if s.len() < tag.len() {
        return false;
    }
    for i in 0..tag.len()
        invariant
            tag@.len() <= s@.len(),
            forall|j: int| 0 <= j < i ==> tag@[j] == s@[j],
    {
        if s[i] != tag[i] {
            proof {
                if tag@.is_prefix_of(s@) {
                    assert(s@.subrange(0, tag@.len() as int)[i as int] == s@[i as int]);
                }
            }
            return false;
        }
    }
    proof {
        assert(tag@ == s@.subrange(0, tag@.len() as int));
    }
    true
}

/// Whether the given number of base 64 digits stand for at most `most` bytes.
fn decodes_to_at_most(digits: usize, most: u32) -> (res: bool)
    ensures
        res == (decoded_len(digits as nat) <= most),
{
    (digits as u128) * 3 / 4 <= most as u128
}

/// Whether a secret key or associated data is not too long for Argon2.
fn check_param(param: &Vec<u8>) -> (res: bool)
    ensures
        res == param_fits(param@),
{
    let key: [u8; 6] = [107, 101, 121, 105, 100, 61];
    let data: [u8; 5] = [100, 97, 116, 97, 61];
    proof {
        assert(key@ == key_tag());
        assert(data@ == data_tag());
    }
    if starts_with(param, &key) && !decodes_to_at_most(param.len() - 6, 32) {
        return false;
    }
    !starts_with(param, &data) || decodes_to_at_most(param.len() - 5, u32::MAX)
}

/// Whether the salt, the key and the data of the session `text` have lengths that
/// Argon2 can work with.
pub fn check_runnable(text: &[u8]) -> (res: bool)
    ensures
        res == is_runnable(text@),
{
    let fields: Vec<Vec<u8>> = split_bytes(text, 36);
    let ghost parts = crate::text::split(text@, 36u8);
    proof {
        assert(byte_strings(fields@).len() == fields@.len());
    }
    if fields.len() < 5 {
        return false;
    }
    proof {
        assert(byte_strings(fields@)[2] == fields@[2]@);
        assert(byte_strings(fields@)[3] == fields@[3]@);
    }
    if decodes_to_at_most(fields[3].len(), 7) || !decodes_to_at_most(fields[3].len(), u32::MAX) {
        return false;
    }
    let params: Vec<Vec<u8>> = split_bytes(fields[2].as_slice(), 44);
    let ghost pieces = crate::text::split(parts[2], 44u8);
    proof {
        assert(byte_strings(params@).len() == params@.len());
    }
    for i in 0..params.len()
        invariant
            byte_strings(params@) == pieces,
            pieces == crate::text::split(crate::text::split(text@, 36u8)[2], 44u8),
            forall|j: int| 0 <= j < i ==> param_fits(#[trigger] pieces[j]),
    {
        proof {
            assert(byte_strings(params@)[i as int] == params@[i as int]@);
        }
        if !check_param(&params[i]) {
            proof {
                assert(!param_fits(pieces[i as int]));
            }
            return false;
        }
    }
    true
}

/// A session is what Argon2 reads one out of, if it holds `$` four times or more. No text
/// with fewer can be run.
pub proof fn law_session(text: Seq<u8>)
    ensures
        is_session(text) <==> session_decodes(text) && text.to_multiset().count(36u8) >= 4,
        is_runnable(text) ==> text.to_multiset().count(36u8) >= 4,
{
    crate::text::law_count_of_pieces(text, 36u8);
}

/// A session can be run if its fourth field, the salt, has at least the eleven digits of
/// eight bytes and no more than those of `u32::MAX` bytes, and if no parameter, in its
/// third field, is a key of more than the 43 digits of 32 bytes or data of more than
/// `u32::MAX` bytes.
pub proof fn law_runnable(
    before: Seq<u8>,
    variant: Seq<u8>,
    params: Seq<u8>,
    salt: Seq<u8>,
    hash: Seq<u8>,
)
    requires
        !before.contains(36u8),
        !variant.contains(36u8),
        !params.contains(36u8),
        !salt.contains(36u8),
    ensures
        is_runnable(
            before + seq![36u8] + variant + seq![36u8] + params + seq![36u8] + salt + seq![36u8]
                + hash,
        ) <==> {
            &&& 11 <= salt.len()
            &&& salt.len() * 3 < 4 * 0x1_0000_0000
            &&& forall|i: int|
                0 <= i < crate::text::split(params, 44u8).len() ==> {
                    let param = #[trigger] crate::text::split(params, 44u8)[i];
                    &&& seq![107u8, 101u8, 121u8, 105u8, 100u8, 61u8].is_prefix_of(param)
                        ==> param.len() <= 49
                    &&& seq![100u8, 97u8, 116u8, 97u8, 61u8].is_prefix_of(param) ==> (param.len()
                        - 5) * 3 < 4 * 0x1_0000_0000
                }
        },
{
    let behind_salt = salt + seq![36u8] + hash;
    let behind_params = params + seq![36u8] + behind_salt;
    let behind_variant = variant + seq![36u8] + behind_params;
    let text = before + seq![36u8] + variant + seq![36u8] + params + seq![36u8] + salt
        + seq![36u8] + hash;
    assert(text == before + seq![36u8] + behind_variant);
    crate::text::law_first_piece(before, behind_variant, 36u8);
    crate::text::law_first_piece(variant, behind_params, 36u8);
    crate::text::law_first_piece(params, behind_salt, 36u8);
    crate::text::law_first_piece(salt, hash, 36u8);
    crate::text::lemma_split_len(hash, 36u8);
    let fields = crate::text::split(text, 36u8);
    assert(fields[2] == params);
    assert(fields[3] == salt);
    let pieces = crate::text::split(params, 44u8);
    if is_runnable(text) {
        assert forall|i: int| 0 <= i < pieces.len() implies param_fits(#[trigger] pieces[i]) by {}
    }
}

} // verus!
