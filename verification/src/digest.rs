//! SHA-256 digests, and the names of files that are kept per session.
use sha2::Digest;
use vstd::prelude::*;
use vstd::utf8::encode_utf8;

use crate::text::{
    hex_value, law_bytes_are_written_by_two_digits, lemma_lower_hex_injective, lower_hex,
    lower_hex_text,
};

verus! {

/// The SHA-256 digest of bytes, as `sha2::Sha256` computes it.
pub uninterp spec fn sha256(bytes: Seq<u8>) -> Seq<u8>;

/// `sha2::Sha256::digest` on bytes: 32 bytes, a function of the input.
#[verifier::external_body]
fn sha256_digest(bytes: &[u8]) -> (digest: Vec<u8>)
    ensures
        digest@ == sha256(bytes@),
        digest@.len() == 32,
{
    sha2::Sha256::digest(bytes).to_vec()
}

/// The digest of a text in lower-case hexadecimal.
pub open spec fn text_digest(text: Seq<char>) -> Seq<char> {
    lower_hex(sha256(encode_utf8(text)))
}

/// Two texts have one digest.
pub open spec fn do_collide(a: Seq<char>, b: Seq<char>) -> bool {
    a != b && sha256(encode_utf8(a)) == sha256(encode_utf8(b))
}

/// Texts that do not collide are told apart by their digests in hexadecimal.
pub proof fn lemma_digests_tell_apart(a: Seq<char>, b: Seq<char>)
    requires
        text_digest(a) == text_digest(b),
    ensures
        a == b || do_collide(a, b),
{
    lemma_lower_hex_injective(sha256(encode_utf8(a)), sha256(encode_utf8(b)));
}

/// Digests a text.
pub fn digest_text(text: &str) -> (digest: String)
    ensures
        digest@ == text_digest(text@),
{
    lower_hex_text(sha256_digest(text.as_bytes()).as_slice())
}

/// The name of the file that tells how a session was launched.
pub open spec fn record_name(session: Seq<char>) -> Seq<char> {
    text_digest(session) + ".launch.json"@
}

/// The name of the journal of a session that was launched without one.
pub open spec fn journal_name(session: Seq<char>) -> Seq<char> {
    text_digest(session) + ".json"@
}

/// Names the file that tells how a session was launched.
pub fn session_record(session: &str) -> (name: String)
    ensures
        name@ == text_digest(session@) + ".launch.json"@,
        name@ == record_name(session@),
{
    let mut name = digest_text(session);
    name.push_str(".launch.json");
    name
}

/// Names the journal of a session that was launched without one.
pub fn session_journal(session: &str) -> (name: String)
    ensures
        name@ == text_digest(session@) + ".json"@,
        name@ == journal_name(session@),
{
    let mut name = digest_text(session);
    name.push_str(".json");
    name
}

/// The digest of a text is that of its bytes in UTF-8, two digits for each byte.
pub proof fn law_digests_are_of_the_bytes_of_a_text(text: Seq<char>, i: int)
    requires
        0 <= i < sha256(encode_utf8(text)).len(),
    ensures
        text_digest(text).len() == 2 * sha256(encode_utf8(text)).len(),
        16 * hex_value(text_digest(text)[2 * i]) + hex_value(text_digest(text)[2 * i + 1])
            == sha256(encode_utf8(text))[i],
{
    law_bytes_are_written_by_two_digits(sha256(encode_utf8(text)), i);
}

/// A session's files are named by the digest of its name and by what they are. Names of sessions that
/// do not collide name different files.
pub proof fn law_files_are_named_after_their_session(a: Seq<char>, b: Seq<char>)
    ensures
        record_name(a) == text_digest(a) + ".launch.json"@,
        journal_name(a) == text_digest(a) + ".json"@,
        record_name(a) == record_name(b) ==> a == b || do_collide(a, b),
        journal_name(a) == journal_name(b) ==> a == b || do_collide(a, b),
{
    reveal_strlit(".launch.json");
    reveal_strlit(".json");
    if record_name(a) == record_name(b) {
        lemma_same_front(text_digest(a), text_digest(b), ".launch.json"@);
        lemma_digests_tell_apart(a, b);
    }
    if journal_name(a) == journal_name(b) {
        lemma_same_front(text_digest(a), text_digest(b), ".json"@);
        lemma_digests_tell_apart(a, b);
    }
}

proof fn lemma_same_front(a: Seq<char>, b: Seq<char>, end: Seq<char>)
    requires
        a + end == b + end,
    ensures
        a == b,
{
    assert((a + end).len() == (b + end).len());
    assert((a + end).take(a.len() as int) =~= a);
    assert((b + end).take(b.len() as int) =~= b);
}

} // verus!
