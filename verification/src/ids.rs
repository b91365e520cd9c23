use vstd::prelude::*;

verus! {

/// The characters that can occur in a generated job identity: the
/// lower-case hexadecimal digits and the hyphens of the hyphenated
/// UUID form.
pub open spec fn is_id_char(c: char) -> bool {
    ||| c == '-'
    ||| ('0' as u32) <= (c as u32) && (c as u32) <= ('9' as u32)
    ||| ('a' as u32) <= (c as u32) && (c as u32) <= ('f' as u32)
}

/// A generated identity never contains a dot, so a file name keyed by
/// an identity parses unambiguously at its last dot.
pub proof fn lemma_id_chars_have_no_dot(id: Seq<char>)
    requires
        forall|i: int| 0 <= i < id.len() ==> is_id_char(#[trigger] id[i]),
    ensures
        forall|i: int| 0 <= i < id.len() ==> id[i] != '.',
{
}

/// Relies on uuid::Uuid::new_v4 and uuid's Display implementation: a
/// freshly drawn version-4 UUID, rendered in its hyphenated form of 36
/// characters — lower-case hexadecimal digits and hyphens. The draw is
/// random, so nothing is assumed about which identity comes back or
/// about two calls agreeing.
#[verifier::external_body]
pub(crate) fn fresh_request_id() -> (r: String)
    ensures
        r@.len() == 36,
        forall|i: int| 0 <= i < r@.len() ==> is_id_char(#[trigger] r@[i]),
{
    uuid::Uuid::new_v4().to_string()
}

} // verus!
