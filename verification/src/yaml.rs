//! The one call into the underlying YAML library: serializing a plain string
//! to its canonical YAML document text (quoting and escaping included).

use vstd::prelude::*;

verus! {

/// What `serde_yaml::to_string` returns for a plain string: `Some` of the
/// document text (trailing newline included) when serialization succeeds,
/// `None` when it fails. The outcome depends on the characters alone.
pub uninterp spec fn yaml_str_doc(s: Seq<char>) -> Option<Seq<char>>;

/// Relies on `serde_yaml::to_string` on a `&str`: the YAML document text of
/// the string, a pure function of its characters; the error, when one comes,
/// is handed back as its message.
#[verifier::external_body]
pub(crate) fn yaml_string(s: &str) -> (r: Result<String, String>)
    ensures
        r is Ok <==> yaml_str_doc(s@) is Some,
        r matches Ok(t) ==> yaml_str_doc(s@) == Some(t@),
{
    serde_yaml::to_string(s).map_err(|e| e.to_string())
}

} // verus!
