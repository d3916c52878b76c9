//! Data rules of the settings dialog's certificate list: which host /
//! certificate pairs may be appended to it. The dialog widgets themselves are
//! outside this crate; they call [`validate`] before enabling the add button.

use vstd::prelude::*;
use vstd::string::*;

verus! {

/// One entry of the certificate list: a database cluster host together with
/// the path of the TLS certificate file used when connecting to it.
pub struct Certificate {
    pub host: String,
    pub cert: String,
}

/// A host / certificate pair may join the list only when the host is not
/// blank, the certificate path is longer than four characters, and no entry
/// for the same host is present already.
pub open spec fn certificate_acceptable(
    host: Seq<char>,
    cert: Seq<char>,
    taken: Seq<Seq<char>>,
) -> bool {
    &&& host.len() > 0
    &&& cert.len() > 4
    &&& forall|i: int| 0 <= i < taken.len() ==> taken[i] != host
}

/// Decides whether the pair `host` / `cert` may be appended to a certificate
/// list whose entries already cover the hosts in `taken`.
pub fn validate(host: &String, cert: &String, taken: &Vec<String>) -> (ok: bool)
    ensures
        ok == certificate_acceptable(host@, cert@, taken.deep_view()),
{
    let mut i: usize = 0;
    while i < taken.len()
        invariant
            i <= taken@.len(),
            forall|j: int| 0 <= j < i ==> taken.deep_view()[j] != host@,
        decreases taken@.len() - i,
    {
        if taken[i].eq(host) {
            proof {
                assert(taken.deep_view()[i as int] == host@);
            }
            return false;
        }
        i += 1;
    }
    !host.as_str().is_empty() && cert.as_str().unicode_len() > 4
}

} // verus!
