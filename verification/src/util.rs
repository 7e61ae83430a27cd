//! Random identifiers.

use rand::distr::SampleString;
use vstd::prelude::*;

use crate::text;

verus! {

/// A text of `len` random ASCII letters and digits.
///
/// `SampleString::sample_string` of `rand::distr::Alphanumeric`, drawn from `rand::rng`, appends
/// `len` characters, each of them a letter or a digit. Which ones is left to chance.
#[verifier::external_body]
pub fn random_id(len: usize) -> (id: String)
    requires
        len <= isize::MAX,
    ensures
        id@.len() == len,
        forall|i: int| 0 <= i < len ==> text::is_alphanumeric(#[trigger] id@[i]),
{
    rand::distr::Alphanumeric.sample_string(&mut rand::rng(), len)
}

/// Whether a text has the form of a device ID: 16 capital letters and digits.
pub open spec fn is_device_id(id: Seq<char>) -> bool {
    &&& id.len() == 16
    &&& forall|i: int|
        0 <= i < id.len() ==> ('A' <= #[trigger] id[i] && id[i] <= 'Z') || ('0' <= id[i] && id[i]
            <= '9')
}

/// A random device ID.
pub fn random_device_id() -> (id: String)
    ensures
        is_device_id(id@),
        id@.len() == 16,
        forall|i: int|
            0 <= i < 16 ==> ('A' <= #[trigger] id@[i] && id@[i] <= 'Z') || ('0' <= id@[i]
                && id@[i] <= '9'),
{
    let drawn: String = random_id(16);
    let id: String = text::to_upper(drawn.as_str());
    assert forall|i: int| 0 <= i < id@.len() implies ('A' <= #[trigger] id@[i] && id@[i] <= 'Z')
        || ('0' <= id@[i] && id@[i] <= '9') by {
        assert(text::is_alphanumeric(drawn@[i]));
        assert(id@[i] == text::raised(drawn@[i]));
    }
    id
}

/// Whether a text has the form of a request ID: 30 letters and digits behind "app_ios_".
pub open spec fn is_request_id(id: Seq<char>) -> bool {
    &&& id.len() == 38
    &&& "app_ios_"@.is_prefix_of(id)
    &&& forall|i: int| 8 <= i < id.len() ==> text::is_alphanumeric(#[trigger] id[i])
}

/// A random request ID.
pub fn random_request_id() -> (id: String)
    ensures
        is_request_id(id@),
        id@.len() == 38,
        id@.take(8) == "app_ios_"@,
        forall|i: int|
            8 <= i < 38 ==> ('a' <= #[trigger] id@[i] && id@[i] <= 'z') || ('A' <= id@[i] && id@[i]
                <= 'Z') || ('0' <= id@[i] && id@[i] <= '9'),
{
    let drawn: String = random_id(30);
    let mut id: String = "app_ios_".to_owned();
    id.append(drawn.as_str());
    proof {
        reveal_strlit("app_ios_");
        assert("app_ios_"@.is_prefix_of(id@));
        assert(id@.take(8) =~= "app_ios_"@);
        assert forall|i: int| 8 <= i < id@.len() implies text::is_alphanumeric(
            #[trigger] id@[i],
        ) by {
            assert(id@[i] == drawn@[i - 8]);
        }
    }
    id
}

/// A device ID has 16 characters, each of them a capital ASCII letter or a digit.
pub proof fn law_device_ids(id: Seq<char>)
    ensures
        is_device_id(id) <==> id.len() == 16 && forall|i: int|
            0 <= i < 16 ==> ('A' <= #[trigger] id[i] && id[i] <= 'Z') || ('0' <= id[i] && id[i]
                <= '9'),
{
}

/// A request ID is "app_ios_" and 30 more characters, each of them an ASCII letter or a digit.
pub proof fn law_request_ids(id: Seq<char>)
    ensures
        is_request_id(id) <==> id.len() == 38 && id.take(8) == "app_ios_"@ && forall|i: int|
            8 <= i < 38 ==> ('a' <= #[trigger] id[i] && id[i] <= 'z') || ('A' <= id[i] && id[i]
                <= 'Z') || ('0' <= id[i] && id[i] <= '9'),
{
    reveal_strlit("app_ios_");
    assert("app_ios_"@.len() == 8);
    if is_request_id(id) {
        assert(id.take(8) =~= "app_ios_"@);
        assert forall|i: int| 8 <= i < 38 implies ('a' <= #[trigger] id[i] && id[i] <= 'z') || (
        'A' <= id[i] && id[i] <= 'Z') || ('0' <= id[i] && id[i] <= '9') by {
            assert(text::is_alphanumeric(id[i]));
        }
    }
    if id.len() == 38 && id.take(8) == "app_ios_"@ {
        assert("app_ios_"@.is_prefix_of(id));
    }
}

} // verus!
