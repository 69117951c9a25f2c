//! The Windows side of the microphone: a signed kernel-mode audio driver
//! whose render endpoint is named "Tether Audio".

use vstd::prelude::*;
use vstd::string::StringSliceAdditionalSpecFns;
use vstd::utf8::encode_utf8;

use crate::bytes::{bytes_contain, contains_bytes, occurs_at};

verus! {

/// Substring of the render endpoint's device name.
pub const RENDER_DEVICE_MATCH: &'static str = "Tether Audio";

/// The characters of `RENDER_DEVICE_MATCH`.
pub open spec fn render_device_name() -> Seq<char> {
    RENDER_DEVICE_MATCH@
}

/// What `str::to_lowercase` gives for `s`.
pub uninterp spec fn unicode_lowercase(s: Seq<char>) -> Seq<char>;

/// Calls `str::to_lowercase`. Claimed: the result is `unicode_lowercase` of
/// the characters, a function of them alone.
#[verifier::external_body]
fn to_lowercase(s: &str) -> (r: String)
    ensures
        r@ == unicode_lowercase(s@),
{
    s.to_lowercase()
}

/// The device name `name` holds `want`, both taken in lower case.
pub open spec fn name_matches(name: Seq<char>, want: Seq<char>) -> bool {
    contains_bytes(encode_utf8(unicode_lowercase(name)), encode_utf8(unicode_lowercase(want)))
}

/// Some device in `names` matches `want`, ignoring case.
pub open spec fn some_name_matches(names: Seq<String>, want: Seq<char>) -> bool {
    exists|i: int| 0 <= i < names.len() && #[trigger] name_matches(names[i]@, want)
}

/// Law: a device name at any position in the list that holds `want`,
/// both lower-cased, at some byte offset `at`, makes the list match.
pub proof fn lemma_matching_name_counts(names: Seq<String>, want: Seq<char>, i: int, at: int)
    requires
        0 <= i < names.len(),
        0 <= at,
        at + encode_utf8(unicode_lowercase(want)).len() <= encode_utf8(unicode_lowercase(names[i]@)).len(),
        encode_utf8(unicode_lowercase(names[i]@)).subrange(
            at,
            at + encode_utf8(unicode_lowercase(want)).len(),
        ) == encode_utf8(unicode_lowercase(want)),
    ensures
        some_name_matches(names, want),
{
    assert(occurs_at(encode_utf8(unicode_lowercase(names[i]@)), encode_utf8(unicode_lowercase(want)), at));
    assert(name_matches(names[i]@, want));
}

/// Law: the list matches only if one of its names, lower-cased, holds
/// `want` lower-cased at some byte offset.
pub proof fn lemma_match_has_name(names: Seq<String>, want: Seq<char>)
    requires
        some_name_matches(names, want),
    ensures
        exists|i: int, at: int|
            0 <= i < names.len() && #[trigger] occurs_at(
                encode_utf8(unicode_lowercase(names[i]@)),
                encode_utf8(unicode_lowercase(want)),
                at,
            ),
{
    let i = choose|i: int| 0 <= i < names.len() && #[trigger] name_matches(names[i]@, want);
    let at = choose|at: int|
        #[trigger] occurs_at(encode_utf8(unicode_lowercase(names[i]@)), encode_utf8(unicode_lowercase(want)), at);
    assert(0 <= i < names.len() && occurs_at(
        encode_utf8(unicode_lowercase(names[i]@)),
        encode_utf8(unicode_lowercase(want)),
        at,
    ));
}

/// Law: adding a device to the list never turns a match into no match, and
/// adding one whose name does not hold `want` changes nothing.
pub proof fn lemma_append_name(names: Seq<String>, name: String, want: Seq<char>)
    ensures
        some_name_matches(names, want) ==> some_name_matches(names.push(name), want),
        !name_matches(name@, want) ==> (some_name_matches(names.push(name), want) == some_name_matches(
            names,
            want,
        )),
{
    let pushed = names.push(name);
    if some_name_matches(names, want) {
        let i = choose|i: int| 0 <= i < names.len() && #[trigger] name_matches(names[i]@, want);
        assert(pushed[i] == names[i]);
        assert(name_matches(pushed[i]@, want));
    }
    if some_name_matches(pushed, want) && !name_matches(name@, want) {
        let i = choose|i: int| 0 <= i < pushed.len() && #[trigger] name_matches(pushed[i]@, want);
        assert(i < names.len());
        assert(pushed[i] == names[i]);
    }
}

/// Whether some output device name holds `want`, ignoring case.
pub fn any_name_matches(names: &Vec<String>, want: &str) -> (r: bool)
    ensures
        r == some_name_matches(names@, want@),
{
    let want_lower = to_lowercase(want);
    let mut i: usize = 0;
    while i < names.len()
        invariant
            i <= names@.len(),
            want_lower@ == unicode_lowercase(want@),
            forall|j: int| 0 <= j < i ==> !#[trigger] name_matches(names@[j]@, want@),
        decreases names@.len() - i,
    {
        let lower = to_lowercase(names[i].as_str());
        if bytes_contain(lower.as_str().as_bytes(), want_lower.as_str().as_bytes()) {
            assert(name_matches(names@[i as int]@, want@));
            return true;
        }
        i = i + 1;
    }
    false
}

} // verus!
