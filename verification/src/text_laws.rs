//! What it means that texts differ only in the case of letters.

use vstd::prelude::*;

verus! {

/// The first is one of the letters `A` to `Z`, and the second is the same letter in lower case.
pub open spec fn is_upper_case_of(upper: char, lower: char) -> bool {
    65 <= upper as int <= 90 && lower as int == upper as int + 32
}

/// The text reads as the other, which holds no letter from `A` to `Z`: character by character it
/// is the same, or the upper case of it.
pub open spec fn reads_as(text: Seq<char>, lower: Seq<char>) -> bool {
    &&& text.len() == lower.len()
    &&& forall|k: int|
        0 <= k < text.len() ==> #[trigger] text[k] == lower[k] || is_upper_case_of(
            text[k],
            lower[k],
        )
}

/// Two texts are the same but for the case of letters if they have the same length and at each
/// place the same character or the two cases of one letter from `A` to `Z`.
pub proof fn law_same_but_for_the_case(a: Seq<char>, b: Seq<char>)
    ensures
        crate::text::same_ignoring_ascii_case(a, b) <==> a.len() == b.len() && forall|k: int|
            0 <= k < a.len() ==> #[trigger] a[k] == b[k] || is_upper_case_of(a[k], b[k])
                || is_upper_case_of(b[k], a[k]),
{
    let lower = |c: char| crate::text::ascii_lower(c);
    let x = a.map_values(lower);
    let y = b.map_values(lower);
    if x == y {
        assert(a.len() == x.len() && b.len() == y.len());
        assert forall|k: int| 0 <= k < a.len() implies #[trigger] a[k] == b[k] || is_upper_case_of(
            a[k],
            b[k],
        ) || is_upper_case_of(b[k], a[k]) by {
            assert(x[k] == y[k]);
        }
    }
    if a.len() == b.len() && forall|k: int|
        0 <= k < a.len() ==> #[trigger] a[k] == b[k] || is_upper_case_of(a[k], b[k])
            || is_upper_case_of(b[k], a[k]) {
        assert forall|k: int| 0 <= k < a.len() implies x[k] == y[k] by {
            assert(a[k] == b[k] || is_upper_case_of(a[k], b[k]) || is_upper_case_of(b[k], a[k]));
        }
        assert(x =~= y);
    }
}

/// What is the same as `ALL` but for the case of letters reads as `all`.
pub(crate) proof fn lemma_all(text: Seq<char>)
    ensures
        crate::text::same_ignoring_ascii_case(text, "ALL"@) <==> reads_as(
            text,
            seq!['a', 'l', 'l'],
        ),
{
    reveal_strlit("ALL");
    law_same_but_for_the_case(text, "ALL"@);
}

/// What is the same as `IMAP4rev1` but for the case of letters reads as `imap4rev1`.
pub(crate) proof fn lemma_imap4rev1(text: Seq<char>)
    ensures
        crate::text::same_ignoring_ascii_case(text, "IMAP4rev1"@) <==> reads_as(
            text,
            seq!['i', 'm', 'a', 'p', '4', 'r', 'e', 'v', '1'],
        ),
{
    reveal_strlit("IMAP4rev1");
    law_same_but_for_the_case(text, "IMAP4rev1"@);
}

/// What is the same as `AUTH=` but for the case of letters reads as `auth=`.
pub(crate) proof fn lemma_auth(text: Seq<char>)
    ensures
        crate::text::same_ignoring_ascii_case(text, "AUTH="@) <==> reads_as(
            text,
            seq!['a', 'u', 't', 'h', '='],
        ),
{
    reveal_strlit("AUTH=");
    law_same_but_for_the_case(text, "AUTH="@);
}

} // verus!
