use vstd::prelude::*;
use crate::model::{CustomerModel, SubscriberModel};
use crate::reconcile::{reconciles, derived_from, derived_somewhere, same_key, email_key,
    has_email, has_name, spec_precedence, spec_subscriber_of, wins_at};
use crate::strutil::lower_of;

verus! {

/// Law: reconciliation output has no two subscribers with case-insensitively
/// equal emails, whatever the input customer set.
pub proof fn lemma_no_duplicate_emails(
    inp: Seq<CustomerModel>,
    out: Seq<SubscriberModel>,
    i1: int,
    i2: int,
)
    requires
        reconciles(inp, out),
        0 <= i1 < out.len(),
        0 <= i2 < out.len(),
        i1 != i2,
    ensures
        lower_of(out[i1].email) != lower_of(out[i2].email),
{
}

/// Law: every output subscriber's email is drawn, casing included, from some
/// input record with a present email address; none is fabricated.
pub proof fn lemma_no_fabricated_subscriber(
    inp: Seq<CustomerModel>,
    out: Seq<SubscriberModel>,
    i: int,
)
    requires
        reconciles(inp, out),
        0 <= i < out.len(),
    ensures
        exists|j: int|
            0 <= j < inp.len() && has_email(#[trigger] inp[j]) && out[i].email
                == inp[j].email_address->0,
{
    assert(derived_somewhere(inp, out[i]));
    let j = choose|j: int| #[trigger] derived_from(inp, out[i], j);
    assert(out[i] == spec_subscriber_of(inp[j]));
    assert(0 <= j < inp.len() && has_email(inp[j]) && out[i].email == inp[j].email_address->0);
}

/// Law: when exactly two input records share a case-insensitive email and one
/// carries a name while the other does not, the named record is the one
/// retained, wherever the two stand in the input.
pub proof fn lemma_named_record_wins(
    inp: Seq<CustomerModel>,
    out: Seq<SubscriberModel>,
    j1: int,
    j2: int,
)
    requires
        reconciles(inp, out),
        0 <= j1 < inp.len(),
        0 <= j2 < inp.len(),
        same_key(inp[j1], inp[j2]),
        has_name(inp[j1]),
        !has_name(inp[j2]),
        forall|k: int|
            0 <= k < inp.len() && same_key(#[trigger] inp[k], inp[j1]) ==> k == j1 || k == j2,
    ensures
        exists|i: int|
            0 <= i < out.len() && lower_of(#[trigger] out[i].email) == email_key(inp[j1]),
        forall|i: int|
            0 <= i < out.len() && lower_of(#[trigger] out[i].email) == email_key(inp[j1])
                ==> out[i] == spec_subscriber_of(inp[j1]),
{
    assert forall|i: int|
        0 <= i < out.len() && lower_of(#[trigger] out[i].email) == email_key(inp[j1]) implies
        out[i] == spec_subscriber_of(inp[j1]) by {
        assert(derived_somewhere(inp, out[i]));
        let j = choose|j: int| #[trigger] derived_from(inp, out[i], j);
        assert(wins_at(inp, j));
        assert(out[i] == spec_subscriber_of(inp[j]));
        assert(lower_of(out[i].email) == email_key(inp[j]));
        assert(same_key(inp[j], inp[j1]));
        assert(j == j1 || j == j2);
        if j == j2 {
            assert(spec_precedence(inp[j1]) <= spec_precedence(inp[j2]));
            assert(false);
        }
    }
}

/// Law: when exactly two input records share a case-insensitive email and
/// agree on name-presence, the record whose email is not unsubscribed is the
/// one retained, wherever the two stand in the input.
pub proof fn lemma_subscribed_record_wins(
    inp: Seq<CustomerModel>,
    out: Seq<SubscriberModel>,
    j1: int,
    j2: int,
)
    requires
        reconciles(inp, out),
        0 <= j1 < inp.len(),
        0 <= j2 < inp.len(),
        same_key(inp[j1], inp[j2]),
        has_name(inp[j1]) == has_name(inp[j2]),
        !inp[j1].email_unsubscribed,
        inp[j2].email_unsubscribed,
        forall|k: int|
            0 <= k < inp.len() && same_key(#[trigger] inp[k], inp[j1]) ==> k == j1 || k == j2,
    ensures
        exists|i: int|
            0 <= i < out.len() && lower_of(#[trigger] out[i].email) == email_key(inp[j1]),
        forall|i: int|
            0 <= i < out.len() && lower_of(#[trigger] out[i].email) == email_key(inp[j1])
                ==> out[i] == spec_subscriber_of(inp[j1]),
{
    assert forall|i: int|
        0 <= i < out.len() && lower_of(#[trigger] out[i].email) == email_key(inp[j1]) implies
        out[i] == spec_subscriber_of(inp[j1]) by {
        assert(derived_somewhere(inp, out[i]));
        let j = choose|j: int| #[trigger] derived_from(inp, out[i], j);
        assert(wins_at(inp, j));
        assert(out[i] == spec_subscriber_of(inp[j]));
        assert(lower_of(out[i].email) == email_key(inp[j]));
        assert(same_key(inp[j], inp[j1]));
        assert(j == j1 || j == j2);
        if j == j2 {
            assert(spec_precedence(inp[j1]) <= spec_precedence(inp[j2]));
            assert(false);
        }
    }
}

} // verus!
