use vstd::prelude::*;
use vstd::string::StringExecFns;
use crate::model::{RemoteCustomer, CustomerModel, Subscriber, SubscriberModel};
use crate::strutil::{lower_of, lowercase, trim_of, trim_string};

verus! {

/// The models of a sequence of customer records.
pub open spec fn customer_views(v: Seq<RemoteCustomer>) -> Seq<CustomerModel> {
    v.map_values(|c: RemoteCustomer| c@)
}

/// The models of a sequence of subscriber records.
pub open spec fn subscriber_views(v: Seq<Subscriber>) -> Seq<SubscriberModel> {
    v.map_values(|s: Subscriber| s@)
}

/// Whether the record can be represented as a subscriber at all.
pub open spec fn has_email(c: CustomerModel) -> bool {
    c.email_address is Some
}

/// The deduplication key: the lowercased email. Meaningful only for records
/// with an email.
pub open spec fn email_key(c: CustomerModel) -> Seq<char> {
    lower_of(c.email_address->0)
}

/// Whether two records collide under case-insensitive email comparison.
pub open spec fn same_key(a: CustomerModel, b: CustomerModel) -> bool {
    has_email(a) && has_email(b) && email_key(a) == email_key(b)
}

/// Whether the record carries at least one of given/family name.
pub open spec fn has_name(c: CustomerModel) -> bool {
    c.given_name is Some || c.family_name is Some
}

/// The precedence of a record among duplicates, highest wins. A record that
/// carries at least one of given/family name outranks an anonymous one;
/// among equally-named records, one whose email is not unsubscribed outranks
/// an unsubscribed one.
pub open spec fn spec_precedence(c: CustomerModel) -> int {
    (if has_name(c) {
        2int
    } else {
        0int
    }) + (if !c.email_unsubscribed {
        1int
    } else {
        0int
    })
}

/// The derived display name: the given name (default "Customer" if absent)
/// and the family name (default empty if absent), joined by a single space,
/// with whitespace trimmed from both ends — so the separating space vanishes
/// when either part is empty.
pub open spec fn spec_display_name(c: CustomerModel) -> Seq<char> {
    let g = match c.given_name {
        Some(g) => g,
        None => "Customer"@,
    };
    let f = match c.family_name {
        Some(f) => f,
        None => Seq::<char>::empty(),
    };
    trim_of(g + " "@ + f)
}

/// The subscriber a surviving record maps to: email with its original casing,
/// derived display name, empty attributes placeholder, and subscribed as the
/// negation of the source's unsubscribed flag.
pub open spec fn spec_subscriber_of(c: CustomerModel) -> SubscriberModel {
    SubscriberModel {
        email: c.email_address->0,
        name: spec_display_name(c),
        attributes: Seq::<char>::empty(),
        subscribed: !c.email_unsubscribed,
    }
}

/// Whether, among the first `bound` input records, index `w` holds the record
/// that deduplication keeps for its email key: it has the highest precedence,
/// and it is the earliest record of that precedence.
pub open spec fn best_up_to(inp: Seq<CustomerModel>, bound: int, w: int) -> bool {
    &&& 0 <= w < bound <= inp.len()
    &&& has_email(inp[w])
    &&& forall|k: int|
        0 <= k < bound && same_key(inp[k], inp[w]) ==> spec_precedence(inp[k])
            <= spec_precedence(inp[w])
    &&& forall|k: int|
        0 <= k < w && same_key(inp[k], inp[w]) ==> spec_precedence(inp[k]) < spec_precedence(
            inp[w],
        )
}

/// Whether index `w` holds the overall winner for its email key.
pub open spec fn wins_at(inp: Seq<CustomerModel>, w: int) -> bool {
    best_up_to(inp, inp.len() as int, w)
}

/// Whether subscriber `s` is derived from the winning input record at `j`.
pub open spec fn derived_from(inp: Seq<CustomerModel>, s: SubscriberModel, j: int) -> bool {
    wins_at(inp, j) && s == spec_subscriber_of(inp[j])
}

/// Whether subscriber `s` is derived from some winning input record.
pub open spec fn derived_somewhere(inp: Seq<CustomerModel>, s: SubscriberModel) -> bool {
    exists|j: int| #[trigger] derived_from(inp, s, j)
}

/// What reconciliation promises: every output subscriber is derived from a
/// winning input record; no two outputs share a case-insensitive email; and
/// every input record with an email is represented in the output.
pub open spec fn reconciles(inp: Seq<CustomerModel>, out: Seq<SubscriberModel>) -> bool {
    &&& forall|i: int| 0 <= i < out.len() ==> derived_somewhere(inp, #[trigger] out[i])
    &&& forall|i1: int, i2: int|
        0 <= i1 < i2 < out.len() ==> lower_of(#[trigger] out[i1].email) != lower_of(
            #[trigger] out[i2].email,
        )
    &&& forall|j: int|
        0 <= j < inp.len() && has_email(#[trigger] inp[j]) ==> exists|i: int|
            0 <= i < out.len() && lower_of(#[trigger] out[i].email) == email_key(inp[j])
}

/// The display name a customer record maps to.
pub fn display_name(c: &RemoteCustomer) -> (r: String)
    ensures
        r@ == spec_display_name(c@),
{
    let g: String = match &c.given_name {
        Some(s) => s.clone(),
        None => String::from_str("Customer"),
    };
    let f: String = match &c.family_name {
        Some(s) => s.clone(),
        None => String::new(),
    };
    let joined = g.concat(" ").concat(f.as_str());
    trim_string(joined.as_str())
}

/// The precedence of a record, as an executable value.
pub fn precedence(c: &RemoteCustomer) -> (p: u8)
    ensures
        p as int == spec_precedence(c@),
{
    let named: u8 = if c.given_name.is_some() || c.family_name.is_some() {
        2
    } else {
        0
    };
    if !c.email_unsubscribed {
        named + 1
    } else {
        named
    }
}

/// The position of the first stored key equal to `key`, if any.
fn find_key(keys: &Vec<String>, key: &String) -> (r: Option<usize>)
    ensures
        match r {
            Some(m) => m < keys.len() && keys@[m as int]@ == key@,
            None => forall|t: int| 0 <= t < keys@.len() ==> keys@[t]@ != key@,
        },
{
    let mut m: usize = 0;
    while m < keys.len()
        invariant
            m <= keys.len(),
            forall|t: int| 0 <= t < m ==> keys@[t]@ != key@,
        decreases keys.len() - m,
    {
        if key.eq(&keys[m]) {
            return Some(m);
        }
        m = m + 1;
    }
    None
}

/// Filters, deduplicates and classifies the fetched customers. Records
/// without an email are dropped; the rest are deduplicated by
/// case-insensitive email, keeping for each key the earliest record of
/// highest precedence; each surviving record maps to one subscriber.
pub fn reconcile(customers: &Vec<RemoteCustomer>) -> (out: Vec<Subscriber>)
    ensures
        reconciles(customer_views(customers@), subscriber_views(out@)),
{
    let ghost inp = customer_views(customers@);
    let mut out: Vec<Subscriber> = Vec::new();
    let mut keys: Vec<String> = Vec::new();
    let mut precs: Vec<u8> = Vec::new();
    let ghost mut winners: Seq<int> = Seq::empty();

    let n = customers.len();
    for j in 0..n
        invariant
            n == customers.len(),
            inp == customer_views(customers@),
            inp.len() == n,
            out.len() == keys.len(),
            out.len() == precs.len(),
            out.len() == winners.len(),
            forall|m: int|
                0 <= m < out.len() ==> {
                    let w = #[trigger] winners[m];
                    &&& best_up_to(inp, j as int, w)
                    &&& out@[m]@ == spec_subscriber_of(inp[w])
                    &&& keys@[m]@ == email_key(inp[w])
                    &&& precs@[m] as int == spec_precedence(inp[w])
                },
            forall|m1: int, m2: int|
                0 <= m1 < m2 < keys.len() ==> keys@[m1]@ != keys@[m2]@,
            forall|k: int|
                0 <= k < j && has_email(#[trigger] inp[k]) ==> exists|m: int|
                    0 <= m < keys.len() && (#[trigger] keys@[m])@ == email_key(inp[k]),
    {
        let c = &customers[j];
        assert(c@ == inp[j as int]);
        if let Some(email) = &c.email_address {
            assert(has_email(inp[j as int]));
            assert(inp[j as int].email_address->0 == email@);
            let key = lowercase(email.as_str());
            assert(key@ == email_key(inp[j as int]));
            let p = precedence(c);

            if let Some(found) = find_key(&keys, &key) {
                assert(keys@[found as int]@ == key@);
                let ghost w = winners[found as int];
                assert(same_key(inp[j as int], inp[w]));
                if p > precs[found] {
                    // The new record strictly outranks the kept one: replace.
                    let sub = Subscriber {
                        email: email.clone(),
                        name: display_name(c),
                        attributes: String::new(),
                        subscribed: !c.email_unsubscribed,
                    };
                    assert(sub@ == spec_subscriber_of(inp[j as int]));
                    out.set(found, sub);
                    precs.set(found, p);
                    proof {
                        winners = winners.update(found as int, j as int);
                        assert forall|k: int|
                            0 <= k < j + 1 && same_key(inp[k], inp[j as int]) implies
                            spec_precedence(inp[k]) <= spec_precedence(inp[j as int]) by {
                            if k < j {
                                assert(same_key(inp[k], inp[w]));
                            }
                        }
                        assert forall|k: int|
                            0 <= k < j && same_key(inp[k], inp[j as int]) implies spec_precedence(
                            inp[k],
                        ) < spec_precedence(inp[j as int]) by {
                            assert(same_key(inp[k], inp[w]));
                        }
                        assert(best_up_to(inp, j as int + 1, j as int));
                    }
                } else {
                    // The kept record stays; the new one only extends the
                    // range the winner is best over.
                    proof {
                        assert(best_up_to(inp, j as int + 1, w));
                    }
                }
                proof {
                    assert forall|m: int| 0 <= m < out.len() implies {
                        let w2 = #[trigger] winners[m];
                        &&& best_up_to(inp, j as int + 1, w2)
                        &&& out@[m]@ == spec_subscriber_of(inp[w2])
                        &&& keys@[m]@ == email_key(inp[w2])
                        &&& precs@[m] as int == spec_precedence(inp[w2])
                    } by {
                        let w2 = winners[m];
                        if m != found {
                            assert(best_up_to(inp, j as int, w2));
                            assert forall|k: int|
                                0 <= k < j + 1 && same_key(inp[k], inp[w2]) implies
                                spec_precedence(inp[k]) <= spec_precedence(inp[w2]) by {
                                if k == j {
                                    // Its key differs from this entry's key.
                                    if m < found {
                                        assert(keys@[m]@ != keys@[found as int]@);
                                    } else {
                                        assert(keys@[found as int]@ != keys@[m]@);
                                    }
                                    assert(email_key(inp[k]) == key@);
                                    assert(email_key(inp[w2]) == keys@[m]@);
                                    assert(false);
                                }
                            }
                        }
                    }
                    assert(keys@[found as int]@ == email_key(inp[j as int]));
                }
            } else {
                // A key never seen: a previous record with the same key would
                // already stand in `keys`.
                proof {
                    assert forall|k: int| 0 <= k < j implies !same_key(
                        inp[k],
                        inp[j as int],
                    ) by {
                        if same_key(inp[k], inp[j as int]) {
                            let m = choose|m: int|
                                0 <= m < keys.len() && (#[trigger] keys@[m])@ == email_key(inp[k]);
                            assert(keys@[m]@ == key@);
                            assert(false);
                        }
                    }
                    assert(best_up_to(inp, j as int + 1, j as int));
                }
                let ghost keys_pre = keys@;
                let sub = Subscriber {
                    email: email.clone(),
                    name: display_name(c),
                    attributes: String::new(),
                    subscribed: !c.email_unsubscribed,
                };
                assert(sub@ == spec_subscriber_of(inp[j as int]));
                out.push(sub);
                keys.push(key);
                precs.push(p);
                proof {
                    winners = winners.push(j as int);
                    assert forall|m: int| 0 <= m < out.len() implies {
                        let w2 = #[trigger] winners[m];
                        &&& best_up_to(inp, j as int + 1, w2)
                        &&& out@[m]@ == spec_subscriber_of(inp[w2])
                        &&& keys@[m]@ == email_key(inp[w2])
                        &&& precs@[m] as int == spec_precedence(inp[w2])
                    } by {
                        let w2 = winners[m];
                        if m < out.len() - 1 {
                            assert(best_up_to(inp, j as int, w2));
                            assert forall|k: int|
                                0 <= k < j + 1 && same_key(inp[k], inp[w2]) implies
                                spec_precedence(inp[k]) <= spec_precedence(inp[w2]) by {
                                if k == j {
                                    assert(same_key(inp[w2], inp[j as int]));
                                    assert(false);
                                }
                            }
                        }
                    }
                    assert forall|k: int|
                        0 <= k < j + 1 && has_email(#[trigger] inp[k]) implies exists|m: int|
                        0 <= m < keys.len() && (#[trigger] keys@[m])@ == email_key(inp[k]) by {
                        if k == j {
                            assert(keys@[keys@.len() - 1]@ == email_key(inp[j as int]));
                        } else {
                            let m = choose|m: int|
                                0 <= m < keys_pre.len() && (#[trigger] keys_pre[m])@ == email_key(
                                    inp[k],
                                );
                            assert(keys@[m] == keys_pre[m]);
                        }
                    }
                }
            }
        } else {
            assert(!has_email(inp[j as int]));
        }
    }
    proof {
        assert(inp.len() == customers@.len());
        assert forall|i: int| 0 <= i < subscriber_views(out@).len() implies derived_somewhere(
            inp,
            #[trigger] subscriber_views(out@)[i],
        ) by {
            assert(subscriber_views(out@)[i] == out@[i]@);
            let w = winners[i];
            assert(best_up_to(inp, inp.len() as int, w));
            assert(derived_from(inp, subscriber_views(out@)[i], w));
        }
        assert forall|i1: int, i2: int| 0 <= i1 < i2 < subscriber_views(out@).len() implies
            lower_of(#[trigger] subscriber_views(out@)[i1].email) != lower_of(
            #[trigger] subscriber_views(out@)[i2].email,
        ) by {
            assert(subscriber_views(out@)[i1] == out@[i1]@);
            assert(subscriber_views(out@)[i2] == out@[i2]@);
            let w1 = winners[i1];
            let w2 = winners[i2];
            assert(out@[i1]@ == spec_subscriber_of(inp[w1]));
            assert(out@[i2]@ == spec_subscriber_of(inp[w2]));
            assert(lower_of(out@[i1]@.email) == keys@[i1]@);
            assert(lower_of(out@[i2]@.email) == keys@[i2]@);
        }
        assert forall|j: int| 0 <= j < inp.len() && has_email(#[trigger] inp[j]) implies exists|
            i: int,
        | 0 <= i < subscriber_views(out@).len() && lower_of(
            #[trigger] subscriber_views(out@)[i].email,
        ) == email_key(inp[j]) by {
            let m = choose|m: int| 0 <= m < keys@.len() && (#[trigger] keys@[m])@ == email_key(
                inp[j],
            );
            assert(subscriber_views(out@)[m] == out@[m]@);
            let w = winners[m];
            assert(out@[m]@ == spec_subscriber_of(inp[w]));
            assert(keys@[m]@ == email_key(inp[w]));
            assert(lower_of(subscriber_views(out@)[m].email) == keys@[m]@);
        }
    }
    out
}

/// The subsequence of subscribers that belongs to the given bucket.
pub open spec fn spec_bucket(subs: Seq<SubscriberModel>, subscribed: bool) -> Seq<SubscriberModel> {
    subs.filter(|s: SubscriberModel| s.subscribed == subscribed)
}

/// Selects one bucket out of the reconciled subscribers: the subscribed or
/// the blocked ones, keeping their order.
pub fn bucket(subs: &Vec<Subscriber>, subscribed: bool) -> (r: Vec<Subscriber>)
    ensures
        subscriber_views(r@) == spec_bucket(subscriber_views(subs@), subscribed),
{
    let mut r: Vec<Subscriber> = Vec::new();
    let n = subs.len();
    for i in 0..n
        invariant
            n == subs.len(),
            subscriber_views(r@) == spec_bucket(subscriber_views(subs@.take(i as int)), subscribed),
    {
        proof {
            reveal(Seq::filter);
            assert(subscriber_views(subs@.take(i as int + 1)).drop_last() =~= subscriber_views(
                subs@.take(i as int),
            ));
            assert(subscriber_views(subs@.take(i as int + 1)).last() == subs@[i as int]@);
        }
        if subs[i].subscribed == subscribed {
            let s = &subs[i];
            r.push(
                Subscriber {
                    email: s.email.clone(),
                    name: s.name.clone(),
                    attributes: s.attributes.clone(),
                    subscribed: s.subscribed,
                },
            );
            proof {
                assert(subscriber_views(r@).drop_last() =~= subscriber_views(
                    r@.take(r@.len() - 1),
                ));
                assert(subscriber_views(r@) =~= spec_bucket(
                    subscriber_views(subs@.take(i as int + 1)),
                    subscribed,
                ));
            }
        } else {
            proof {
                assert(subscriber_views(r@) =~= spec_bucket(
                    subscriber_views(subs@.take(i as int + 1)),
                    subscribed,
                ));
            }
        }
    }
    proof {
        assert(subs@.take(n as int) =~= subs@);
    }
    r
}

} // verus!
