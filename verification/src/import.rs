use vstd::prelude::*;
use vstd::string::StringExecFns;
use crate::model::{RemoteCustomer, Subscriber, RunConfig};
use crate::reconcile::{reconcile, reconciles, bucket, spec_bucket, customer_views,
    subscriber_views};
use crate::csvenc::{generate_import_csv, spec_csv};
use crate::strutil::{push_char, u64_to_decimal, spec_decimal};

verus! {

/// The mode token naming a bucket's import semantics.
pub open spec fn spec_mode_token(subscribe: bool) -> Seq<char> {
    if subscribe {
        "subscribe"@
    } else {
        "blocklist"@
    }
}

/// The subscription-status token derived from the confirmation policy.
pub open spec fn spec_status_token(confirmed: bool) -> Seq<char> {
    if confirmed {
        "confirmed"@
    } else {
        "unconfirmed"@
    }
}

/// A boolean as its serialized token.
pub open spec fn spec_bool_token(b: bool) -> Seq<char> {
    if b {
        "true"@
    } else {
        "false"@
    }
}

/// The list IDs as a comma-separated decimal array body.
pub open spec fn spec_lists(lists: Seq<u64>) -> Seq<char>
    decreases lists.len(),
{
    if lists.len() == 0 {
        Seq::empty()
    } else if lists.len() == 1 {
        spec_decimal(lists[0] as int)
    } else {
        spec_decimal(lists[0] as int) + seq![','] + spec_lists(lists.skip(1))
    }
}

/// The serialized import metadata: mode, the fixed field delimiter, the
/// subscription status, the destination list IDs, and the overwrite flag,
/// as one serialized object.
pub open spec fn spec_import_params(
    subscribe: bool,
    confirmed: bool,
    lists: Seq<u64>,
    overwrite: bool,
) -> Seq<char> {
    "{\"mode\":\""@ + spec_mode_token(subscribe) + "\",\"delim\":\",\",\"subscription_status\":\""@
        + spec_status_token(confirmed) + "\",\"lists\":["@ + spec_lists(lists)
        + "],\"overwrite\":"@ + spec_bool_token(overwrite) + "}"@
}

proof fn lemma_lists_snoc(a: Seq<u64>, x: u64)
    ensures
        spec_lists(a.push(x)) == if a.len() == 0 {
            spec_decimal(x as int)
        } else {
            spec_lists(a) + seq![','] + spec_decimal(x as int)
        },
    decreases a.len(),
{
    if a.len() == 0 {
        assert(a.push(x).len() == 1);
        assert(a.push(x)[0] == x);
    } else {
        assert(a.push(x).skip(1) =~= a.skip(1).push(x));
        lemma_lists_snoc(a.skip(1), x);
        assert(spec_lists(a.push(x)) =~= spec_lists(a) + seq![','] + spec_decimal(x as int));
    }
}

/// Builds the import metadata text for one bucket under the given
/// configuration.
pub fn import_params_json(subscribe: bool, config: &RunConfig) -> (r: String)
    ensures
        r@ == spec_import_params(
            subscribe,
            config.listmonk_confirmation,
            config.listmonk_list_ids@,
            config.listmonk_overwrite,
        ),
{
    let mut buf = String::from_str("{\"mode\":\"");
    buf.append(
        if subscribe {
            "subscribe"
        } else {
            "blocklist"
        },
    );
    buf.append("\",\"delim\":\",\",\"subscription_status\":\"");
    buf.append(
        if config.listmonk_confirmation {
            "confirmed"
        } else {
            "unconfirmed"
        },
    );
    buf.append("\",\"lists\":[");
    let ghost pre = buf@;
    let ids = &config.listmonk_list_ids;
    let n = ids.len();
    assert(buf@ =~= pre + spec_lists(ids@.take(0)));
    for i in 0..n
        invariant
            n == ids.len(),
            buf@ == pre + spec_lists(ids@.take(i as int)),
    {
        if i > 0 {
            push_char(&mut buf, ',');
        }
        let d = u64_to_decimal(ids[i]);
        buf.append(d.as_str());
        proof {
            assert(ids@.take(i as int + 1) =~= ids@.take(i as int).push(ids@[i as int]));
            lemma_lists_snoc(ids@.take(i as int), ids@[i as int]);
            assert(buf@ =~= pre + spec_lists(ids@.take(i as int + 1)));
        }
    }
    assert(ids@.take(n as int) =~= ids@);
    buf.append("],\"overwrite\":");
    buf.append(
        if config.listmonk_overwrite {
            "true"
        } else {
            "false"
        },
    );
    buf.append("}");
    assert(buf@ =~= spec_import_params(
        subscribe,
        config.listmonk_confirmation,
        config.listmonk_list_ids@,
        config.listmonk_overwrite,
    ));
    buf
}

/// One bucket's upload: the serialized import metadata, the encoded rows, the
/// bucket mode, and the row count for the run report.
pub struct ImportBatch {
    pub subscribe: bool,
    pub params: String,
    pub csv: String,
    pub count: usize,
}

/// Whether `batch` is exactly the upload that the given subscribers and
/// configuration call for in the given bucket.
pub open spec fn batch_for(
    batch: ImportBatch,
    subs: Seq<crate::model::SubscriberModel>,
    config: RunConfig,
    subscribe: bool,
) -> bool {
    &&& batch.subscribe == subscribe
    &&& batch.params@ == spec_import_params(
        subscribe,
        config.listmonk_confirmation,
        config.listmonk_list_ids@,
        config.listmonk_overwrite,
    )
    &&& batch.csv@ == spec_csv(spec_bucket(subs, subscribe))
    &&& batch.count == spec_bucket(subs, subscribe).len()
}

/// Builds one bucket's import batch: the bucket's subscribers encoded as
/// import rows, paired with the metadata for that bucket.
pub fn build_import_batch(subs: &Vec<Subscriber>, subscribe: bool, config: &RunConfig) -> (r:
    ImportBatch)
    ensures
        batch_for(r, subscriber_views(subs@), *config, subscribe),
{
    let picked = bucket(subs, subscribe);
    let csv = generate_import_csv(&picked);
    let params = import_params_json(subscribe, config);
    let count = picked.len();
    ImportBatch { subscribe, params, csv, count }
}

/// The whole compute side of one sync run: reconciles the fetched customers
/// and builds the two bucket uploads, the subscribe bucket first, the
/// blocklist bucket second.
pub fn plan_run(customers: &Vec<RemoteCustomer>, config: &RunConfig) -> (r: (
    Vec<Subscriber>,
    Vec<ImportBatch>,
))
    ensures
        reconciles(customer_views(customers@), subscriber_views(r.0@)),
        r.1@.len() == 2,
        batch_for(r.1@[0], subscriber_views(r.0@), *config, true),
        batch_for(r.1@[1], subscriber_views(r.0@), *config, false),
{
    let subscribers = reconcile(customers);
    let mut batches: Vec<ImportBatch> = Vec::new();
    batches.push(build_import_batch(&subscribers, true, config));
    batches.push(build_import_batch(&subscribers, false, config));
    (subscribers, batches)
}

} // verus!
