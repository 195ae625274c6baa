use vstd::prelude::*;
use crate::model::{Subscriber, SubscriberModel};
use crate::reconcile::subscriber_views;
use crate::strutil::push_char;

verus! {

/// A field's characters with every quote doubled, as standard delimited-text
/// quoting requires inside a quoted field.
pub open spec fn doubled(s: Seq<char>) -> Seq<char>
    decreases s.len(),
{
    if s.len() == 0 {
        Seq::empty()
    } else {
        (if s[0] == '"' {
            seq!['"', '"']
        } else {
            seq![s[0]]
        }) + doubled(s.skip(1))
    }
}

/// One encoded field: always quoted, with inner quotes doubled.
pub open spec fn spec_field(s: Seq<char>) -> Seq<char> {
    seq!['"'] + doubled(s) + seq!['"']
}

/// One encoded row of the three columns email, name, attributes.
pub open spec fn spec_row(e: Seq<char>, n: Seq<char>, a: Seq<char>) -> Seq<char> {
    spec_field(e) + seq![','] + spec_field(n) + seq![','] + spec_field(a) + seq!['\n']
}

/// The header row naming the three columns.
pub open spec fn spec_header() -> Seq<char> {
    spec_row("email"@, "name"@, "attributes"@)
}

/// The encoded rows of a subscriber sequence, one per subscriber, in order.
pub open spec fn spec_rows(subs: Seq<SubscriberModel>) -> Seq<char>
    decreases subs.len(),
{
    if subs.len() == 0 {
        Seq::empty()
    } else {
        spec_row(subs[0].email, subs[0].name, subs[0].attributes) + spec_rows(subs.skip(1))
    }
}

/// The whole import text: empty for zero rows (no upload content beyond
/// metadata), else the header row followed by one row per subscriber.
pub open spec fn spec_csv(subs: Seq<SubscriberModel>) -> Seq<char> {
    if subs.len() == 0 {
        Seq::empty()
    } else {
        spec_header() + spec_rows(subs)
    }
}

proof fn lemma_doubled_append(a: Seq<char>, b: Seq<char>)
    ensures
        doubled(a + b) == doubled(a) + doubled(b),
    decreases a.len(),
{
    if a.len() == 0 {
        assert(a + b =~= b);
        assert(doubled(a) + doubled(b) =~= doubled(b));
    } else {
        assert((a + b).skip(1) =~= a.skip(1) + b);
        lemma_doubled_append(a.skip(1), b);
        assert(doubled(a + b) =~= doubled(a) + doubled(b));
    }
}

proof fn lemma_doubled_single(c: char)
    ensures
        doubled(seq![c]) == if c == '"' {
            seq!['"', '"']
        } else {
            seq![c]
        },
{
    let s = seq![c];
    assert(s.skip(1) =~= Seq::<char>::empty());
    assert(doubled(s.skip(1)) == Seq::<char>::empty());
    assert(doubled(s) =~= if c == '"' {
        seq!['"', '"']
    } else {
        seq![c]
    });
}

/// Appends one always-quoted field to the buffer.
fn append_field(buf: &mut String, s: &str)
    ensures
        final(buf)@ == old(buf)@ + spec_field(s@),
{
    push_char(buf, '"');
    let n = s.unicode_len();
    assert(buf@ =~= old(buf)@ + seq!['"'] + doubled(s@.take(0)));
    for i in 0..n
        invariant
            n == s@.len(),
            buf@ == old(buf)@ + seq!['"'] + doubled(s@.take(i as int)),
    {
        let c = s.get_char(i);
        proof {
            assert(s@.take(i as int + 1) =~= s@.take(i as int) + seq![s@[i as int]]);
            lemma_doubled_append(s@.take(i as int), seq![s@[i as int]]);
            lemma_doubled_single(s@[i as int]);
        }
        if c == '"' {
            push_char(buf, '"');
            push_char(buf, '"');
        } else {
            push_char(buf, c);
        }
        assert(buf@ =~= old(buf)@ + seq!['"'] + doubled(s@.take(i as int + 1)));
    }
    assert(s@.take(n as int) =~= s@);
    push_char(buf, '"');
    assert(buf@ =~= old(buf)@ + spec_field(s@));
}

/// Appends one encoded row of three fields to the buffer.
fn append_row(buf: &mut String, e: &str, n: &str, a: &str)
    ensures
        final(buf)@ == old(buf)@ + spec_row(e@, n@, a@),
{
    append_field(buf, e);
    push_char(buf, ',');
    append_field(buf, n);
    push_char(buf, ',');
    append_field(buf, a);
    push_char(buf, '\n');
    assert(buf@ =~= old(buf)@ + spec_row(e@, n@, a@));
}

/// Serializes a subscriber set into the destination's comma-delimited
/// bulk-import text: a header row and one quoted row per subscriber with the
/// columns email, name, attributes; empty text for an empty set. The bucket
/// flag is never written to the rows; it travels in the import metadata.
pub fn generate_import_csv(subscribers: &Vec<Subscriber>) -> (r: String)
    ensures
        r@ == spec_csv(subscriber_views(subscribers@)),
{
    let ghost views = subscriber_views(subscribers@);
    if subscribers.len() == 0 {
        return String::new();
    }
    let mut buf = String::new();
    append_row(&mut buf, "email", "name", "attributes");
    assert(buf@ =~= spec_header() + spec_rows(views.take(0)));
    let n = subscribers.len();
    for i in 0..n
        invariant
            n == subscribers.len(),
            views == subscriber_views(subscribers@),
            views.len() == n,
            buf@ == spec_header() + spec_rows(views.take(i as int)),
    {
        let s = &subscribers[i];
        assert(s@ == views[i as int]);
        append_row(&mut buf, s.email.as_str(), s.name.as_str(), s.attributes.as_str());
        proof {
            assert(views.take(i as int + 1) =~= views.take(i as int) + seq![views[i as int]]);
            lemma_rows_append(views.take(i as int), seq![views[i as int]]);
            let single = seq![views[i as int]];
            assert(single.skip(1) =~= Seq::<SubscriberModel>::empty());
            assert(spec_rows(single.skip(1)) == Seq::<char>::empty());
            assert(spec_rows(single) =~= spec_row(
                views[i as int].email,
                views[i as int].name,
                views[i as int].attributes,
            ));
            assert(buf@ =~= spec_header() + spec_rows(views.take(i as int + 1)));
        }
    }
    assert(views.take(n as int) =~= views);
    buf
}

proof fn lemma_rows_append(a: Seq<SubscriberModel>, b: Seq<SubscriberModel>)
    ensures
        spec_rows(a + b) == spec_rows(a) + spec_rows(b),
    decreases a.len(),
{
    if a.len() == 0 {
        assert(a + b =~= b);
        assert(spec_rows(a) + spec_rows(b) =~= spec_rows(b));
    } else {
        assert((a + b).skip(1) =~= a.skip(1) + b);
        lemma_rows_append(a.skip(1), b);
        assert(spec_rows(a + b) =~= spec_rows(a) + spec_rows(b));
    }
}

// ---------------------------------------------------------------------------
// A model of a standard delimited-text reader over quoted fields, to state
// that decoding gives the encoded data back.
// ---------------------------------------------------------------------------

/// Reads a quoted field's body after its opening quote: a doubled quote is
/// one literal quote, a single quote closes the field. Returns the field and
/// what follows the closing quote.
pub open spec fn parse_field_body(s: Seq<char>) -> Option<(Seq<char>, Seq<char>)>
    decreases s.len(),
{
    if s.len() == 0 {
        None
    } else if s[0] == '"' {
        if s.len() > 1 && s[1] == '"' {
            match parse_field_body(s.skip(2)) {
                Some((f, rest)) => Some((seq!['"'] + f, rest)),
                None => None,
            }
        } else {
            Some((Seq::empty(), s.skip(1)))
        }
    } else {
        match parse_field_body(s.skip(1)) {
            Some((f, rest)) => Some((seq![s[0]] + f, rest)),
            None => None,
        }
    }
}

/// Reads one quoted field, opening quote included.
pub open spec fn parse_quoted(s: Seq<char>) -> Option<(Seq<char>, Seq<char>)> {
    if s.len() > 0 && s[0] == '"' {
        parse_field_body(s.skip(1))
    } else {
        None
    }
}

/// Reads one row: three comma-separated quoted fields ended by a newline.
pub open spec fn parse_row(s: Seq<char>) -> Option<((Seq<char>, Seq<char>, Seq<char>), Seq<char>)> {
    match parse_quoted(s) {
        Some((e, r1)) => if r1.len() > 0 && r1[0] == ',' {
            match parse_quoted(r1.skip(1)) {
                Some((n, r2)) => if r2.len() > 0 && r2[0] == ',' {
                    match parse_quoted(r2.skip(1)) {
                        Some((a, r3)) => if r3.len() > 0 && r3[0] == '\n' {
                            Some(((e, n, a), r3.skip(1)))
                        } else {
                            None
                        },
                        None => None,
                    }
                } else {
                    None
                },
                None => None,
            }
        } else {
            None
        },
        None => None,
    }
}

/// Reads rows until the text is exhausted. `fuel` bounds the number of rows,
/// one per subscriber in the round trip.
pub open spec fn parse_records(s: Seq<char>, fuel: nat) -> Option<
    Seq<(Seq<char>, Seq<char>, Seq<char>)>,
>
    decreases fuel,
{
    if s.len() == 0 {
        Some(Seq::empty())
    } else if fuel == 0 {
        None
    } else {
        match parse_row(s) {
            Some((t, rest)) => match parse_records(rest, (fuel - 1) as nat) {
                Some(r) => Some(seq![t] + r),
                None => None,
            },
            None => None,
        }
    }
}

/// Reads a whole import text as a header-consuming reader does: empty text is
/// zero records; otherwise the first row is the header and the rest are the
/// records.
pub open spec fn parse_csv(s: Seq<char>, fuel: nat) -> Option<
    Seq<(Seq<char>, Seq<char>, Seq<char>)>,
> {
    if s.len() == 0 {
        Some(Seq::empty())
    } else {
        match parse_row(s) {
            Some((h, rest)) => parse_records(rest, fuel),
            None => None,
        }
    }
}

proof fn lemma_parse_field_body(f: Seq<char>, rest: Seq<char>)
    requires
        rest.len() == 0 || rest[0] != '"',
    ensures
        parse_field_body(doubled(f) + seq!['"'] + rest) == Some((f, rest)),
    decreases f.len(),
{
    let s = doubled(f) + seq!['"'] + rest;
    if f.len() == 0 {
        assert(s =~= seq!['"'] + rest);
        assert(s[0] == '"');
        if s.len() > 1 {
            assert(s[1] == rest[0]);
        }
        assert(s.skip(1) =~= rest);
    } else if f[0] == '"' {
        assert(doubled(f) =~= seq!['"', '"'] + doubled(f.skip(1)));
        assert(s[0] == '"' && s[1] == '"');
        assert(s.skip(2) =~= doubled(f.skip(1)) + seq!['"'] + rest);
        lemma_parse_field_body(f.skip(1), rest);
        assert(seq!['"'] + f.skip(1) =~= f);
    } else {
        assert(doubled(f) =~= seq![f[0]] + doubled(f.skip(1)));
        assert(s[0] == f[0]);
        assert(s.skip(1) =~= doubled(f.skip(1)) + seq!['"'] + rest);
        lemma_parse_field_body(f.skip(1), rest);
        assert(seq![f[0]] + f.skip(1) =~= f);
    }
}

proof fn lemma_parse_quoted(f: Seq<char>, rest: Seq<char>)
    requires
        rest.len() == 0 || rest[0] != '"',
    ensures
        parse_quoted(spec_field(f) + rest) == Some((f, rest)),
{
    let s = spec_field(f) + rest;
    assert(s.len() > 0 && s[0] == '"');
    assert(s.skip(1) =~= doubled(f) + seq!['"'] + rest);
    lemma_parse_field_body(f, rest);
}

proof fn lemma_parse_row(e: Seq<char>, n: Seq<char>, a: Seq<char>, rest: Seq<char>)
    ensures
        parse_row(spec_row(e, n, a) + rest) == Some(((e, n, a), rest)),
{
    let s = spec_row(e, n, a) + rest;
    let r1 = seq![','] + spec_field(n) + seq![','] + spec_field(a) + seq!['\n'] + rest;
    assert(s =~= spec_field(e) + r1);
    lemma_parse_quoted(e, r1);
    let r2 = seq![','] + spec_field(a) + seq!['\n'] + rest;
    assert(r1.skip(1) =~= spec_field(n) + r2);
    lemma_parse_quoted(n, r2);
    let r3 = seq!['\n'] + rest;
    assert(r2.skip(1) =~= spec_field(a) + r3);
    lemma_parse_quoted(a, r3);
    assert(r3.skip(1) =~= rest);
}

/// The (email, name, attributes) triples of a subscriber sequence.
pub open spec fn spec_triples(subs: Seq<SubscriberModel>) -> Seq<
    (Seq<char>, Seq<char>, Seq<char>),
> {
    subs.map_values(|s: SubscriberModel| (s.email, s.name, s.attributes))
}

proof fn lemma_parse_records(subs: Seq<SubscriberModel>)
    ensures
        parse_records(spec_rows(subs), subs.len()) == Some(spec_triples(subs)),
    decreases subs.len(),
{
    if subs.len() == 0 {
        assert(spec_rows(subs).len() == 0);
        assert(spec_triples(subs) =~= Seq::<(Seq<char>, Seq<char>, Seq<char>)>::empty());
    } else {
        let s0 = subs[0];
        let s = spec_rows(subs);
        assert(s =~= spec_row(s0.email, s0.name, s0.attributes) + spec_rows(subs.skip(1)));
        lemma_parse_row(s0.email, s0.name, s0.attributes, spec_rows(subs.skip(1)));
        assert(s.len() >= spec_row(s0.email, s0.name, s0.attributes).len());
        assert(spec_field(s0.email).len() >= 2);
        assert(s.len() > 0);
        lemma_parse_records(subs.skip(1));
        assert(spec_triples(subs) =~= seq![(s0.email, s0.name, s0.attributes)] + spec_triples(
            subs.skip(1),
        ));
    }
}

/// Round trip: reading the encoded import text back with a standard
/// delimited-text reader that consumes the header yields exactly the encoded
/// (email, name, attributes) triples, in the same order.
pub proof fn lemma_csv_round_trip(subs: Seq<SubscriberModel>)
    ensures
        parse_csv(spec_csv(subs), subs.len()) == Some(spec_triples(subs)),
{
    if subs.len() == 0 {
        assert(spec_triples(subs) =~= Seq::<(Seq<char>, Seq<char>, Seq<char>)>::empty());
    } else {
        let s = spec_csv(subs);
        assert(s =~= spec_row("email"@, "name"@, "attributes"@) + spec_rows(subs));
        assert(spec_field("email"@).len() >= 2);
        assert(s.len() > 0);
        lemma_parse_row("email"@, "name"@, "attributes"@, spec_rows(subs));
        lemma_parse_records(subs);
    }
}

} // verus!
