use collection_traits::aggregate::{classify, Aggregator, FetchOutcome, Resolution};
use collection_traits::descriptor::{flatten_attributes, Attribute, AttributeList, Descriptor, Token};
use collection_traits::discovery::{
    queries_for, record_belongs, record_passes, LayoutVariant, RetryDecision, RetryPolicy,
    RECORD_SIZE,
};
use collection_traits::identity::{Identity, IdentityError};
use collection_traits::pipeline::{advance, Action, Event, Stage};
use collection_traits::pool::{PoolAction, PoolSettings, ResolverPool, MAX_IN_FLIGHT};
use collection_traits::record::{decode, DecodeError};
use collection_traits::text::truncate_at_nul;
use serde_json::Value;

fn text(s: &str) -> Value {
    Value::String(s.to_string())
}

fn attr(t: &str, v: Value) -> Attribute {
    Attribute { trait_type: t.to_string(), value: v }
}

fn descriptor(name: &str, image: &str, attrs: AttributeList) -> Descriptor {
    Descriptor::new(name.to_string(), image.to_string(), attrs)
}

fn borsh_string(out: &mut Vec<u8>, s: &[u8]) {
    out.extend_from_slice(&(s.len() as u32).to_le_bytes());
    out.extend_from_slice(s);
}

fn metadata_bytes(mint: [u8; 32], name: &[u8], uri: &str) -> Vec<u8> {
    let mut out = vec![4u8];
    out.extend_from_slice(&[9u8; 32]);
    out.extend_from_slice(&mint);
    borsh_string(&mut out, name);
    borsh_string(&mut out, b"SYM");
    borsh_string(&mut out, uri.as_bytes());
    out.extend_from_slice(&500u16.to_le_bytes());
    out.push(0); // no creators
    out.push(1); // primary sale happened
    out.push(1); // mutable
    out.push(0); // no edition nonce
    out
}

#[test]
fn name_is_cut_at_first_nul() {
    assert_eq!(truncate_at_nul("abc\0\0\0"), "abc");
    assert_eq!(truncate_at_nul("ab\0c\0"), "ab");
    assert_eq!(truncate_at_nul("\0abc"), "");
}

#[test]
fn name_without_nul_is_kept_whole() {
    assert_eq!(truncate_at_nul("Mad Lads"), "Mad Lads");
    assert_eq!(truncate_at_nul(""), "");
    assert_eq!(truncate_at_nul("héllo"), "héllo");
}

#[test]
fn identity_text_round_trip() {
    let zero = Identity::new([0u8; 32]);
    assert_eq!(zero.to_base58(), "11111111111111111111111111111111");
    let parsed = Identity::parse("11111111111111111111111111111111").unwrap();
    assert_eq!(parsed, zero);
    let id = Identity::new([7u8; 32]);
    assert_eq!(Identity::parse(&id.to_base58()), Ok(id));
}

#[test]
fn identity_rejects_bad_text() {
    assert_eq!(Identity::parse("not a key"), Err(IdentityError::Invalid));
    assert_eq!(Identity::parse(""), Err(IdentityError::Invalid));
    assert_eq!(Identity::parse("0OIl"), Err(IdentityError::Invalid));
}

#[test]
fn metadata_address_is_derived_from_mint() {
    let a = Identity::new([1u8; 32]);
    let b = Identity::new([2u8; 32]);
    let pa = a.metadata_address().unwrap();
    let pb = b.metadata_address().unwrap();
    assert_ne!(pa, a);
    assert_ne!(pa, pb);
    assert_eq!(a.metadata_address(), Some(pa));
}

#[test]
fn decode_reads_mint_name_and_uri() {
    let data = metadata_bytes([3u8; 32], b"Lad #1\0\0\0\0", "https://example.com/1.json");
    let rec = decode(&data).unwrap();
    assert_eq!(rec.owner, Identity::new([3u8; 32]));
    assert_eq!(rec.name, "Lad #1");
    assert_eq!(rec.descriptor_uri, "https://example.com/1.json");
}

#[test]
fn decode_keeps_uri_as_any_text() {
    let data = metadata_bytes([3u8; 32], b"X", "not a url");
    let rec = decode(&data).unwrap();
    assert_eq!(rec.name, "X");
    assert_eq!(rec.descriptor_uri, "not a url");
}

#[test]
fn decode_rejects_wrong_header() {
    assert_eq!(decode(&[]).err(), Some(DecodeError::WrongKind));
    let mut data = metadata_bytes([3u8; 32], b"X", "u");
    data[0] = 6;
    assert_eq!(decode(&data).err(), Some(DecodeError::WrongKind));
}

#[test]
fn decode_rejects_truncated_record() {
    let data = metadata_bytes([3u8; 32], b"Lad", "u");
    assert_eq!(decode(&data[..40]).err(), Some(DecodeError::Malformed));
    assert_eq!(decode(&[4u8]).err(), Some(DecodeError::Malformed));
}

#[test]
fn duplicate_trait_last_value_wins() {
    let d = descriptor(
        "A",
        "u1",
        AttributeList::Many(vec![attr("Hat", text("Cap")), attr("Hat", text("None"))]),
    );
    let token = Token::from_resolved(Identity::new([0u8; 32]), d);
    assert_eq!(token.attributes.len(), 1);
    assert_eq!(token.attributes[0].0, "Hat");
    assert_eq!(token.attributes[0].1, text("None"));
}

#[test]
fn flatten_keeps_distinct_traits() {
    let flat = flatten_attributes(vec![
        attr("Hat", text("Cap")),
        attr("Eyes", Value::from(3)),
        attr("Hat", Value::Null),
        attr("Mouth", Value::Bool(true)),
    ]);
    assert_eq!(flat.len(), 3);
    assert_eq!(flat[0], ("Hat".to_string(), Value::Null));
    assert_eq!(flat[1], ("Eyes".to_string(), Value::from(3)));
    assert_eq!(flat[2], ("Mouth".to_string(), Value::Bool(true)));
    assert!(flatten_attributes(vec![]).is_empty());
}

#[test]
fn single_attribute_equals_one_element_array() {
    let owner = Identity::new([5u8; 32]);
    let one = Token::from_resolved(owner, descriptor("A", "u1", AttributeList::One(attr("Color", text("Red")))));
    let many = Token::from_resolved(
        owner,
        descriptor("A", "u1", AttributeList::Many(vec![attr("Color", text("Red"))])),
    );
    assert_eq!(one.name, many.name);
    assert_eq!(one.image, many.image);
    assert_eq!(one.mint_address, many.mint_address);
    assert_eq!(one.attributes, many.attributes);
}

#[test]
fn token_fields_come_from_descriptor_and_mint() {
    let owner = Identity::new([5u8; 32]);
    let token = Token::from_resolved(owner, descriptor("Lad", "img", AttributeList::Many(vec![])));
    assert_eq!(token.name, "Lad");
    assert_eq!(token.image, "img");
    assert_eq!(token.mint_address, owner.to_base58());
    assert!(token.attributes.is_empty());
}

#[test]
fn one_resolved_one_skipped_report() {
    let mut agg = Aggregator::new("Coll".to_string());
    let good = descriptor("A", "u1", AttributeList::One(attr("Color", text("Red"))));
    agg.record(classify(Identity::new([1u8; 32]), FetchOutcome::Parsed(good)));
    agg.record(classify(Identity::new([2u8; 32]), FetchOutcome::RequestFailed));
    assert_eq!(agg.tokens().len(), 1);
    assert_eq!(agg.trait_types(), &vec!["Color".to_string()]);
    assert_eq!(agg.skipped(), 1);
    assert_eq!(agg.collection_name(), "Coll");
    let (name, traits, tokens, skipped) = agg.into_parts();
    assert_eq!(name, "Coll");
    assert_eq!(traits.len(), 1);
    assert_eq!(tokens[0].name, "A");
    assert_eq!(skipped, 1);
}

#[test]
fn observe_order_does_not_matter() {
    let items = || {
        vec![
            (Identity::new([1u8; 32]), descriptor("A", "a", AttributeList::Many(vec![attr("Hat", text("Cap")), attr("Eyes", text("Blue"))]))),
            (Identity::new([2u8; 32]), descriptor("B", "b", AttributeList::One(attr("Mouth", text("Grin"))))),
            (Identity::new([3u8; 32]), descriptor("C", "c", AttributeList::Many(vec![attr("Hat", text("Top"))]))),
        ]
    };
    let mut forward = Aggregator::new("C".to_string());
    for (owner, d) in items() {
        forward.observe(owner, d);
    }
    let mut backward = Aggregator::new("C".to_string());
    for (owner, d) in items().into_iter().rev() {
        backward.observe(owner, d);
    }
    let mut t1 = forward.trait_types().clone();
    let mut t2 = backward.trait_types().clone();
    t1.sort();
    t2.sort();
    assert_eq!(t1, vec!["Eyes".to_string(), "Hat".to_string(), "Mouth".to_string()]);
    assert_eq!(t1, t2);
    let mut n1: Vec<String> = forward.tokens().iter().map(|t| t.mint_address.clone()).collect();
    let mut n2: Vec<String> = backward.tokens().iter().map(|t| t.mint_address.clone()).collect();
    n1.sort();
    n2.sort();
    assert_eq!(n1, n2);
}

#[test]
fn skipped_plus_tokens_equals_records() {
    let mut agg = Aggregator::new("C".to_string());
    for i in 0..10u8 {
        let outcome = match i % 3 {
            0 => FetchOutcome::RequestFailed,
            1 => FetchOutcome::BodyInvalid,
            _ => FetchOutcome::Parsed(descriptor("N", "i", AttributeList::Many(vec![]))),
        };
        agg.record(classify(Identity::new([i; 32]), outcome));
    }
    assert_eq!(agg.skipped() + agg.tokens().len(), 10);
    assert_eq!(agg.tokens().len(), 3);
    assert!(agg.trait_types().is_empty());
}

#[test]
fn classify_outcomes() {
    let id = Identity::new([1u8; 32]);
    assert!(matches!(classify(id, FetchOutcome::RequestFailed), Resolution::Skipped));
    assert!(matches!(classify(id, FetchOutcome::BodyInvalid), Resolution::Skipped));
    let d = descriptor("A", "u", AttributeList::Many(vec![]));
    assert!(matches!(classify(id, FetchOutcome::Parsed(d)), Resolution::Resolved(o, _) if o == id));
}

#[test]
fn pool_never_exceeds_limit() {
    let settings = PoolSettings::standard();
    assert_eq!(settings.max_in_flight, 64);
    assert_eq!(settings.max_fetch_retries, 8);
    let mut pool = ResolverPool::new(settings, 200);
    let mut peak = 0usize;
    let mut starts = 0usize;
    loop {
        match pool.next_action() {
            PoolAction::Start => {
                pool.start();
                starts += 1;
            }
            PoolAction::Await => pool.complete(),
            PoolAction::Finished => break,
        }
        peak = peak.max(pool.in_flight_count());
        assert!(pool.in_flight_count() <= MAX_IN_FLIGHT);
    }
    assert_eq!(peak, 64);
    assert_eq!(starts, 200);
    assert_eq!(pool.done_count(), 200);
}

#[test]
fn empty_pool_is_finished() {
    let pool = ResolverPool::new(PoolSettings::standard(), 0);
    assert_eq!(pool.next_action(), PoolAction::Finished);
}

#[test]
fn queries_cover_both_layouts() {
    let c = Identity::new([8u8; 32]);
    let qs = queries_for(&c);
    assert_eq!(qs.len(), 2);
    assert_eq!(qs[0].offset, 401);
    assert_eq!(qs[1].offset, 402);
    assert!(qs.iter().all(|q| q.data_size == 679 && q.collection == [8u8; 32]));
    assert_eq!(LayoutVariant::all(), vec![LayoutVariant::Unpadded, LayoutVariant::Padded]);
    assert_eq!(LayoutVariant::Padded.collection_offset(), 402);
}

#[test]
fn record_membership_under_either_layout() {
    let c = Identity::new([8u8; 32]);
    let mut at401 = vec![0u8; RECORD_SIZE];
    at401[401..433].copy_from_slice(&[8u8; 32]);
    let mut at402 = vec![0u8; RECORD_SIZE];
    at402[402..434].copy_from_slice(&[8u8; 32]);
    let elsewhere = vec![0u8; RECORD_SIZE];
    let mut short = vec![0u8; 500];
    short[401..433].copy_from_slice(&[8u8; 32]);
    assert!(record_belongs(&c, &at401));
    assert!(record_belongs(&c, &at402));
    assert!(!record_belongs(&c, &elsewhere));
    assert!(!record_belongs(&c, &short));
    let qs = queries_for(&c);
    assert!(record_passes(&qs[0], &at401));
    assert!(!record_passes(&qs[1], &at401));
}

#[test]
fn retry_policies() {
    let q = RetryPolicy::record_queries();
    assert_eq!(q.after_failure(1), RetryDecision::RetryAfter(5));
    assert_eq!(q.after_failure(u32::MAX), RetryDecision::RetryAfter(5));
    let b = RetryPolicy { delay_secs: 2, max_attempts: Some(8) };
    assert_eq!(b.after_failure(7), RetryDecision::RetryAfter(2));
    assert_eq!(b.after_failure(8), RetryDecision::GiveUp);
}

#[test]
fn run_walks_every_layout_then_resolves() {
    let policy = RetryPolicy::record_queries();
    let (s, a) = advance(&policy, Stage::Start, Event::NameResolved);
    assert_eq!(s, Stage::Discovering(0, 0));
    assert_eq!(a, Action::Query(LayoutVariant::Unpadded));
    let (s, a) = advance(&policy, s, Event::QueryFailed);
    assert_eq!(s, Stage::Discovering(0, 1));
    assert_eq!(a, Action::RetryAfter(5, LayoutVariant::Unpadded));
    let (s, a) = advance(&policy, s, Event::QueryReturned);
    assert_eq!(s, Stage::Discovering(1, 0));
    assert_eq!(a, Action::Query(LayoutVariant::Padded));
    let (s, a) = advance(&policy, s, Event::QueryReturned);
    assert_eq!(s, Stage::Resolving);
    assert_eq!(a, Action::Resolve);
    let (s2, a2) = advance(&policy, s, Event::QueryFailed);
    assert_eq!((s2, a2), (Stage::Resolving, Action::Ignore));
    let (s, a) = advance(&policy, s, Event::Drained);
    assert_eq!(s, Stage::Finalized);
    assert_eq!(a, Action::Finish);
}

#[test]
fn capped_policy_abandons_discovery() {
    let policy = RetryPolicy { delay_secs: 1, max_attempts: Some(2) };
    let (s, _) = advance(&policy, Stage::Start, Event::NameResolved);
    let (s, a) = advance(&policy, s, Event::QueryFailed);
    assert_eq!(a, Action::RetryAfter(1, LayoutVariant::Unpadded));
    let (s, a) = advance(&policy, s, Event::QueryFailed);
    assert_eq!(s, Stage::Abandoned);
    assert_eq!(a, Action::Abort);
}

#[test]
fn query_failures_never_give_up_by_default() {
    let policy = RetryPolicy::record_queries();
    let mut s = Stage::Discovering(1, u32::MAX - 1);
    for _ in 0..3 {
        let (next, a) = advance(&policy, s, Event::QueryFailed);
        assert_eq!(a, Action::RetryAfter(5, LayoutVariant::Padded));
        s = next;
    }
    assert_eq!(s, Stage::Discovering(1, u32::MAX));
}
