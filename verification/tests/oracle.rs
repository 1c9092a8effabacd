use price_oracle::agent::{run_tick, TickError};
use price_oracle::fetch::{fetch_price, FetchError, NetworkError};
use price_oracle::gate::{Gate, RejectReason, SubmitOutcome};
use price_oracle::parser::{parse_decimal, parse_price, DecimalPrice, ParseError};
use price_oracle::signer::{build, public_keys, sign_payload, verify_payload, SignError};

#[test]
fn parse_price_unit_test() {
    let json_data = r#"{"data": {"priceUsd": "27.0080710784431881"}}"#;
    let price = parse_price(json_data.as_bytes()).expect("parse failed");
    assert_eq!(price.whole, 27);
    assert_eq!(price.fraction, 8071);

    let json_data = r#"{"data": {"priceUsd": "27.2380710784431881"}}"#;
    let price = parse_price(json_data.as_bytes()).expect("parse failed");
    assert_eq!(price.whole, 27);
    assert_eq!(price.fraction, 238071);

    let json_data = r#"{"data": {"priceUsd": "0.2380"}}"#;
    let price = parse_price(json_data.as_bytes()).expect("parse failed");
    assert_eq!(price.whole, 0);
    assert_eq!(price.fraction, 2380);

    let json_data = r#"{"data": {"priceUsd": "1"}}"#;
    let price = parse_price(json_data.as_bytes()).expect("parse failed");
    assert_eq!(price.whole, 1);
    assert_eq!(price.fraction, 0);
}

fn price_oracle_response() -> Vec<u8> {
    br#"
        {
            "data": {
                "id": "polkadot",
                "rank": "10",
                "symbol": "DOT",
                "name": "Polkadot",
                "supply": "1074340278.6254400000000000",
                "maxSupply": null,
                "marketCapUsd": "30350117581.7208334961700130",
                "volumeUsd24Hr": "803942185.4206424031495485",
                "priceUsd": "28.2500043845997839",
                "changePercent24Hr": "2.4606795772541142",
                "vwap24Hr": "27.9288013090470396",
                "explorer": "https://polkascan.io/polkadot"
            },
            "timestamp": 1642328751709
        }

        "#
    .to_vec()
}

#[test]
fn should_submit_unsigned_transaction_on_chain_for_any_account() {
    let secrets = vec![[42u8; 32]];
    let keys = public_keys(&secrets);
    let public = keys[0];

    let r = run_tick(Ok((200, price_oracle_response())), &secrets, 1);
    let (body, signature) = r.expect("tick produced no submission");

    let price_payload = build(DecimalPrice { whole: 28, fraction: 250004 }, public, 1);
    assert_eq!(body, price_payload);

    let signature_valid = verify_payload(&price_payload, &signature);
    assert!(signature_valid);

    let mut gate = Gate::new();
    gate.set_price_provider(public);
    assert_eq!(gate.submit(&body, &signature), SubmitOutcome::Accepted);
    assert_eq!(gate.stored, Some(DecimalPrice { whole: 28, fraction: 250004 }));
}

#[test]
fn parse_decimal_golden_and_edge_cases() {
    assert_eq!(
        parse_decimal(b"27.0080710784431881"),
        Some(DecimalPrice { whole: 27, fraction: 8071 })
    );
    assert_eq!(
        parse_decimal(b"27.2380710784431881"),
        Some(DecimalPrice { whole: 27, fraction: 238071 })
    );
    assert_eq!(parse_decimal(b"0.2380"), Some(DecimalPrice { whole: 0, fraction: 2380 }));
    assert_eq!(parse_decimal(b"1"), Some(DecimalPrice { whole: 1, fraction: 0 }));

    // only the first six fractional digits are kept, literally
    assert_eq!(parse_decimal(b"3.1415926535"), Some(DecimalPrice { whole: 3, fraction: 141592 }));
    // leading fraction zeros lower the literal value
    assert_eq!(parse_decimal(b"5.000007"), Some(DecimalPrice { whole: 5, fraction: 7 }));
    // a dot with no digits after it leaves the fraction zero
    assert_eq!(parse_decimal(b"7."), Some(DecimalPrice { whole: 7, fraction: 0 }));
    // the largest whole part that fits
    assert_eq!(
        parse_decimal(b"18446744073709551615.9"),
        Some(DecimalPrice { whole: u64::MAX, fraction: 9 })
    );

    assert_eq!(parse_decimal(b""), None);
    assert_eq!(parse_decimal(b".5"), None);
    assert_eq!(parse_decimal(b"1.2.3"), None);
    assert_eq!(parse_decimal(b"abc"), None);
    assert_eq!(parse_decimal(b"12a.5"), None);
    assert_eq!(parse_decimal(b"12.5a"), None);
    assert_eq!(parse_decimal(b"-1.5"), None);
    assert_eq!(parse_decimal(b" 1.5"), None);
    // whole part past u64::MAX
    assert_eq!(parse_decimal(b"18446744073709551616"), None);
}

#[test]
fn parse_price_rejects_bodies_without_the_field() {
    assert_eq!(parse_price(b"{}"), Err(ParseError::MalformedInput));
    assert_eq!(parse_price(b""), Err(ParseError::MalformedInput));
    assert_eq!(
        parse_price(br#"{"data": {"priceUsd": "27,5"}}"#),
        Err(ParseError::MalformedInput)
    );
    assert_eq!(
        parse_price(br#"{"data": {"priceEur": "27.5"}}"#),
        Err(ParseError::MalformedInput)
    );
}

#[test]
fn fetch_judges_status_then_body() {
    let body = br#"{"data": {"priceUsd": "1.5"}}"#;
    assert_eq!(fetch_price(200, body), Ok(DecimalPrice { whole: 1, fraction: 5 }));
    assert_eq!(fetch_price(204, body), Ok(DecimalPrice { whole: 1, fraction: 5 }));
    assert_eq!(
        fetch_price(404, body),
        Err(FetchError::Network(NetworkError::NonSuccessStatus))
    );
    assert_eq!(
        fetch_price(301, body),
        Err(FetchError::Network(NetworkError::NonSuccessStatus))
    );
    assert_eq!(
        fetch_price(200, b"nonsense"),
        Err(FetchError::Malformed(ParseError::MalformedInput))
    );
}

#[test]
fn signed_payload_verifies_and_any_tampering_fails() {
    let secrets = vec![[11u8; 32]];
    let keys = public_keys(&secrets);
    let payload = build(DecimalPrice { whole: 27, fraction: 8071 }, keys[0], 3);
    let sig = sign_payload(&payload, &secrets).expect("sign failed");
    assert!(verify_payload(&payload, &sig));

    // every single-byte change to the signature invalidates it
    for i in 0..sig.len() {
        let mut bad = sig.clone();
        bad[i] ^= 1;
        assert!(!verify_payload(&payload, &bad));
    }
    // malformed signatures return false, they never panic
    assert!(!verify_payload(&payload, &[]));
    assert!(!verify_payload(&payload, &sig[..63]));

    // any change to the signed fields invalidates the signature
    let mut other = payload;
    other.price.whole = 28;
    assert!(!verify_payload(&other, &sig));
    let mut other = payload;
    other.price.fraction = 8072;
    assert!(!verify_payload(&other, &sig));
    let mut other = payload;
    other.authored_at = 4;
    assert!(!verify_payload(&other, &sig));
    let mut other = payload;
    other.public[0] ^= 1;
    assert!(!verify_payload(&other, &sig));
}

#[test]
fn sign_fails_without_keys() {
    let payload = build(DecimalPrice { whole: 1, fraction: 0 }, [0u8; 32], 0);
    let no_secrets: Vec<[u8; 32]> = vec![];
    assert_eq!(sign_payload(&payload, &no_secrets), Err(SignError::NoKeyAvailable));
}

#[test]
fn gate_accepts_provider_resubmission_idempotently() {
    let secrets = vec![[5u8; 32]];
    let keys = public_keys(&secrets);
    let payload = build(DecimalPrice { whole: 28, fraction: 250004 }, keys[0], 7);
    let sig = sign_payload(&payload, &secrets).expect("sign failed");

    let mut gate = Gate::new();
    gate.set_price_provider(keys[0]);
    assert_eq!(gate.submit(&payload, &sig), SubmitOutcome::Accepted);
    assert_eq!(gate.stored, Some(DecimalPrice { whole: 28, fraction: 250004 }));
    assert_eq!(gate.submit(&payload, &sig), SubmitOutcome::Accepted);
    assert_eq!(gate.stored, Some(DecimalPrice { whole: 28, fraction: 250004 }));
}

#[test]
fn gate_rejects_valid_signature_from_non_provider() {
    let provider_secrets = vec![[5u8; 32]];
    let other_secrets = vec![[6u8; 32]];
    let provider_keys = public_keys(&provider_secrets);
    let other_keys = public_keys(&other_secrets);

    let payload = build(DecimalPrice { whole: 9, fraction: 9 }, other_keys[0], 2);
    let sig = sign_payload(&payload, &other_secrets).expect("sign failed");
    assert!(verify_payload(&payload, &sig));

    let mut gate = Gate::new();
    gate.set_price_provider(provider_keys[0]);
    assert_eq!(
        gate.submit(&payload, &sig),
        SubmitOutcome::Rejected(RejectReason::UnauthorizedSubmitter)
    );
    assert_eq!(gate.stored, None);
}

#[test]
fn gate_rejects_tampered_signature_regardless_of_provider() {
    let secrets = vec![[5u8; 32]];
    let keys = public_keys(&secrets);
    let payload = build(DecimalPrice { whole: 9, fraction: 9 }, keys[0], 2);
    let mut sig = sign_payload(&payload, &secrets).expect("sign failed");
    sig[10] ^= 0xff;

    let mut gate = Gate::new();
    gate.set_price_provider(keys[0]);
    assert_eq!(
        gate.submit(&payload, &sig),
        SubmitOutcome::Rejected(RejectReason::InvalidSignature)
    );
    assert_eq!(gate.stored, None);

    let mut unset_gate = Gate::new();
    assert_eq!(
        unset_gate.submit(&payload, &sig),
        SubmitOutcome::Rejected(RejectReason::InvalidSignature)
    );
    assert_eq!(unset_gate.stored, None);
}

#[test]
fn fetch_failure_produces_no_submission() {
    let secrets = vec![[9u8; 32]];
    assert_eq!(
        run_tick(Err(NetworkError::Timeout), &secrets, 1),
        Err(TickError::Fetch(FetchError::Network(NetworkError::Timeout)))
    );
    assert_eq!(
        run_tick(Err(NetworkError::ConnectionError), &secrets, 1),
        Err(TickError::Fetch(FetchError::Network(NetworkError::ConnectionError)))
    );
    assert_eq!(
        run_tick(Ok((500, price_oracle_response())), &secrets, 1),
        Err(TickError::Fetch(FetchError::Network(NetworkError::NonSuccessStatus)))
    );

    // no payload came out of the failed ticks, so a gate keeps its price
    let mut gate = Gate::new();
    gate.set_price_provider(public_keys(&secrets)[0]);
    gate.set_price(DecimalPrice { whole: 1, fraction: 0 });
    assert_eq!(gate.stored, Some(DecimalPrice { whole: 1, fraction: 0 }));
}

#[test]
fn tick_uses_the_first_available_key() {
    let secrets = vec![[1u8; 32], [2u8; 32]];
    let keys = public_keys(&secrets);
    let body = br#"{"data": {"priceUsd": "2.5"}}"#.to_vec();
    let (payload, sig) = run_tick(Ok((200, body)), &secrets, 5).expect("tick failed");
    assert_eq!(payload.public, keys[0]);
    assert_ne!(payload.public, keys[1]);
    assert_eq!(payload.price, DecimalPrice { whole: 2, fraction: 5 });
    assert_eq!(payload.authored_at, 5);
    assert!(verify_payload(&payload, &sig));
}

#[test]
fn tick_fails_fast_without_local_keys() {
    let no_secrets: Vec<[u8; 32]> = vec![];
    assert_eq!(
        run_tick(Ok((200, price_oracle_response())), &no_secrets, 1),
        Err(TickError::NoLocalKeys)
    );
}
