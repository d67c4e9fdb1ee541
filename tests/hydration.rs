use actix_death::envelope::{decode_batch, encode_batch, Envelope};
use actix_death::gateway::{encode_death, kill, AsciiDeath, GatewayError};
use actix_death::hydration::{envelope_for, payload_for, HydrationError, Synchronizer};
use actix_death::resource::ResourceState;
use actix_death::suspense::Scope;

fn server_payload() -> (u64, Vec<u8>) {
    let mut server: Scope<AsciiDeath> = Scope::new();
    let id = server.create(String::new());
    let q = server.mount(id).unwrap();
    assert!(payload_for(&server).is_none());
    assert!(server.settle(id, q.generation, kill()));
    (q.generation, payload_for(&server).unwrap())
}

#[test]
fn seeded_from_server_without_remote_call() {
    let (g, payload) = server_payload();
    let mut client: Scope<AsciiDeath> = Scope::new();
    let id = client.create(String::new());
    let mut sync = Synchronizer::from_payload(&payload).unwrap();
    assert_eq!(sync.seed_next(&mut client, id), Ok(()));
    assert_eq!(sync.position(), 1);
    match client.resource(id).read() {
        ResourceState::Resolved { generation, value } => {
            assert_eq!(*generation, g);
            assert_eq!(value, &AsciiDeath { killer: "€a".to_string(), after: true });
        }
        _ => panic!("not resolved"),
    }
    // first subscription after seeding issues no load
    assert!(client.mount(id).is_none());
}

#[test]
fn truncated_envelope_is_mismatch() {
    let d = AsciiDeath { killer: "€a".to_string(), after: true };
    let mut bytes = encode_death(&d);
    // cut inside the euro sign and keep the framing consistent
    bytes.truncate(10);
    bytes[0] = 2;
    bytes.push(1);
    let env = Envelope { generation: 1, ok: true, payload: bytes };
    let mut client: Scope<AsciiDeath> = Scope::new();
    let id = client.create(String::new());
    let mut sync = Synchronizer::new(vec![env]);
    assert_eq!(sync.seed_next(&mut client, id), Err(HydrationError::Mismatch { position: 0 }));
    assert!(matches!(client.resource(id).read(), ResourceState::Idle));
}

#[test]
fn truncated_payload_is_malformed() {
    let (_, payload) = server_payload();
    let cut = &payload[..payload.len() - 2];
    assert!(matches!(Synchronizer::from_payload(cut), Err(HydrationError::MalformedPayload)));
}

#[test]
fn envelopes_match_in_creation_order() {
    let a = AsciiDeath { killer: "first ü".to_string(), after: false };
    let envs = vec![
        Envelope { generation: 3, ok: true, payload: encode_death(&a) },
        Envelope { generation: 7, ok: false, payload: vec![3, b'n', b'o'] },
    ];
    let bytes = encode_batch(&envs);
    let back = decode_batch(&bytes).unwrap();
    assert_eq!(back.len(), 2);
    assert_eq!(back[1].generation, 7);
    assert_eq!(back[1].payload, vec![3, b'n', b'o']);
    let mut client: Scope<AsciiDeath> = Scope::new();
    let x = client.create("x".to_string());
    let y = client.create("y".to_string());
    let z = client.create("z".to_string());
    let mut sync = Synchronizer::from_payload(&bytes).unwrap();
    assert_eq!(sync.seed_next(&mut client, x), Ok(()));
    assert_eq!(sync.seed_next(&mut client, y), Ok(()));
    assert_eq!(sync.seed_next(&mut client, z), Err(HydrationError::Exhausted));
    assert!(matches!(client.resource(x).read(), ResourceState::Resolved { generation: 3, value } if *value == a));
    match client.resource(y).read() {
        ResourceState::Errored { generation, error } => {
            assert_eq!(*generation, 7);
            assert_eq!(error, &GatewayError::Execution("no".to_string()));
        }
        _ => panic!("not errored"),
    }
}

#[test]
fn started_resource_not_seedable() {
    let (_, payload) = server_payload();
    let mut client: Scope<AsciiDeath> = Scope::new();
    let id = client.create(String::new());
    client.mount(id).unwrap();
    let mut sync = Synchronizer::from_payload(&payload).unwrap();
    assert_eq!(sync.seed_next(&mut client, id), Err(HydrationError::NotSeedable));
    assert_eq!(sync.seed_next(&mut client, 5), Err(HydrationError::NotSeedable));
    assert_eq!(sync.position(), 0);
}

#[test]
fn envelope_for_settled_only() {
    let mut s: Scope<AsciiDeath> = Scope::new();
    let id = s.create(String::new());
    assert!(envelope_for(s.resource(id)).is_none());
    let q = s.mount(id).unwrap();
    assert!(envelope_for(s.resource(id)).is_none());
    s.settle(id, q.generation, Err(GatewayError::Transport("t".to_string())));
    let e = envelope_for(s.resource(id)).unwrap();
    assert_eq!(e.generation, 1);
    assert!(!e.ok);
    assert_eq!(e.payload, vec![1, b't']);
}

#[test]
fn empty_payload_has_no_envelopes() {
    let s: Scope<AsciiDeath> = Scope::new();
    let p = payload_for(&s).unwrap();
    assert!(p.is_empty());
    let mut sync = Synchronizer::from_payload(&p).unwrap();
    let mut client: Scope<AsciiDeath> = Scope::new();
    let id = client.create(String::new());
    assert_eq!(sync.seed_next(&mut client, id), Err(HydrationError::Exhausted));
}

#[test]
fn server_to_client_round_trip_mixed() {
    let mut server: Scope<AsciiDeath> = Scope::new();
    let a = server.create("a".to_string());
    let b = server.create("b".to_string());
    let qa = server.mount(a).unwrap();
    let qb = server.mount(b).unwrap();
    let wide = AsciiDeath { killer: "日本語🎉€".to_string(), after: false };
    assert!(server.settle(b, qb.generation, Err(GatewayError::Execution("ünï".to_string()))));
    assert!(payload_for(&server).is_none());
    assert!(server.settle(a, qa.generation, Ok(wide.clone())));
    let payload = payload_for(&server).unwrap();

    let mut client: Scope<AsciiDeath> = Scope::new();
    let ca = client.create("a".to_string());
    let cb = client.create("b".to_string());
    let mut sync = Synchronizer::from_payload(&payload).unwrap();
    assert_eq!(sync.seed_next(&mut client, ca), Ok(()));
    assert_eq!(sync.seed_next(&mut client, cb), Ok(()));
    assert!(matches!(client.resource(ca).read(), ResourceState::Resolved { generation: 1, value } if *value == wide));
    assert!(matches!(client.resource(cb).read(), ResourceState::Errored { generation: 1, error } if *error == GatewayError::Execution("ünï".to_string())));
    assert!(client.mount(ca).is_none());
    assert!(client.mount(cb).is_none());
}
