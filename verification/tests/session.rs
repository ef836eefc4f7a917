use blockochen::{Reply, Request, Session};

fn hash_in(reply: Reply) -> blockochen::Hash {
    match reply {
        Reply::Appended(hash) => hash,
        other => panic!("no block was appended: {:?}", other),
    }
}

#[test]
fn only_the_first_initialisation_is_taken() {
    let mut session = Session::new();
    assert!(!session.is_initialised());
    assert!(matches!(session.handle(Request::NewBlockchain), Reply::Initialised));
    assert!(session.is_initialised());
    assert!(matches!(
        session.handle(Request::NewBlockchain),
        Reply::AlreadyInitialised
    ));
    assert!(matches!(
        session.handle(Request::LoadBlockchain { json: String::from("{}") }),
        Reply::AlreadyInitialised
    ));
    assert!(session.is_initialised());
    assert_eq!(session.chain().len(), 1);
}

#[test]
fn load_hands_the_text_to_the_caller() {
    let mut session = Session::new();
    let reply = session.handle(Request::LoadBlockchain { json: String::from("{\"ts\":0}") });
    match reply {
        Reply::Load(text) => assert_eq!(text, "{\"ts\":0}"),
        other => panic!("not a load: {:?}", other),
    }
    assert!(session.is_initialised());
}

#[test]
fn requests_are_served_before_initialisation() {
    let mut session = Session::new();
    let b = hash_in(session.handle(Request::SpawnBlock {
        birth_data: b"s".to_vec(),
        data: b"create".to_vec(),
    }));
    assert!(!session.is_initialised());
    assert_eq!(session.chain().len(), 2);
    assert!(matches!(session.handle(Request::NewBlockchain), Reply::Initialised));
    assert_eq!(session.chain().len(), 2);
    assert!(matches!(
        session.handle(Request::GetTTL { birth_hash: b }),
        Reply::Ttl(15)
    ));
}

#[test]
fn a_session_maps_requests_onto_the_chain() {
    let mut session = Session::new();
    let genesis = match session.handle(Request::PrintGenesis) {
        Reply::Genesis(hash) => hash,
        other => panic!("no genesis hash: {:?}", other),
    };
    assert_eq!(&genesis, session.chain().genesis_hash());
    let b = hash_in(session.handle(Request::SpawnBlock {
        birth_data: b"s".to_vec(),
        data: b"create".to_vec(),
    }));
    let e = hash_in(session.handle(Request::AddBlock {
        birth_hash: b.clone(),
        data: b"event-1".to_vec(),
    }));
    assert_eq!(session.chain().last().hash, e);
    match session.handle(Request::GetEvents { birth_hash: b.clone() }) {
        Reply::Events(events) => {
            assert_eq!(events, Some(vec![b"create".to_vec(), b"event-1".to_vec()]))
        }
        other => panic!("no events: {:?}", other),
    }
    let unknown = blockochen::Hash::from_bytes(vec![0x5a; 32]);
    match session.handle(Request::GetEvents { birth_hash: unknown.clone() }) {
        Reply::Events(events) => assert_eq!(events, None),
        other => panic!("no events: {:?}", other),
    }
    match session.handle(Request::GetTTL { birth_hash: unknown.clone() }) {
        Reply::NotFound(hash) => assert_eq!(hash, unknown),
        other => panic!("not refused: {:?}", other),
    }
    match session.handle(Request::AddBlock { birth_hash: unknown.clone(), data: Vec::new() }) {
        Reply::NotFound(hash) => assert_eq!(hash, unknown),
        other => panic!("not refused: {:?}", other),
    }
    for k in 0..15u8 {
        hash_in(session.handle(Request::AddBlock { birth_hash: genesis.clone(), data: vec![k] }));
    }
    assert!(matches!(
        session.handle(Request::GetTTL { birth_hash: b.clone() }),
        Reply::Ttl(0)
    ));
    match session.handle(Request::AddBlock { birth_hash: b.clone(), data: Vec::new() }) {
        Reply::Dead(hash) => assert_eq!(hash, b),
        other => panic!("not refused: {:?}", other),
    }
    assert_eq!(session.chain().len(), 18);
    assert!(matches!(session.handle(Request::Print), Reply::Dump));
    assert!(matches!(session.handle(Request::Quit), Reply::Quit));
}

#[test]
fn install_replaces_the_chain() {
    let mut other = blockochen::Blockochen::new();
    other.spawn(b"s".to_vec(), b"create".to_vec());
    let mut session = Session::new();
    assert!(matches!(
        session.handle(Request::LoadBlockchain { json: String::new() }),
        Reply::Load(_)
    ));
    session.install(other);
    assert_eq!(session.chain().len(), 2);
    assert_eq!(session.chain().ts(), 1);
    assert!(session.is_initialised());
}
