use slot_session::error::SessionError;
use slot_session::felt::Felt;
use slot_session::model::{Session, SessionCredentials};
use slot_session::storage::{
    get_file_path, loaded, locate, session_file_name, written, ReadOutcome, SessionLocation,
};

fn chain(numeral: &str) -> Felt {
    Felt::from_dec_str(numeral).expect("a chain id")
}

#[test]
fn get_session() {
    let main = chain("23448594291968334");
    let place = locate(Some("alice"), &main).expect("alice is signed in");
    assert_eq!(
        place,
        SessionLocation {
            namespace: "slot".to_string(),
            account: "alice".to_string(),
            file_name: "0x534e5f4d41494e-session.json".to_string(),
        }
    );
    assert_eq!(locate(None, &main), Err(SessionError::IdentityUnavailable));
}

#[test]
fn store_session() {
    let main = chain("23448594291968334");
    let first = locate(Some("alice"), &main).expect("alice is signed in");
    let second = locate(Some("alice"), &main).expect("alice is signed in");
    assert_eq!(first, second);
    let other_chain = locate(Some("alice"), &chain("1")).unwrap();
    assert_ne!(first, other_chain);
    assert_eq!(other_chain.file_name, "0x1-session.json");
    let other_account = locate(Some("bob"), &main).unwrap();
    assert_ne!(first, other_account);
    assert_eq!(other_account.file_name, first.file_name);
    assert_eq!(locate(None, &main), Err(SessionError::IdentityUnavailable));
}

#[test]
fn the_file_name_is_the_chain_id_in_hexadecimal() {
    assert_eq!(session_file_name(&chain("0")), "0x0-session.json");
    assert_eq!(session_file_name(&chain("255")), "0xff-session.json");
    assert_eq!(session_file_name(&chain("4096")), "0x1000-session.json");
}

#[test]
fn the_path_is_made_of_namespace_account_and_file() {
    let place = get_file_path("carol", &chain("10"));
    assert_eq!(place.namespace, "slot");
    assert_eq!(place.account, "carol");
    assert_eq!(place.file_name, "0xa-session.json");
}

#[test]
fn distinct_chains_have_distinct_files() {
    let mut seen: Vec<String> = Vec::new();
    for n in 0..300u32 {
        let name = session_file_name(&chain(&n.to_string()));
        assert!(!seen.contains(&name));
        seen.push(name);
    }
}

#[test]
fn a_session_that_was_found_is_returned_as_it_is() {
    let session = Session {
        expires_at: "1718000000".to_string(),
        policies: Vec::new(),
        credentials: SessionCredentials {
            private_key: "0x1".to_string(),
            authorization: vec!["0x2".to_string()],
        },
    };
    assert_eq!(loaded(ReadOutcome::Found(session.clone())), Ok(session));
}

#[test]
fn a_missing_file_is_no_session() {
    assert_eq!(loaded(ReadOutcome::Missing), Err(SessionError::SessionNotFound));
}

#[test]
fn a_corrupt_file_is_a_decoding_failure() {
    assert_eq!(loaded(ReadOutcome::Corrupt), Err(SessionError::DeserializationError));
}

#[test]
fn a_failed_write_is_reported() {
    assert_eq!(written(true), Ok(()));
    assert_eq!(written(false), Err(SessionError::PersistenceWriteFailed));
}
