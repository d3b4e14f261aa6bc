use coffe_ledger::Choice;
use coffe_ledger::Coffe;
use coffe_ledger::CoffeError;
use coffe_ledger::Contract;
use coffe_ledger::Vote;

fn candidate(name: &str, description: &str, image: &str) -> Coffe {
    Coffe {
        account_id: None,
        name: name.to_string(),
        description: description.to_string(),
        image: image.to_string(),
        number_of_like: 0,
        number_of_dislike: 0,
    }
}

#[test]
fn test_add_coffe() {
    let mut contract = Contract::default();
    let coffe = contract.add_coffe(
        Coffe {
            name: "Kopi Ijen Banyuwangi".to_string(),
            account_id: None,
            description: "Kopi ijen banyuwangi adalah kopi arabica yang ditanam oleh petani local"
                .to_string(),
            image: "https://example.com".to_string(),
            number_of_like: 0,
            number_of_dislike: 0,
        },
        "carol_near".to_string(),
    );
    assert_eq!(coffe.name, "Kopi Ijen Banyuwangi".to_string());
    assert_eq!(coffe.image, "https://example.com".to_string());
}

#[test]
fn test_vote_coffe() {
    let mut contract = Contract::default();
    let coffe_ids = contract.add_coffe(
        Coffe {
            name: "Kopi Ijen Banyuwangi".to_string(),
            account_id: None,
            description: "Kopi ijen banyuwangi adalah kopi arabica yang ditanam oleh petani local"
                .to_string(),
            image: "https://example.com".to_string(),
            number_of_like: 0,
            number_of_dislike: 0,
        },
        "carol_near".to_string(),
    );

    let vote: Vote = contract
        .vote(coffe_ids.name, Choice::Like, "bob_near".to_string())
        .unwrap();
    assert_eq!(vote.coffe_name, "Kopi Ijen Banyuwangi".to_string());
    assert_eq!(vote.choice, Choice::Like);
}

#[test]
fn test_register_then_get() {
    let mut contract = Contract::default();
    contract.add_coffe(candidate("Robusta", "strong", "img"), "alice".to_string());
    let got = contract.get_coffe("Robusta".to_string()).unwrap();
    assert_eq!(got.name, "Robusta".to_string());
    assert_eq!(got.account_id, Some("alice".to_string()));
    assert_eq!(got.description, "strong".to_string());
    assert_eq!(got.image, "img".to_string());
    assert_eq!(got.number_of_like, 0);
    assert_eq!(got.number_of_dislike, 0);
}

#[test]
fn test_vote_tally() {
    let mut contract = Contract::default();
    contract.add_coffe(candidate("Robusta", "d", "i"), "alice".to_string());
    contract
        .vote("Robusta".to_string(), Choice::Like, "bob".to_string())
        .unwrap();
    contract
        .vote("Robusta".to_string(), Choice::Dislike, "carol".to_string())
        .unwrap();
    contract
        .vote("Robusta".to_string(), Choice::Like, "dave".to_string())
        .unwrap();
    let got = contract.get_coffe("Robusta".to_string()).unwrap();
    assert_eq!(got.number_of_like + got.number_of_dislike, 3);
    assert_eq!(got.number_of_like, 2);
    assert_eq!(got.number_of_dislike, 1);
}

#[test]
fn test_vote_not_found() {
    let mut contract = Contract::default();
    let res = contract.vote("nonexistent".to_string(), Choice::Like, "bob".to_string());
    assert_eq!(res.unwrap_err(), CoffeError::NotFound);
    // no entry was created as a side effect
    let lookup = contract.get_coffe("nonexistent".to_string());
    assert_eq!(lookup.unwrap_err(), CoffeError::NotFound);
    let page = contract.get_coffes(0, None);
    assert_eq!(page.unwrap_err(), CoffeError::OutOfRange);
}

#[test]
fn test_vote_not_found_no_mutation() {
    let mut contract = Contract::default();
    contract.add_coffe(candidate("Robusta", "d", "i"), "alice".to_string());
    contract
        .vote("Robusta".to_string(), Choice::Like, "bob".to_string())
        .unwrap();
    let res = contract.vote("missing".to_string(), Choice::Like, "carol".to_string());
    assert_eq!(res.unwrap_err(), CoffeError::NotFound);
    let got = contract.get_coffe("Robusta".to_string()).unwrap();
    assert_eq!(got.number_of_like, 1);
    assert_eq!(got.number_of_dislike, 0);
    let page = contract.get_coffes(0, None).unwrap();
    assert_eq!(page.len(), 1);
}

#[test]
fn test_page_single_entry() {
    let mut contract = Contract::default();
    contract.add_coffe(candidate("Robusta", "d", "i"), "alice".to_string());
    let page = contract.get_coffes(0, Some(1)).unwrap();
    assert_eq!(page.len(), 1);
    assert_eq!(page[0].name, "Robusta".to_string());
    // skip at or past the count is out of range
    let res = contract.get_coffes(1, Some(1));
    assert_eq!(res.unwrap_err(), CoffeError::OutOfRange);
    let res = contract.get_coffes(7, None);
    assert_eq!(res.unwrap_err(), CoffeError::OutOfRange);
}

#[test]
fn test_page_empty_store() {
    let contract = Contract::default();
    let res = contract.get_coffes(0, None);
    assert_eq!(res.unwrap_err(), CoffeError::OutOfRange);
}

#[test]
fn test_zero_limit() {
    let mut contract = Contract::default();
    let res = contract.get_coffes(0, Some(0));
    assert_eq!(res.unwrap_err(), CoffeError::InvalidArgument);
    contract.add_coffe(candidate("Robusta", "d", "i"), "alice".to_string());
    let res = contract.get_coffes(0, Some(0));
    assert_eq!(res.unwrap_err(), CoffeError::InvalidArgument);
}

#[test]
fn test_page_order_and_clipping() {
    let mut contract = Contract::default();
    contract.add_coffe(candidate("one", "d", "i"), "alice".to_string());
    contract.add_coffe(candidate("two", "d", "i"), "alice".to_string());
    contract.add_coffe(candidate("three", "d", "i"), "alice".to_string());
    let all = contract.get_coffes(0, None).unwrap();
    assert_eq!(all.len(), 3);
    assert_eq!(all[0].name, "one".to_string());
    assert_eq!(all[1].name, "two".to_string());
    assert_eq!(all[2].name, "three".to_string());
    // a limit past the end clips to the available entries
    let tail = contract.get_coffes(1, Some(10)).unwrap();
    assert_eq!(tail.len(), 2);
    assert_eq!(tail[0].name, "two".to_string());
    assert_eq!(tail[1].name, "three".to_string());
    // an exact window
    let mid = contract.get_coffes(1, Some(1)).unwrap();
    assert_eq!(mid.len(), 1);
    assert_eq!(mid[0].name, "two".to_string());
}

#[test]
fn test_register_overwrite() {
    let mut contract = Contract::default();
    contract.add_coffe(candidate("Robusta", "first", "i1"), "alice".to_string());
    contract
        .vote("Robusta".to_string(), Choice::Like, "bob".to_string())
        .unwrap();
    // re-registering the same name overwrites the prior entry, counters included
    let stored = contract.add_coffe(candidate("Robusta", "second", "i2"), "carol".to_string());
    assert_eq!(stored.account_id, Some("carol".to_string()));
    let got = contract.get_coffe("Robusta".to_string()).unwrap();
    assert_eq!(got.description, "second".to_string());
    assert_eq!(got.image, "i2".to_string());
    assert_eq!(got.account_id, Some("carol".to_string()));
    assert_eq!(got.number_of_like, 0);
    assert_eq!(got.number_of_dislike, 0);
    let page = contract.get_coffes(0, None).unwrap();
    assert_eq!(page.len(), 1);
}

#[test]
fn test_get_vote_none() {
    let contract = Contract::default();
    assert!(contract.get_vote("nobody".to_string()).is_none());
}

#[test]
fn test_end_to_end() {
    let mut contract = Contract::default();
    let stored = contract.add_coffe(candidate("Arabica", "d", "i"), "A".to_string());
    assert_eq!(stored.account_id, Some("A".to_string()));
    assert_eq!(stored.number_of_like, 0);
    assert_eq!(stored.number_of_dislike, 0);

    let vote = contract
        .vote("Arabica".to_string(), Choice::Like, "B".to_string())
        .unwrap();
    assert_eq!(vote.coffe_name, "Arabica".to_string());
    assert_eq!(vote.choice, Choice::Like);
    let got = contract.get_coffe("Arabica".to_string()).unwrap();
    assert_eq!(got.number_of_like, 1);
    assert_eq!(got.number_of_dislike, 0);

    // the same voter votes again: the stored vote is replaced, but the prior
    // choice's counter is not decremented
    let vote = contract
        .vote("Arabica".to_string(), Choice::Dislike, "B".to_string())
        .unwrap();
    assert_eq!(vote.choice, Choice::Dislike);
    let current = contract.get_vote("B".to_string()).unwrap();
    assert_eq!(current.coffe_name, "Arabica".to_string());
    assert_eq!(current.choice, Choice::Dislike);
    let got = contract.get_coffe("Arabica".to_string()).unwrap();
    assert_eq!(got.number_of_like, 1);
    assert_eq!(got.number_of_dislike, 1);
}

#[test]
fn test_state_round_trip() {
    let mut contract = Contract::default();
    contract.add_coffe(candidate("one", "d", "i"), "alice".to_string());
    contract
        .vote("one".to_string(), Choice::Like, "bob".to_string())
        .unwrap();
    let entries = contract.entries().clone();
    let votes = contract.vote_records().clone();
    let rebuilt = Contract::from_parts(entries, votes).unwrap();
    let got = rebuilt.get_coffe("one".to_string()).unwrap();
    assert_eq!(got.number_of_like, 1);
    assert_eq!(got.account_id, Some("alice".to_string()));
    let v = rebuilt.get_vote("bob".to_string()).unwrap();
    assert_eq!(v.coffe_name, "one".to_string());
    assert_eq!(v.choice, Choice::Like);
}

#[test]
fn test_from_parts_empty() {
    let rebuilt = Contract::from_parts(Vec::new(), Vec::new());
    assert!(rebuilt.is_some());
}

#[test]
fn test_from_parts_rejects_duplicate_names() {
    let coffes = vec![candidate("a", "d", "i"), candidate("a", "e", "j")];
    assert!(Contract::from_parts(coffes, Vec::new()).is_none());
}

#[test]
fn test_from_parts_rejects_negative_counter() {
    let mut bad = candidate("a", "d", "i");
    bad.number_of_like = -1;
    assert!(Contract::from_parts(vec![bad], Vec::new()).is_none());
}

#[test]
fn test_from_parts_rejects_duplicate_voter() {
    let coffes = vec![candidate("a", "d", "i")];
    let votes = vec![
        (
            "bob".to_string(),
            Vote {
                coffe_name: "a".to_string(),
                choice: Choice::Like,
            },
        ),
        (
            "bob".to_string(),
            Vote {
                coffe_name: "a".to_string(),
                choice: Choice::Dislike,
            },
        ),
    ];
    assert!(Contract::from_parts(coffes, votes).is_none());
}
