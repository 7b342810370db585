use krampus::errors::Error;
use krampus::matcher::{constrained_matching, Participant};
use rand::rngs::StdRng;
use rand::SeedableRng;

fn participant(name: &str, except: Option<&str>) -> Participant {
    Participant {
        name: name.to_string(),
        email: format!("{}@example.com", name.to_lowercase()),
        except: except.map(|e| e.to_string()),
    }
}

#[test]
fn exclusions_respected_in_every_match() {
    let participants = vec![
        participant("A", Some("B")),
        participant("B", Some("A")),
        participant("C", None),
        participant("D", None),
    ];
    let mut rng = StdRng::seed_from_u64(42);
    for _ in 0..200 {
        let ms = constrained_matching(&participants, &mut rng).unwrap();
        assert_eq!(ms.len(), 4);
        for m in ms.iter() {
            if let Some(e) = &m.from.except {
                assert_ne!(*e, m.to.name, "excluded receiver drawn");
            }
            if let Some(e) = &m.to.except {
                assert_ne!(*e, m.from.name, "excluded giver drawn");
            }
            assert_ne!(m.from.name, m.to.name, "participant matched to itself");
        }
    }
}

#[test]
fn matching_is_a_bijection() {
    let participants = vec![
        participant("A", None),
        participant("B", None),
        participant("C", None),
        participant("D", None),
        participant("E", None),
    ];
    let mut rng = StdRng::seed_from_u64(5);
    let ms = constrained_matching(&participants, &mut rng).unwrap();
    assert_eq!(ms.len(), 5);
    let mut given = vec![];
    let mut received = vec![];
    for (i, m) in ms.iter().enumerate() {
        assert_eq!(m.from.name, participants[i].name, "givers come in order");
        given.push(m.from.name.clone());
        received.push(m.to.name.clone());
    }
    received.sort();
    given.sort();
    assert_eq!(given, received, "every participant receives exactly once");
}

#[test]
fn mutual_exclusion_terminates_with_unsatisfiable() {
    let participants = vec![participant("A", Some("B")), participant("B", Some("A"))];
    let mut rng = StdRng::seed_from_u64(9);
    assert!(matches!(
        constrained_matching(&participants, &mut rng),
        Err(Error::ConstraintUnsatisfiable)
    ));
}

#[test]
fn too_few_participants_is_invalid_size() {
    let mut rng = StdRng::seed_from_u64(1);
    let none: Vec<Participant> = vec![];
    assert!(matches!(
        constrained_matching(&none, &mut rng),
        Err(Error::InvalidSize)
    ));
    let one = vec![participant("A", None)];
    assert!(matches!(
        constrained_matching(&one, &mut rng),
        Err(Error::InvalidSize)
    ));
}
