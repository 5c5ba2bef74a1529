use port_registry::handler::create_port_core;
use port_registry::handler::health_checker_core;
use port_registry::handler::port_list_core;
use port_registry::model::Port;
use port_registry::registry::Registry;

fn port(name: &str, city: &str, country: &str) -> Port {
    Port {
        name: name.to_string(),
        code: None,
        city: city.to_string(),
        country: country.to_string(),
        alias: Vec::new(),
        regions: Vec::new(),
        coordinates: None,
        province: None,
        timezone: None,
        unlocs: Vec::new(),
    }
}

#[test]
fn ping_returns_fixed_payload() {
    let first = health_checker_core();
    assert_eq!(first.status, "success");
    assert_eq!(first.message, "pong");
    let second = health_checker_core();
    assert_eq!(second.status, first.status);
    assert_eq!(second.message, first.message);
}

#[test]
fn empty_registry_lists_nothing() {
    let reg = Registry::new();
    let resp = port_list_core(&reg);
    assert_eq!(resp.status, "success");
    assert_eq!(resp.results, 0);
    assert!(resp.ports.is_empty());
}

#[test]
fn list_counts_distinct_keys() {
    let mut reg = Registry::new();
    reg.upsert("AAA".to_string(), port("first", "a", "aa"));
    reg.upsert("BBB".to_string(), port("second", "b", "bb"));
    reg.upsert("AAA".to_string(), port("third", "c", "cc"));
    let resp = port_list_core(&reg);
    assert_eq!(resp.results, 2);
    assert_eq!(resp.ports.len(), 2);
}

#[test]
fn upsert_last_writer_wins() {
    let mut reg = Registry::new();
    reg.upsert("KEY".to_string(), port("old", "x", "xx"));
    reg.upsert("KEY".to_string(), port("new", "y", "yy"));
    let resp = port_list_core(&reg);
    assert_eq!(resp.results, 1);
    assert_eq!(resp.ports[0], port("new", "y", "yy"));
}

#[test]
fn batch_round_trip_returns_last_value_per_key() {
    let mut reg = Registry::new();
    let batch = vec![
        ("ONE".to_string(), port("one-a", "c1", "u1")),
        ("TWO".to_string(), port("two", "c2", "u2")),
        ("ONE".to_string(), port("one-b", "c3", "u3")),
    ];
    let ack = create_port_core(&mut reg, &batch);
    assert_eq!(ack.status, "success");
    assert_eq!(ack.message, "Ports uploaded successfully");
    let resp = port_list_core(&reg);
    assert_eq!(resp.results, 2);
    assert!(resp.ports.contains(&port("one-b", "c3", "u3")));
    assert!(resp.ports.contains(&port("two", "c2", "u2")));
    assert!(!resp.ports.contains(&port("one-a", "c1", "u1")));
}

#[test]
fn disjoint_batches_keep_all_writes_in_either_order() {
    let batch_a = vec![
        ("A1".to_string(), port("a-one", "ca", "ua")),
        ("A2".to_string(), port("a-two", "ca", "ua")),
    ];
    let batch_b = vec![
        ("B1".to_string(), port("b-one", "cb", "ub")),
        ("B2".to_string(), port("b-two", "cb", "ub")),
    ];

    let mut reg_ab = Registry::new();
    create_port_core(&mut reg_ab, &batch_a);
    create_port_core(&mut reg_ab, &batch_b);

    let mut reg_ba = Registry::new();
    create_port_core(&mut reg_ba, &batch_b);
    create_port_core(&mut reg_ba, &batch_a);

    let listed_ab = port_list_core(&reg_ab);
    let listed_ba = port_list_core(&reg_ba);
    assert_eq!(listed_ab.results, 4);
    assert_eq!(listed_ba.results, 4);
    for p in [
        port("a-one", "ca", "ua"),
        port("a-two", "ca", "ua"),
        port("b-one", "cb", "ub"),
        port("b-two", "cb", "ub"),
    ] {
        assert!(listed_ab.ports.contains(&p));
        assert!(listed_ba.ports.contains(&p));
    }
}

#[test]
fn randomized_disjoint_batches_lose_no_writes() {
    // Deterministic linear congruential generator, so the test is repeatable.
    let mut state: u64 = 0x2545F4914F6CDD1D;
    let mut next = move || {
        state = state.wrapping_mul(6364136223846793005).wrapping_add(1442695040888963407);
        state >> 33
    };

    for round in 0..20 {
        let len_a = (next() % 5 + 1) as usize;
        let len_b = (next() % 5 + 1) as usize;
        let batch_a: Vec<(String, Port)> = (0..len_a)
            .map(|i| {
                let key = format!("A{round}-{i}");
                let p = port(&format!("pa{}", next() % 1000), "ca", "ua");
                (key, p)
            })
            .collect();
        let batch_b: Vec<(String, Port)> = (0..len_b)
            .map(|i| {
                let key = format!("B{round}-{i}");
                let p = port(&format!("pb{}", next() % 1000), "cb", "ub");
                (key, p)
            })
            .collect();

        // Interleave the two batches pair by pair in a random order, as
        // concurrent requests would; every write must stay visible.
        let mut reg = Registry::new();
        let mut ia = 0;
        let mut ib = 0;
        while ia < len_a || ib < len_b {
            let take_a = ib >= len_b || (ia < len_a && next() % 2 == 0);
            if take_a {
                let (k, p) = &batch_a[ia];
                reg.upsert(k.clone(), p.clone());
                ia += 1;
            } else {
                let (k, p) = &batch_b[ib];
                reg.upsert(k.clone(), p.clone());
                ib += 1;
            }
        }

        let listed = port_list_core(&reg);
        assert_eq!(listed.results, len_a + len_b);
        for (_, p) in batch_a.iter().chain(batch_b.iter()) {
            assert!(listed.ports.contains(p));
        }
    }
}

#[test]
fn port_fields_survive_round_trip_including_absent_options() {
    let mut reg = Registry::new();
    let p = Port {
        name: "Fully Described".to_string(),
        code: Some("XX FUL".to_string()),
        city: "Town".to_string(),
        country: "Land".to_string(),
        alias: vec!["alpha".to_string(), "beta".to_string()],
        regions: vec!["north".to_string()],
        coordinates: Some(vec![1.5f64.to_bits(), (-2.25f64).to_bits()]),
        province: None,
        timezone: Some("UTC".to_string()),
        unlocs: vec!["XXFUL".to_string()],
    };
    reg.upsert("XXFUL".to_string(), p.clone());
    let resp = port_list_core(&reg);
    assert_eq!(resp.results, 1);
    assert_eq!(resp.ports[0], p);
    assert_eq!(resp.ports[0].province, None);
    let bits = resp.ports[0].coordinates.as_ref().unwrap();
    assert_eq!(f64::from_bits(bits[0]), 1.5);
    assert_eq!(f64::from_bits(bits[1]), -2.25);
}

#[test]
fn upload_then_list_scenario() {
    let mut reg = Registry::new();
    let usnyc = Port {
        name: "New York".to_string(),
        code: Some("US NYC".to_string()),
        city: "New York".to_string(),
        country: "US".to_string(),
        alias: Vec::new(),
        regions: Vec::new(),
        coordinates: Some(vec![40.6f64.to_bits(), (-74.0f64).to_bits()]),
        province: None,
        timezone: None,
        unlocs: vec!["USNYC".to_string()],
    };
    let batch = vec![("USNYC".to_string(), usnyc.clone())];
    let ack = create_port_core(&mut reg, &batch);
    assert_eq!(ack.status, "success");
    assert_eq!(ack.message, "Ports uploaded successfully");
    let listed = port_list_core(&reg);
    assert_eq!(listed.status, "success");
    assert_eq!(listed.results, 1);
    assert_eq!(listed.ports[0], usnyc);
}
