use crawl_trials::prefilter::{is_reported, probe_name, resolves, split, Probed, ProbeOutcome, Split};

fn probed(hostname: &str, exists: bool) -> Probed {
    Probed { hostname: hostname.to_string(), exists }
}

#[test]
fn probe_name_is_fully_qualified() {
    assert_eq!(probe_name(&"example.com".to_string()), "example.com.");
    assert_eq!(probe_name(&String::new()), ".");
    assert_eq!(probe_name(&"example.com.".to_string()), "example.com..");
}

#[test]
fn only_found_names_exist() {
    assert!(resolves(ProbeOutcome::Found));
    assert!(!resolves(ProbeOutcome::NoRecords));
    assert!(!resolves(ProbeOutcome::Failed));
}

#[test]
fn missing_records_are_not_reported() {
    assert!(!is_reported(ProbeOutcome::Found));
    assert!(!is_reported(ProbeOutcome::NoRecords));
    assert!(is_reported(ProbeOutcome::Failed));
}

#[test]
fn split_keeps_order_within_each_list() {
    let out = split(&vec![
        probed("a.example", true),
        probed("b.example", false),
        probed("c.example", true),
        probed("d.example", false),
        probed("a.example", true),
    ]);
    assert_eq!(
        out,
        Split {
            existing: vec!["a.example".to_string(), "c.example".to_string(), "a.example".to_string()],
            missing: vec!["b.example".to_string(), "d.example".to_string()],
        }
    );
}

#[test]
fn split_of_nothing_is_two_empty_lists() {
    assert_eq!(split(&Vec::new()), Split { existing: Vec::new(), missing: Vec::new() });
}

#[test]
fn split_loses_and_invents_nothing() {
    let input: Vec<Probed> = (0..97).map(|i| probed(&format!("h{}.example", i), i % 3 == 0)).collect();
    let out = split(&input);
    assert_eq!(out.existing.len(), 33);
    assert_eq!(out.missing.len(), 64);
    for p in &input {
        assert_eq!(out.existing.contains(&p.hostname), p.exists);
        assert_eq!(out.missing.contains(&p.hostname), !p.exists);
    }
}
