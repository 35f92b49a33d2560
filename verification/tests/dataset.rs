use crawl_trials::dataset::Dataset;
use crawl_trials::model::{Resource, Trial};

fn trial(num: i32, time: i64) -> Trial {
    Trial { time, ver: "Chrome/1".to_string(), num, resources: Vec::new(), trial_success: false }
}

fn key(s: &str) -> String {
    s.to_string()
}

#[test]
fn new_dataset_is_empty() {
    let dataset = Dataset::new();
    assert_eq!(dataset.len(), 0);
    assert_eq!(dataset.find(&key("example.com"), &key("news")), None);
}

#[test]
fn first_trial_creates_the_site() {
    let mut dataset = Dataset::new();
    assert!(dataset.append_trial(key("example.com"), key("news"), trial(1, 10)));
    assert_eq!(dataset.len(), 1);
    assert_eq!(dataset.find(&key("example.com"), &key("news")), Some(0));
    let site = dataset.site(0);
    assert_eq!(site.hostname, "example.com");
    assert_eq!(site.category, "news");
    assert_eq!(site.trials, vec![trial(1, 10)]);
}

#[test]
fn later_trials_are_pushed_onto_the_same_site() {
    let mut dataset = Dataset::new();
    assert!(dataset.append_trial(key("example.com"), key("news"), trial(1, 10)));
    assert!(!dataset.append_trial(key("example.com"), key("news"), trial(2, 20)));
    assert!(!dataset.append_trial(key("example.com"), key("news"), trial(2, 30)));
    assert_eq!(dataset.len(), 1);
    assert_eq!(dataset.site(0).trials, vec![trial(1, 10), trial(2, 20), trial(2, 30)]);
}

#[test]
fn sites_are_keyed_by_hostname_and_category() {
    let mut dataset = Dataset::new();
    assert!(dataset.append_trial(key("example.com"), key("news"), trial(1, 1)));
    assert!(dataset.append_trial(key("example.com"), key("shopping"), trial(1, 2)));
    assert!(dataset.append_trial(key("example.org"), key("news"), trial(1, 3)));
    assert!(!dataset.append_trial(key("example.com"), key("shopping"), trial(1, 4)));
    assert_eq!(dataset.len(), 3);
    assert_eq!(dataset.find(&key("example.com"), &key("news")), Some(0));
    assert_eq!(dataset.find(&key("example.com"), &key("shopping")), Some(1));
    assert_eq!(dataset.find(&key("example.org"), &key("news")), Some(2));
    assert_eq!(dataset.find(&key("example.org"), &key("shopping")), None);
    assert_eq!(dataset.find(&key("news"), &key("example.com")), None);
    assert_eq!(dataset.site(1).trials, vec![trial(1, 2), trial(1, 4)]);
}

#[test]
fn every_appended_key_is_held_exactly_once() {
    let hosts = ["a.example", "b.example", "a.example", "c.example", "b.example", "a.example"];
    let categories = ["x", "y"];
    let mut dataset = Dataset::new();
    for round in 0..3 {
        for host in hosts {
            for category in categories {
                dataset.append_trial(key(host), key(category), trial(round, 0));
            }
        }
    }
    assert_eq!(dataset.len(), 6);
    for host in ["a.example", "b.example", "c.example"] {
        for category in categories {
            let mut holders = 0;
            for i in 0..dataset.len() {
                let site = dataset.site(i);
                if site.hostname == host && site.category == category {
                    holders += 1;
                }
            }
            assert_eq!(holders, 1);
        }
    }
    let a_x = dataset.find(&key("a.example"), &key("x")).unwrap();
    assert_eq!(dataset.site(a_x).trials.len(), 9);
}

#[test]
fn marking_sets_the_flag_on_the_matching_trials_only() {
    let mut dataset = Dataset::new();
    dataset.append_trial(key("a.example"), key("x"), trial(1, 10));
    dataset.append_trial(key("a.example"), key("x"), trial(2, 20));
    dataset.append_trial(key("b.example"), key("x"), trial(2, 30));
    dataset.append_trial(key("c.example"), key("y"), trial(3, 40));
    dataset.append_trial(key("a.example"), key("x"), trial(2, 50));
    dataset.mark_successful(2);

    let marked = |num: i32, time: i64| Trial { trial_success: true, ..trial(num, time) };
    assert_eq!(dataset.len(), 3);
    assert_eq!(dataset.site(0).trials, vec![trial(1, 10), marked(2, 20), marked(2, 50)]);
    assert_eq!(dataset.site(1).trials, vec![marked(2, 30)]);
    assert_eq!(dataset.site(2).trials, vec![trial(3, 40)]);
    assert_eq!(dataset.site(0).hostname, "a.example");
    assert_eq!(dataset.site(2).category, "y");
}

#[test]
fn marking_keeps_earlier_marks_and_resources() {
    let mut dataset = Dataset::new();
    let mut with_resource = trial(1, 10);
    with_resource.resources.push(Resource {
        url: "https://a.example/".to_string(),
        hostname: Some("a.example".to_string()),
        resource_type: "Document".to_string(),
        code: Some(200),
        size: Some(5),
        dns_records: None,
    });
    dataset.append_trial(key("a.example"), key("x"), with_resource.clone());
    dataset.append_trial(key("a.example"), key("x"), trial(2, 20));
    dataset.mark_successful(1);
    dataset.mark_successful(7);
    dataset.mark_successful(2);
    let trials = &dataset.site(0).trials;
    assert!(trials[0].trial_success);
    assert!(trials[1].trial_success);
    assert_eq!(trials[0].resources, with_resource.resources);
    assert_eq!(trials[0].time, 10);
    assert_eq!(trials[1].time, 20);
}

#[test]
fn marking_an_unknown_number_changes_nothing() {
    let mut dataset = Dataset::new();
    dataset.append_trial(key("a.example"), key("x"), trial(1, 10));
    dataset.mark_successful(i32::MIN);
    assert_eq!(dataset.site(0).trials, vec![trial(1, 10)]);
    let mut empty = Dataset::new();
    empty.mark_successful(1);
    assert_eq!(empty.len(), 0);
}
