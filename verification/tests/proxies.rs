use clash_android_ffi::{arrange_proxies, proxies_step, Mode, ProxiesStep, Proxy};

fn proxy(name: &str, all: &[&str]) -> Proxy {
    Proxy {
        name: name.to_string(),
        proxy_type: if all.is_empty() { "Shadowsocks".to_string() } else { "Selector".to_string() },
        all: all.iter().map(|s| s.to_string()).collect(),
        now: all.first().map(|s| s.to_string()),
        history: Vec::new(),
    }
}

fn entries(list: &[(&str, &[&str])]) -> Vec<(String, Proxy)> {
    list.iter().map(|(k, all)| (k.to_string(), proxy(k, all))).collect()
}

fn names(ps: &[Proxy]) -> Vec<&str> {
    ps.iter().map(|p| p.name.as_str()).collect()
}

#[test]
fn direct_mode_shows_only_direct() {
    match proxies_step(Some(Mode::Direct)) {
        ProxiesStep::Done(ps) => {
            assert_eq!(ps.len(), 1);
            assert_eq!(ps[0].name, "DIRECT");
            assert_eq!(ps[0].proxy_type, "Direct");
            assert!(ps[0].all.is_empty());
            assert!(ps[0].now.is_none());
            assert!(ps[0].history.is_empty());
        }
        ProxiesStep::Fetch(_) => panic!("direct mode needs no fetch"),
    }
}

#[test]
fn other_modes_fetch() {
    assert!(matches!(proxies_step(None), ProxiesStep::Fetch(Mode::Rule)));
    assert!(matches!(proxies_step(Some(Mode::Rule)), ProxiesStep::Fetch(Mode::Rule)));
    assert!(matches!(proxies_step(Some(Mode::Global)), ProxiesStep::Fetch(Mode::Global)));
}

#[test]
fn without_global_group_order_is_kept() {
    let es = entries(&[("b", &[]), ("a", &[]), ("c", &[])]);
    assert_eq!(names(&arrange_proxies(Mode::Rule, es)), vec!["b", "a", "c"]);
    let es = entries(&[("b", &[]), ("a", &[]), ("c", &[])]);
    assert_eq!(names(&arrange_proxies(Mode::Global, es)), vec!["b", "a", "c"]);
    assert!(arrange_proxies(Mode::Rule, Vec::new()).is_empty());
}

#[test]
fn global_group_orders_the_rest() {
    let list: &[(&str, &[&str])] =
        &[("A", &[]), ("GLOBAL", &["B", "A", "X"]), ("C", &[]), ("B", &[])];
    let rule = arrange_proxies(Mode::Rule, entries(list));
    assert_eq!(names(&rule), vec!["B", "A", "C"]);
    let global = arrange_proxies(Mode::Global, entries(list));
    assert_eq!(names(&global), vec!["GLOBAL", "B", "A", "C"]);
    assert_eq!(global[0].all, vec!["B", "A", "X"]);
    let direct = arrange_proxies(Mode::Direct, entries(list));
    assert_eq!(names(&direct), vec!["B", "A", "C"]);
}

#[test]
fn global_group_listing_twice_or_itself() {
    let list: &[(&str, &[&str])] = &[("GLOBAL", &["A", "GLOBAL", "A"]), ("A", &[]), ("Z", &[])];
    let rule = arrange_proxies(Mode::Rule, entries(list));
    assert_eq!(names(&rule), vec!["A", "A", "Z"]);
}

#[test]
fn every_proxy_survives_and_keeps_its_fields() {
    let list: &[(&str, &[&str])] =
        &[("HK", &[]), ("JP", &[]), ("GLOBAL", &["JP"]), ("auto", &["HK", "JP"]), ("US", &[])];
    let out = arrange_proxies(Mode::Rule, entries(list));
    assert_eq!(names(&out), vec!["JP", "HK", "auto", "US"]);
    let auto = out.iter().find(|p| p.name == "auto").unwrap();
    assert_eq!(auto.proxy_type, "Selector");
    assert_eq!(auto.all, vec!["HK", "JP"]);
    assert_eq!(auto.now.as_deref(), Some("HK"));
}

#[test]
fn history_is_copied() {
    let mut p = proxy("HK", &[]);
    p.history.push(clash_android_ffi::DelayHistory { time: "2024-01-01T00:00:00Z".to_string(), delay: 120 });
    let out = arrange_proxies(Mode::Rule, vec![("HK".to_string(), p)]);
    assert_eq!(out[0].history.len(), 1);
    assert_eq!(out[0].history[0].time, "2024-01-01T00:00:00Z");
    assert_eq!(out[0].history[0].delay, 120);
}

#[test]
fn duplicate_is_equal_copy() {
    let p = proxy("G", &["a", "b"]);
    let q = p.duplicate();
    assert_eq!(q.name, p.name);
    assert_eq!(q.proxy_type, p.proxy_type);
    assert_eq!(q.all, p.all);
    assert_eq!(q.now, p.now);
}
