use std::collections::BTreeMap;
use wilayah_worker::batch::{batch_ranges, BATCH_SIZE};
use wilayah_worker::error::Rejection;
use wilayah_worker::handlers::{
    after_exact_search, after_round, choose_location, has_more, index_nearest, nearest_limit, plan_code,
    plan_search, prefix_pattern, search_pattern, start_widening, validate_meta_update, validate_update,
    CodeRequest, LocationSource, SearchNext, SearchPlan, WideningStep, INDEX_NEAREST,
    MAX_UPDATE_VILLAGES,
};
use wilayah_worker::models::MetaUpdatePayload;
use wilayah_worker::ranking::{nearest_index, nearest_order, pick, take_nearest};

#[test]
fn search_needs_a_query() {
    assert_eq!(plan_search("limit=5").err(), Some(Rejection::MissingSearchQuery));
    assert_eq!(plan_search("q=&limit=5").err(), Some(Rejection::MissingSearchQuery));
    let p = plan_search("q=Sukodono").ok().unwrap();
    assert_eq!(p.q, "Sukodono");
    assert_eq!(p.limit, 10);
    assert_eq!(plan_search("q=a&limit=0").ok().unwrap().limit, 1);
    assert_eq!(plan_search("q=a&limit=500").ok().unwrap().limit, 100);
    assert_eq!(plan_search("q=a&limit=42").ok().unwrap().limit, 42);
    assert_eq!(plan_search("q=Cempaka+Putih").ok().unwrap().q, "Cempaka Putih");
}

#[test]
fn search_falls_back_to_fuzzy() {
    let plan = SearchPlan { q: "Putih".to_string(), limit: 7 };
    match after_exact_search(&plan, vec![1, 2]) {
        SearchNext::Respond(v) => assert_eq!(v, vec![1, 2]),
        SearchNext::Fuzzy { .. } => panic!("exact matches must be answered"),
    }
    match after_exact_search::<u8>(&plan, vec![]) {
        SearchNext::Fuzzy { pattern, limit } => {
            assert_eq!(pattern, "%Putih%");
            assert_eq!(limit, 7);
        },
        SearchNext::Respond(_) => panic!("no exact match must fall back"),
    }
    assert_eq!(search_pattern(""), "%%");
    assert_eq!(prefix_pattern("31.71"), "31.71%");
}

#[test]
fn code_requests() {
    match plan_code("q=31.71.01.1001&prefix=31").ok().unwrap() {
        CodeRequest::Exact { code } => assert_eq!(code, "31.71.01.1001"),
        _ => panic!("q wins"),
    }
    match plan_code("q=").ok().unwrap() {
        CodeRequest::Exact { code } => assert_eq!(code, ""),
        _ => panic!("an empty q is still an exact lookup"),
    }
    match plan_code("prefix=31.71").ok().unwrap() {
        CodeRequest::Prefix { pattern, limit, offset } => {
            assert_eq!(pattern, "31.71%");
            assert_eq!(limit, 100);
            assert_eq!(offset, 0);
        },
        _ => panic!("prefix lookup expected"),
    }
    match plan_code("prefix=3&limit=5000&offset=20").ok().unwrap() {
        CodeRequest::Prefix { pattern, limit, offset } => {
            assert_eq!(pattern, "3%");
            assert_eq!(limit, 1000);
            assert_eq!(offset, 20);
        },
        _ => panic!("prefix lookup expected"),
    }
    assert_eq!(plan_code("limit=3").err(), Some(Rejection::MissingCodeQuery));
}

#[test]
fn pages_report_more() {
    assert!(has_more(0, 100, 250));
    assert!(has_more(100, 100, 250));
    assert!(!has_more(200, 50, 250));
    assert!(!has_more(300, 0, 250));
    assert!(!has_more(0, 0, 0));
}

#[test]
fn nearest_limits() {
    assert_eq!(nearest_limit(""), 5);
    assert_eq!(nearest_limit("limit=0"), 1);
    assert_eq!(nearest_limit("limit=99"), 20);
    assert_eq!(nearest_limit("limit=12"), 12);
}

#[test]
fn nearest_order_is_a_stable_sort_prefix() {
    let keys = vec![30u64, 10, 20, 10, 5, 30];
    assert_eq!(nearest_order(&keys, 20), vec![4, 1, 3, 2, 0, 5]);
    assert_eq!(nearest_order(&keys, 3), vec![4, 1, 3]);
    assert_eq!(nearest_order(&keys, 0), Vec::<usize>::new());
    assert_eq!(nearest_order(&Vec::new(), 5), Vec::<usize>::new());
    assert_eq!(nearest_index(&keys), Some(4));
    assert_eq!(nearest_index(&Vec::new()), None);
    assert_eq!(nearest_index(&vec![7, 7, 7]), Some(0));
}

#[test]
fn nearest_order_agrees_with_std_stable_sort() {
    let keys: Vec<u64> = (0..60u64).map(|i| (i * 7919) % 13).collect();
    let mut expected: Vec<usize> = (0..keys.len()).collect();
    expected.sort_by_key(|&i| keys[i]);
    for limit in [0usize, 1, 5, 20, 60, 100] {
        let n = limit.min(keys.len());
        assert_eq!(nearest_order(&keys, limit), expected[..n].to_vec());
    }
}

#[test]
fn smaller_limits_give_prefixes() {
    let keys: Vec<u64> = vec![9, 3, 3, 8, 1, 9, 0, 3];
    let long = nearest_order(&keys, 20);
    for limit in 0..10 {
        let short = nearest_order(&keys, limit);
        assert_eq!(&long[..short.len()], &short[..]);
    }
    assert_eq!(nearest_index(&keys), Some(long[0]));
    let names: Vec<String> = (0..keys.len()).map(|i| format!("v{}", i)).collect();
    let expected: Vec<String> = long[..INDEX_NEAREST].iter().map(|&i| names[i].clone()).collect();
    assert_eq!(index_nearest(names, &keys), Some(expected));
}

#[test]
fn index_nearest_only_with_candidates() {
    assert_eq!(index_nearest::<char>(Vec::new(), &Vec::new()), None);
    assert_eq!(index_nearest(vec!['a', 'b'], &vec![2, 1]), Some(vec!['b', 'a']));
}

#[test]
fn widening_rounds() {
    assert_eq!(start_widening(3), WideningStep::Query(0));
    assert_eq!(start_widening(0), WideningStep::Exhausted);
    assert_eq!(after_round(0, 0, 3), WideningStep::Query(1));
    assert_eq!(after_round(1, 4, 3), WideningStep::Return);
    assert_eq!(after_round(2, 0, 3), WideningStep::Exhausted);
}

#[test]
fn location_sources_in_order() {
    assert_eq!(choose_location(Some((1, 2)), Some((3, 4))), Some((1, 2, LocationSource::Gps)));
    assert_eq!(choose_location(None, Some((3, 4))), Some((3, 4, LocationSource::Ip)));
    assert_eq!(choose_location::<i32>(None, None), None);
    assert_eq!(LocationSource::Gps.label(), "gps");
    assert_eq!(LocationSource::Ip.label(), "ip");
}

#[test]
fn update_sizes() {
    assert_eq!(validate_update(0), Err(Rejection::NoVillages));
    assert_eq!(validate_update(1), Ok(1));
    assert_eq!(validate_update(MAX_UPDATE_VILLAGES), Ok(500));
    assert_eq!(validate_update(501), Err(Rejection::TooManyVillages));
}

#[test]
fn meta_updates_need_a_key() {
    let empty = MetaUpdatePayload { meta: BTreeMap::new() };
    assert_eq!(validate_meta_update(&empty), Err(Rejection::NoMetadata));
    let mut meta = BTreeMap::new();
    meta.insert("data_version".to_string(), "2025-01".to_string());
    meta.insert("village_count".to_string(), "83468".to_string());
    assert_eq!(validate_meta_update(&MetaUpdatePayload { meta }), Ok(2));
}

#[test]
fn batches_of_a_hundred() {
    assert_eq!(BATCH_SIZE, 100);
    assert_eq!(batch_ranges(0), vec![]);
    assert_eq!(batch_ranges(1), vec![(0, 1)]);
    assert_eq!(batch_ranges(100), vec![(0, 100)]);
    assert_eq!(batch_ranges(250), vec![(0, 100), (100, 200), (200, 250)]);
    for n in 0..450usize {
        let expected: Vec<(usize, usize)> = (0..n).step_by(100).map(|s| (s, (s + 100).min(n))).collect();
        assert_eq!(batch_ranges(n), expected);
    }
}

#[test]
fn pick_reorders_items() {
    let items = vec!["a".to_string(), "b".to_string(), "c".to_string(), "d".to_string()];
    assert_eq!(pick(items.clone(), &vec![2, 0, 3]), vec!["c".to_string(), "a".to_string(), "d".to_string()]);
    assert_eq!(pick(items.clone(), &vec![]), Vec::<String>::new());
    assert_eq!(pick(items, &vec![3, 2, 1, 0]), vec!["d".to_string(), "c".to_string(), "b".to_string(), "a".to_string()]);
}

#[test]
fn take_nearest_orders_items_by_key() {
    let items = vec!['w', 'x', 'y', 'z', 'v'];
    let keys = vec![40u64, 10, 30, 10, 0];
    assert_eq!(take_nearest(items.clone(), &keys, 3), vec!['v', 'x', 'z']);
    assert_eq!(take_nearest(items.clone(), &keys, 10), vec!['v', 'x', 'z', 'y', 'w']);
    assert_eq!(take_nearest(items, &keys, 0), Vec::<char>::new());
}
