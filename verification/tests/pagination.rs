use anytype_objects::error::ApiError;
use anytype_objects::objects::{ListObjectsResponse, Object};
use anytype_objects::pagination::{aggregate_pages, Aggregator};
use anytype_objects::types::Pagination;
use anytype_objects::value::Value;

fn obj(id: &str) -> Object {
    Object {
        id: id.to_string(),
        name: None,
        space_id: None,
        object: None,
        properties: Value::Null,
    }
}

fn page(ids: &[&str], has_more: bool, total: usize) -> ListObjectsResponse {
    ListObjectsResponse {
        data: ids.iter().map(|id| obj(id)).collect(),
        pagination: Pagination { has_more, total },
    }
}

fn ids(items: &[Object]) -> Vec<&str> {
    items.iter().map(|o| o.id.as_str()).collect()
}

#[test]
fn full_scan_concatenates_pages() {
    let script = vec![
        Ok(page(&["a", "b"], true, 5)),
        Ok(page(&["c", "d"], true, 5)),
        Ok(page(&["e"], false, 5)),
    ];
    let items = aggregate_pages(script, None).unwrap();
    assert_eq!(ids(&items), vec!["a", "b", "c", "d", "e"]);
}

#[test]
fn lying_has_more_still_terminates() {
    // The server keeps claiming more pages, but the reported total
    // equals what was already fetched: the walk must still end, and
    // the later responses must never be consumed.
    let script = vec![
        Ok(page(&["a", "b"], true, 2)),
        Ok(page(&["ghost1"], true, 2)),
        Ok(page(&["ghost2"], true, 2)),
    ];
    let items = aggregate_pages(script, None).unwrap();
    assert_eq!(ids(&items), vec!["a", "b"]);

    let mut agg = Aggregator::new(None);
    let more = agg.absorb(page(&["a", "b"], true, 2));
    assert!(!more);
}

#[test]
fn limit_returns_exactly_first_n() {
    let script = vec![
        Ok(page(&["a", "b"], true, 10)),
        Ok(page(&["c", "d"], true, 10)),
    ];
    let items = aggregate_pages(script, Some(2)).unwrap();
    assert_eq!(ids(&items), vec!["a", "b"]);
}

#[test]
fn limit_requests_no_page_beyond_necessary() {
    let mut agg = Aggregator::new(Some(2));
    assert_eq!(agg.page_limit(), Some(2));
    let more = agg.absorb(page(&["a", "b"], true, 10));
    assert!(!more);
    assert_eq!(agg.into_items().len(), 2);
}

#[test]
fn empty_first_page_yields_empty_result_in_one_fetch() {
    let mut agg = Aggregator::new(None);
    assert_eq!(agg.next_offset(), 0);
    let more = agg.absorb(page(&[], false, 0));
    assert!(!more);
    assert!(agg.into_items().is_empty());

    let script = vec![Ok(page(&[], false, 0))];
    assert!(aggregate_pages(script, None).unwrap().is_empty());
}

#[test]
fn failure_on_second_page_discards_partial_result() {
    let script: Vec<Result<ListObjectsResponse, ApiError>> = vec![
        Ok(page(&["a"], true, 3)),
        Err(ApiError::Transport),
        Ok(page(&["c"], false, 3)),
    ];
    assert_eq!(aggregate_pages(script, None), Err(ApiError::Transport));
}

#[test]
fn failure_on_first_page_propagates() {
    let script: Vec<Result<ListObjectsResponse, ApiError>> =
        vec![Err(ApiError::NotFound)];
    assert_eq!(aggregate_pages(script, None), Err(ApiError::NotFound));
}

#[test]
fn transport_gone_quiet_is_a_transport_error() {
    // The first page promises more, but no further response arrives.
    let script = vec![Ok(page(&["a"], true, 3))];
    assert_eq!(aggregate_pages(script, None), Err(ApiError::Transport));
}

#[test]
fn offset_advances_by_page_size() {
    let mut agg = Aggregator::new(None);
    let more = agg.absorb(page(&["a", "b", "c"], true, 10));
    assert!(more);
    assert_eq!(agg.next_offset(), 3);
    let more = agg.absorb(page(&["d"], true, 10));
    assert!(more);
    assert_eq!(agg.next_offset(), 4);
    let more = agg.absorb(page(&["e"], false, 10));
    assert!(!more);
    assert_eq!(ids(&agg.into_items()), vec!["a", "b", "c", "d", "e"]);
}

#[test]
fn empty_middle_page_does_not_advance_offset() {
    let mut agg = Aggregator::new(None);
    let more = agg.absorb(page(&["a"], true, 3));
    assert!(more);
    assert_eq!(agg.next_offset(), 1);
    let more = agg.absorb(page(&[], true, 3));
    assert!(more);
    assert_eq!(agg.next_offset(), 1);
}
