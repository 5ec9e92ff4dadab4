use clockify_to_solidtime::api_envelope::{blank_as_none, ItemEnvelope, ListEnvelope, PaginationLinks, PaginationMeta};

#[test]
fn direct_list_has_no_pagination_metadata() {
    let envelope = ListEnvelope::Direct(vec![1, 2]);

    let page = envelope.into_page();

    assert_eq!(page.items, [1, 2]);
    assert!(!page.has_next);
    assert!(!page.has_pagination_metadata);
}

#[test]
fn data_list_uses_links_next_url_for_has_next() {
    let page = ListEnvelope::Data {
        data: vec![1],
        links: Some(PaginationLinks { next: Some("https://example.test/next".to_string()) }),
        meta: None,
    }
    .into_page();

    assert!(page.has_next);
    assert!(page.has_pagination_metadata);
}

#[test]
fn data_list_ignores_empty_links_next_url() {
    let page = ListEnvelope::Data { data: vec![1], links: Some(PaginationLinks { next: Some(String::new()) }), meta: None }.into_page();

    assert!(!page.has_next);
    assert!(page.has_pagination_metadata);
}

#[test]
fn data_list_uses_meta_next_page_url_for_has_next() {
    let page = ListEnvelope::Data {
        data: vec![1],
        links: None,
        meta: Some(PaginationMeta { current_page: None, last_page: None, next_page_url: Some("https://example.test/next".to_string()) }),
    }
    .into_page();

    assert!(page.has_next);
    assert!(page.has_pagination_metadata);
}

#[test]
fn data_list_uses_meta_page_numbers_for_has_next() {
    let page = ListEnvelope::Data {
        data: vec![1],
        links: None,
        meta: Some(PaginationMeta { current_page: Some(1), last_page: Some(2), next_page_url: None }),
    }
    .into_page();

    assert!(page.has_next);
    assert!(page.has_pagination_metadata);
}

#[test]
fn data_list_has_no_next_when_links_and_meta_do_not_point_to_next_page() {
    let page = ListEnvelope::Data {
        data: vec![1],
        links: Some(PaginationLinks { next: None }),
        meta: Some(PaginationMeta { current_page: Some(2), last_page: Some(2), next_page_url: None }),
    }
    .into_page();

    assert!(!page.has_next);
    assert!(page.has_pagination_metadata);
}

#[test]
fn item_envelope_unwraps_data_and_bare_items() {
    assert_eq!(ItemEnvelope::Data { data: 7 }.into_item(), 7);
    assert_eq!(ItemEnvelope::Direct(8).into_item(), 8);
}

#[test]
fn blank_relationship_ids_become_none_and_others_are_trimmed() {
    assert_eq!(blank_as_none(Some("   ".to_string())), None);
    assert_eq!(blank_as_none(None), None);
    assert_eq!(blank_as_none(Some(" project-id ".to_string())), Some("project-id".to_string()));
}
