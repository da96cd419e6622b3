use splatoon3_ghost_drawer::artwork::Artwork;
use splatoon3_ghost_drawer::canvas::{ArtworkMetadata, Canvas};
use splatoon3_ghost_drawer::ids::ArtworkId;
use splatoon3_ghost_drawer::repository::{
    ArtworkQuery, BatchResult, RepositoryError, SearchResult, SortField, SortOrder,
};
use splatoon3_ghost_drawer::shared::Timestamp;

#[test]
fn test_batch_result() {
    let mut result = BatchResult::new();
    let id1 = ArtworkId::generate();
    let id2 = ArtworkId::generate();

    result.add_success(id1);
    result.add_failure(id2, RepositoryError::NotFound { id: id2 });

    assert_eq!(result.success_count(), 1);
    assert_eq!(result.failure_count(), 1);
    assert!(!result.is_all_successful());
    assert!(result.has_failures());
}

#[test]
fn test_search_result() {
    let result = SearchResult::empty();
    assert!(result.is_empty());
    assert_eq!(result.len(), 0);

    let metadata = ArtworkMetadata::new("Test".to_string());
    let canvas = Canvas::new(10, 10);
    let artwork = Artwork::new(metadata, "png".to_string(), canvas);

    let result = SearchResult::new(vec![artwork], 1, false, 100);
    assert!(!result.is_empty());
    assert_eq!(result.len(), 1);
}

#[test]
fn test_repository_error_classification() {
    let not_found = RepositoryError::NotFound { id: ArtworkId::generate() };
    assert!(not_found.is_client_error());
    assert!(!not_found.is_transient());

    let connection_error = RepositoryError::ConnectionError { message: "Connection lost".to_string() };
    assert!(!connection_error.is_client_error());
    assert!(connection_error.is_transient());
}

#[test]
fn repeated_failures_count_once() {
    let mut result = BatchResult::new();
    let id = ArtworkId::generate();
    result.add_failure(id, RepositoryError::QuotaExceeded);
    result.add_failure(id, RepositoryError::ConcurrentModification);
    assert_eq!(result.failure_count(), 1);
    assert_eq!(result.total_processed, 2);
    assert!(matches!(result.failed[0].1, RepositoryError::ConcurrentModification));
}

#[test]
fn query_page_and_date_checks() {
    let mut query = ArtworkQuery::new();
    assert!(query.validate_page_and_dates().is_ok());
    query.limit = Some(0);
    match query.validate_page_and_dates() {
        Err(RepositoryError::InvalidQuery { message }) => assert_eq!(message, "Limit must be between 1 and 1000"),
        _ => panic!("limit 0 must be refused"),
    }
    query.limit = Some(500);
    assert!(query.validate_page_and_dates().is_ok());
    query.limit = Some(1001);
    assert!(query.validate_page_and_dates().is_err());
    let q = ArtworkQuery::new().with_date_range(Some(Timestamp::from_millis(10)), Some(Timestamp::from_millis(10)));
    match q.validate_page_and_dates() {
        Err(RepositoryError::InvalidQuery { message }) => {
            assert_eq!(message, "created_after must be before created_before")
        }
        _ => panic!("an empty date range must be refused"),
    }
    let q = ArtworkQuery::recent(5);
    assert_eq!(q.limit, Some(5));
    assert_eq!(q.sort_by, Some(SortField::CreatedAt));
    assert_eq!(q.sort_order, Some(SortOrder::Descending));
    let q = ArtworkQuery::by_author("me".to_string()).with_pagination(10, 20).with_sort(SortField::Name, SortOrder::Ascending);
    assert_eq!(q.author, Some("me".to_string()));
    assert_eq!(q.offset, Some(20));
    assert_eq!(q.sort_by, Some(SortField::Name));
}

#[test]
fn repository_error_messages() {
    assert_eq!(RepositoryError::QuotaExceeded.display_string(), "Storage quota exceeded");
    assert_eq!(
        RepositoryError::InvalidQuery { message: "x".to_string() }.display_string(),
        "Invalid query parameters: x"
    );
}
