use destru::catalog::{File, Structure, StructurePreview, UserPreview};
use destru::listing::{page_count, page_offset, PaginationParams};
use destru::pagination::PaginationParams as PageParams;

#[test]
fn listing_window_defaults_and_clamps() {
    assert_eq!(PaginationParams { page: None, size: None }.window(), (1, 16));
    assert_eq!(PaginationParams { page: Some(0), size: Some(0) }.window(), (1, 1));
    assert_eq!(PaginationParams { page: Some(-4), size: Some(500) }.window(), (1, 64));
    assert_eq!(PaginationParams { page: Some(3), size: Some(20) }.window(), (3, 20));
}

#[test]
fn listing_offsets_and_counts() {
    assert_eq!(page_offset(1, 16), Some(0));
    assert_eq!(page_offset(3, 20), Some(40));
    assert_eq!(page_offset(i64::MAX, 64), None);
    assert_eq!(page_count(0, 16), 0);
    assert_eq!(page_count(16, 16), 1);
    assert_eq!(page_count(17, 16), 2);
    assert_eq!(page_count(i64::MAX, 1), i64::MAX);
    assert_eq!(page_count(i64::MAX, 64), i64::MAX / 64 + 1);
}

#[test]
fn page_params_defaults() {
    let p = PageParams { page: None, size: None };
    assert_eq!(p.get_page(), 1);
    assert_eq!(p.get_size(), 24);
    let q = PageParams { page: Some(4), size: Some(9) };
    assert_eq!(q.get_page(), 4);
    assert_eq!(q.get_size(), 9);
}

#[test]
fn structure_preview_takes_first_image_and_creator() {
    let s = Structure {
        id: "s1".to_string(),
        name: "tree".to_string(),
        files: vec![],
        images: vec![
            File { url: "a.png".to_string(), created: 1 },
            File { url: "b.png".to_string(), created: 2 },
        ],
        summary: String::new(),
        description: String::new(),
        creators: vec![UserPreview { id: "u".to_string(), name: "zm".to_string(), avatar: String::new() }],
        created: 0,
    };
    let p = s.to_preview();
    assert_eq!((p.id.as_str(), p.name.as_str(), p.image.as_str(), p.creator.as_str()), ("s1", "tree", "a.png", "zm"));
    let q = StructurePreview::from_structure(s);
    assert_eq!(q.image, "a.png");
}
