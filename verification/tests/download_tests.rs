use tirinha::bundle_images;

#[test]
fn one_image_per_url_with_matching_bytes() {
    let urls = vec![
        "https://img.example/a.jpg".to_string(),
        "https://img.example/b.jpg".to_string(),
        "https://img.example/c.jpg".to_string(),
    ];
    let bodies: Vec<Vec<u8>> = vec![b"aaa".to_vec(), b"bb".to_vec(), b"cccc".to_vec()];
    let images = bundle_images(&urls, bodies.clone());
    assert_eq!(images.len(), urls.len());
    for i in 0..images.len() {
        assert_eq!(images[i].url, urls[i]);
        assert_eq!(images[i].bytes, bodies[i]);
    }
}

#[test]
fn no_urls_no_images() {
    let urls: Vec<String> = Vec::new();
    let images = bundle_images(&urls, Vec::new());
    assert!(images.is_empty());
}

#[test]
fn identical_urls_keep_their_own_bodies() {
    let urls = vec![
        "https://img.example/same.jpg".to_string(),
        "https://img.example/same.jpg".to_string(),
    ];
    let bodies: Vec<Vec<u8>> = vec![vec![1, 2, 3], vec![4, 5]];
    let images = bundle_images(&urls, bodies);
    assert_eq!(images[0].bytes, vec![1, 2, 3]);
    assert_eq!(images[1].bytes, vec![4, 5]);
}

#[test]
fn empty_bodies_are_kept_as_empty() {
    let urls = vec!["https://img.example/empty.gif".to_string()];
    let images = bundle_images(&urls, vec![Vec::new()]);
    assert_eq!(images.len(), 1);
    assert!(images[0].bytes.is_empty());
}
