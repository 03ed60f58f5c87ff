//! The whole pipeline on fixtures: a page with three strips, three stub
//! image bodies, and a short viewing session.

use tirinha::{
    bundle_images, extract_image_urls, Slideshow, SlideshowAction, SlideshowEvent,
};

#[test]
fn three_strips_end_to_end() {
    let html = "<html><body>\
        <div class=\"quadrinho-wrapper\"><img data-src-desktop=\"https://img.example/0.jpg\"></div>\
        <div class=\"quadrinho-wrapper\"><img data-src-desktop=\"https://img.example/1.jpg\"></div>\
        <div class=\"quadrinho-wrapper\"><img data-src-desktop=\"https://img.example/2.jpg\"></div>\
        </body></html>";

    let urls = extract_image_urls(html).unwrap();
    assert_eq!(urls.len(), 3);

    let bodies: Vec<Vec<u8>> = vec![b"zero".to_vec(), b"one".to_vec(), b"two".to_vec()];
    let images = bundle_images(&urls, bodies);
    assert_eq!(images.len(), 3);
    assert_eq!(images[0].url, "https://img.example/0.jpg");
    assert_eq!(images[2].bytes, b"two".to_vec());

    let mut show = Slideshow::new(images.len());
    assert_eq!(show.initial_action(), SlideshowAction::Render { index: 0 });

    assert_eq!(
        show.handle_event(SlideshowEvent::Right),
        SlideshowAction::Render { index: 1 }
    );
    assert_eq!(
        show.handle_event(SlideshowEvent::Right),
        SlideshowAction::Render { index: 2 }
    );
    assert_eq!(show.handle_event(SlideshowEvent::Right), SlideshowAction::Stay);
    assert_eq!(show.index(), 2);
    assert_eq!(show.handle_event(SlideshowEvent::Quit), SlideshowAction::Exit);
    assert!(show.is_closed());
}
