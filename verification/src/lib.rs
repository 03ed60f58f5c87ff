//! A comic-strip slideshow, verified where it decides.
//!
//! The program this library serves fetches a news site's daily strips
//! page, pulls the strip image URLs out of the HTML, downloads each
//! image, and shows them in a small window with left/right navigation.
//! The library holds everything that decides or computes: URL extraction
//! from the parsed page, the index-aligned pairing of fetched bodies with
//! their URLs, and the slideshow state machine. Fetching, the temporary
//! files, and the window itself stay outside, handing the library plain
//! values and performing the actions it returns.

pub mod download;
pub mod extract;
pub mod viewer;

pub use download::DownloadedImage;
pub use download::bundle_images;
pub use extract::ParseError;
pub use extract::collect_urls;
pub use extract::extract_image_urls;
pub use viewer::Slideshow;
pub use viewer::SlideshowAction;
pub use viewer::SlideshowEvent;
