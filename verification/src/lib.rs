//! Discovering and downloading the files that a listing page links to.
//!
//! The library covers the decision-making of a three-stage pipeline:
//! classifying HTTP statuses, extracting from an HTML page every anchor
//! that carries the file-download marker, resolving each against a base
//! URL, naming the downloaded files deterministically, and sequencing the
//! stages. Network and filesystem work stays with the caller, which drives
//! the [`pipeline`] state machine and performs the actions it asks for.

pub mod errors;
pub mod extract;
pub mod html;
pub mod naming;
pub mod pipeline;
pub mod text;
pub mod urls;

pub use errors::check_download_status;
pub use errors::check_fetch_status;
pub use errors::DownloadError;
pub use errors::FetchError;
pub use extract::extract_download_link;
pub use extract::extract_download_links;
pub use extract::ParseError;
pub use naming::download_path;
pub use naming::download_paths;
pub use urls::BaseUrl;
pub use urls::DownloadLink;
