//! The decisions of a website crawler: which links are visited, in which rounds, where
//! `robots.txt` and the sitemap are read from, how the HTTP client is set up and what a
//! scan request turns into.

pub mod address;
pub mod agreement;
pub mod black_list;
pub mod client_laws;
pub mod configuration;
pub mod course;
pub mod crawl;
pub mod crawl_laws;
pub mod http_client;
pub mod laws;
pub mod link_laws;
pub mod link_set;
pub mod monitor;
pub mod page;
pub mod robots;
pub mod robots_laws;
pub mod round_course;
pub mod semaphore;
pub mod server;
pub mod service_laws;
pub mod sitemap_course;
pub mod sitemap_laws;
pub mod sitemap_walk;
pub mod text;
pub mod text_laws;
pub mod website;
