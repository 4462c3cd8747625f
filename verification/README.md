# website_crawler

The decisions of a website crawler, verified with Verus, and the crawler that acts on them.

- `src/website.rs`: the website, and which of its links may be visited.
- `src/crawl.rs`: the crawl by rounds, and the crawl by passes under a client that can call it off.
- `src/sitemap_walk.rs`: where the sitemap is, and what is done with its entries.
- `src/robots.rs`: when and from where `robots.txt` is read, and the crawl delay.
- `src/http_client.rs`: the settings of the HTTP client, redirects and the proxy.
- `src/server.rs`: what a scan request is answered and which job it starts.
- `src/monitor.rs`, `src/semaphore.rs`: what the client is told, and how many pages are fetched
  at a time.
- `src/link_set.rs`, `src/address.rs`: sets of links and URLs, over the `hashbrown`,
  `case_insensitive_string`, `url` and `reqwest` crates.
- `src/laws.rs`: what holds of single decisions and of any sequence of them.
- `src/course.rs`, `src/round_course.rs`, `src/sitemap_course.rs`: what holds of a crawl under a
  client, by rounds and through the sitemaps, from its start to its end.
- `src/agreement.rs`: that the two ways through a website visit the same links.
- `app/`: fetching, reading and serving.

The parser of `robots.txt`, the source of pages and the client are parts that the crawler is put
together with: the library is generic in the parser and takes the parser's methods as functions,
and `app/parts.rs` has a trait for each part.
