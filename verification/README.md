# webcrawler

A distributed web crawler whose decision logic is written in Verus and
proved against its contracts.

Seed URLs go into an SQS frontier queue. Crawler workers take jobs from it,
follow robots.txt (cached in DynamoDB for 24 hours), rate-limit each domain
through a sliding window in Redis, download pages, store the raw HTML in S3
under its BLAKE3 hash, record metadata in DynamoDB and queue a parse job.
Parsing workers read the stored HTML, extract title, description, visible
body text and links, store the parsed record in S3 and push the links back
into the frontier, one level deeper.

## Layout

- `src/` — the verified library:
  - `text.rs`: white space, trimming, lines, prefixes, `u64` numerals, joining, word counts;
  - `robots.rs`: robots.txt rules for this crawler and the allow check;
  - `urls.rs`: URL parsing and resolution (through the `url` crate);
  - `document.rs`: parsed HTML documents and CSS selection (through `scraper`);
  - `html.rs`: links, title, description and body text of a page;
  - `storage.rs`: S3 keys, file stems, page hashes (through `blake3`), stored crawl delays;
  - `records.rs`: robots records as stored in DynamoDB items (JSON through `serde_json`,
    times through `chrono`);
  - `worker.rs`: the crawl task as a state machine, the parse plan, rate limits, retries, seeds;
  - `config.rs`, `models.rs`, `clock.rs`: settings, records, the clock.
- `app/` — the programs (`crawl`, `parse`, `seed`): AWS, Redis and HTTP I/O,
  configuration from the environment, and the loops that run the library's tasks.
- `tests/` — tests of the library on concrete inputs.
