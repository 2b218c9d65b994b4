use repack_crawler::blacklist::parse_blacklist_content;
use repack_crawler::extract::Extractors;
use repack_crawler::models::media_result_of;
use repack_crawler::models::ScreenshotData;
use repack_crawler::constants::AppConstants;
use repack_crawler::magnet::extract_info_hash;
use repack_crawler::popular::ParseError;
use repack_crawler::popular::PopularRepacks;
use repack_crawler::sizes::parse_single_size;
use repack_crawler::crawl::CrawlCursor;
use repack_crawler::crawl::FitGirlCrawler;
use repack_crawler::crawl::split_categories;
use repack_crawler::crawl::StopReason;
use repack_crawler::crawl::UpdateCursor;
use repack_crawler::crawl::filter_new;
use repack_crawler::models::GameRepack;
use repack_crawler::registry::create_crawler_registry;
use repack_crawler::screenshots::RiotPixelsClient;
use repack_crawler::screenshots::ShotItem;
use repack_crawler::screenshots::select_screenshot;
use repack_crawler::text::chars_of;
use repack_crawler::title::clean_game_title;

fn record(url: &str, title: &str) -> GameRepack {
    GameRepack {
        title: title.to_string(),
        genres_tags: None,
        company: None,
        languages: None,
        original_size: None,
        repack_size: None,
        url: url.to_string(),
        date: None,
        image_url: None,
        magnet_links: Vec::new(),
        screenshots: Vec::new(),
        videos: Vec::new(),
    }
}

const LISTING_PAGE: &str = r#"
<article>
  <h1 class="entry-title"><a href="https://fitgirl-repacks.site/elden-ring/">Elden Ring – v1.12.3</a></h1>
  <time class="entry-date" datetime="2024-06-21T10:00:00+00:00">June 21, 2024</time>
  <div class="entry-content">
    <img class="alignleft" width="150" src="https://example.com/cover.jpg" />
    <h3>About the game</h3>
    <p><strong>Genres/Tags:</strong> RPG, Open world<br>
    <strong>Companies:</strong> FromSoftware<br>
    <strong>Languages:</strong> ENG/MULTI14<br>
    <strong>Original Size:</strong> 44.7 GB<br>
    <strong>Repack Size:</strong> from 28.5 GB [Selective Download]</p>
    <h3>Download Mirrors</h3>
    <ul>
      <li>Tracker A | magnet <a href="magnet:?xt=urn:btih:AAA111&dn=EldenRing">[magnet]</a></li>
      <li>Tracker B [.torrent file] <a href="magnet:?xt=urn:btih:BBB222&dn=EldenRing">[magnet]</a></li>
    </ul>
  </div>
</article>
<article>
  <h1 class="entry-title"><a href="https://fitgirl-repacks.site/updates-digest-june/">Updates Digest June</a></h1>
  <div class="entry-content">
    <h3>Digest</h3>
    <p>Weekly round-up.</p>
  </div>
</article>
"#;

#[test]
fn crawl_page_filters_blacklisted_and_groups_magnets() {
    let crawler = FitGirlCrawler::new().unwrap();
    let records = crawler.crawl_page_html(LISTING_PAGE);
    assert_eq!(records.len(), 1);
    let g = &records[0];
    assert_eq!(g.title, "Elden Ring – v1.12.3");
    assert_eq!(g.url, "https://fitgirl-repacks.site/elden-ring/");
    assert_eq!(g.date.as_deref(), Some("2024-06-21T10:00:00+00:00"));
    assert_eq!(g.genres_tags.as_deref(), Some("RPG, Open world"));
    assert_eq!(g.company.as_deref(), Some("FromSoftware"));
    assert_eq!(g.languages.as_deref(), Some("ENG/MULTI14"));
    assert_eq!(g.original_size.as_deref(), Some("44.7 GB"));
    assert_eq!(g.repack_size.as_deref(), Some("from 28.5 GB [Selective"));
    assert_eq!(g.image_url.as_deref(), Some("https://example.com/cover.jpg"));
    assert_eq!(g.magnet_links.len(), 2);
    assert_eq!(g.magnet_links[0].source, "Tracker A");
    assert_eq!(g.magnet_links[0].magnet, "magnet:?xt=urn:btih:AAA111&dn=EldenRing");
    assert_eq!(g.magnet_links[1].source, "Tracker B");
    assert_eq!(g.magnet_links[1].magnet, "magnet:?xt=urn:btih:BBB222&dn=EldenRing");
}

#[test]
fn clean_title_of_crawled_record_is_stable() {
    let crawler = FitGirlCrawler::new().unwrap();
    let records = crawler.crawl_page_html(LISTING_PAGE);
    let cleaned = clean_game_title(&records[0].title);
    assert_eq!(cleaned, "Elden Ring");
    assert_eq!(clean_game_title(&cleaned), cleaned);
}

#[test]
fn normalize_twice_equals_once() {
    let samples = [
        "Cyberpunk 2077 – v2.13",
        "Game, (x) v1.5",
        "A – Digital Deluxe Edition – Build 99",
        "   Weird   spacing\tcase – GOG  ",
        "Plain Title",
    ];
    for s in samples {
        let once = clean_game_title(s);
        assert_eq!(clean_game_title(&once), once);
    }
}

#[test]
fn single_page_extraction_carries_gallery_url() {
    let page = r#"
<article>
  <h1 class="entry-title">Elden Ring</h1>
  <time class="entry-date">June 21, 2024</time>
  <div class="entry-content">
    <h3>About</h3>
    <p><strong>Genres/Tags:</strong> RPG</p>
    <h3>Screenshots (Click to enlarge)</h3>
    <p>
      <a href="https://en.riotpixels.com/games/elden-ring/screenshots/12/?utm_source=x">shots</a>
      <a href="https://www.youtube.com/watch?v=abc">trailer</a>
      <a href="https://example.com/clip.mp4?x=1">clip</a>
    </p>
  </div>
</article>
"#;
    let frag = chars_of(page);
    let (g, gallery) = FitGirlCrawler::extract_repack_from_single_page(
        &frag,
        "https://fitgirl-repacks.site/elden-ring/",
    )
    .unwrap();
    assert_eq!(g.title, "Elden Ring");
    assert_eq!(g.url, "https://fitgirl-repacks.site/elden-ring/");
    assert_eq!(g.date.as_deref(), Some("June 21, 2024"));
    assert_eq!(
        gallery.as_deref(),
        Some("https://en.riotpixels.com/games/elden-ring/screenshots/12/?utm_source=x")
    );
    assert_eq!(
        g.videos,
        vec![
            "https://www.youtube.com/watch?v=abc".to_string(),
            "https://example.com/clip.mp4?x=1".to_string()
        ]
    );
}

#[test]
fn gallery_url_cleanup_keeps_attribution() {
    let cleaned = RiotPixelsClient::clean_screenshot_url(
        "https://en.riotpixels.com/games/gta-5/screenshots/1214/?utm_source=fg",
    );
    assert_eq!(cleaned, "https://en.riotpixels.com/games/gta-5/screenshots/?utm_source=fg");
    let no_query =
        RiotPixelsClient::clean_screenshot_url("https://en.riotpixels.com/games/gta-5/screenshots/1214/");
    assert_eq!(no_query, "https://en.riotpixels.com/games/gta-5/screenshots/");
    let untouched = RiotPixelsClient::clean_screenshot_url("https://example.com/other/");
    assert_eq!(untouched, "https://example.com/other/");
}

#[test]
fn gallery_host_rewrite_prefers_regional_mirror() {
    let r = RiotPixelsClient::rewrite_gallery_host("https://en.riotpixels.com/games/x/screenshots/");
    assert_eq!(r, "https://ru.riotpixels.com/games/x/screenshots/");
    let r2 = RiotPixelsClient::rewrite_gallery_host("https://riotpixels.com/games/x/screenshots/");
    assert_eq!(r2, "https://ru.riotpixels.com/games/x/screenshots/");
}

#[test]
fn bot_challenge_detection() {
    assert!(RiotPixelsClient::is_bot_challenge(
        "<html>Just a moment... checking by cloudflare</html>"
    ));
    assert!(!RiotPixelsClient::is_bot_challenge("<html>gallery</html>"));
}

#[test]
fn screenshot_selection_prefers_largest_and_smallest() {
    let html = r#"
<section class="gfx-holder"><ul><li>
<a class="action-colorbox" onclick='return [{"o":0,"s":100,"u":"http://img/small.jpg"},{"o":0,"s":300,"u":"http://img/large.jpg"},{"o":0,"s":200,"u":"http://img/mid.jpg"}]'>x</a>
</li></ul></section>
"#;
    let shots = RiotPixelsClient::parse_screenshots_html(html);
    assert_eq!(shots.len(), 1);
    assert_eq!(shots[0].full_url, "https://img/large.jpg");
    assert_eq!(shots[0].thumbnail_url.as_deref(), Some("https://img/small.jpg"));
}

#[test]
fn screenshot_selection_honors_original_flag() {
    let items = vec![
        ShotItem { original: None, byte_size: Some(500), url: Some("http://a.jpg".to_string()) },
        ShotItem { original: Some(1), byte_size: Some(10), url: Some("http://orig.jpg".to_string()) },
    ];
    let sd = select_screenshot(&items).unwrap();
    assert_eq!(sd.full_url, "https://orig.jpg");
    assert_eq!(sd.thumbnail_url.as_deref(), Some("https://orig.jpg"));
}

#[test]
fn incremental_update_stops_on_known_page() {
    let records = vec![
        record("https://fitgirl-repacks.site/a/", "A"),
        record("https://fitgirl-repacks.site/b/", "B"),
    ];
    let known = vec![
        "https://fitgirl-repacks.site/a/".to_string(),
        "https://fitgirl-repacks.site/b/".to_string(),
        "https://fitgirl-repacks.site/c/".to_string(),
    ];
    let fresh = filter_new(records, &known);
    assert_eq!(fresh.len(), 0);

    let cursor = UpdateCursor::begin();
    let after = cursor.on_page(fresh.len());
    assert!(!after.running());
    assert_eq!(after.reason, Some(StopReason::NoNewRecords));
    assert_eq!(after.page, 1);
    assert_eq!(after.total_new, 0);
}

#[test]
fn incremental_update_continues_on_new_records() {
    let records = vec![
        record("https://fitgirl-repacks.site/a/", "A"),
        record("https://fitgirl-repacks.site/new/", "New"),
    ];
    let known = vec!["https://fitgirl-repacks.site/a/".to_string()];
    let fresh = filter_new(records, &known);
    assert_eq!(fresh.len(), 1);
    assert_eq!(fresh[0].url, "https://fitgirl-repacks.site/new/");

    let cursor = UpdateCursor::begin();
    let after = cursor.on_page(fresh.len());
    assert!(after.running());
    assert_eq!(after.page, 2);
    assert_eq!(after.total_new, 1);
}

#[test]
fn incremental_update_respects_safety_limit() {
    let mut cursor = UpdateCursor::begin();
    let mut pages = 0;
    while cursor.running() {
        cursor = cursor.on_page(5);
        pages += 1;
        assert!(pages <= 10);
    }
    assert_eq!(cursor.reason, Some(StopReason::PageLimit));
    assert_eq!(pages, 10);
}

#[test]
fn paged_crawl_stops_on_empty_page_and_limit() {
    let c = CrawlCursor::begin(1, Some(10));
    let c = c.on_page(0);
    assert_eq!(c.reason, Some(StopReason::EmptyPage));
    assert_eq!(c.total, 0);

    let mut c = CrawlCursor::begin(1, Some(3));
    let mut emitted = 0;
    while c.running() {
        c = c.on_page(4);
        emitted += 4;
    }
    assert_eq!(c.reason, Some(StopReason::PageLimit));
    assert_eq!(c.total, 12);
    assert_eq!(emitted, 12);

    let c = CrawlCursor::begin(7, None).on_page(3).on_error();
    assert_eq!(c.reason, Some(StopReason::FetchError));
    assert_eq!(c.page, 8);
}

#[test]
fn page_urls_follow_site_layout() {
    let crawler = FitGirlCrawler::new().unwrap();
    assert_eq!(crawler.page_url(1), "https://fitgirl-repacks.site");
    assert_eq!(crawler.page_url(2), "https://fitgirl-repacks.site/page/2/");
    assert_eq!(crawler.page_url(673), "https://fitgirl-repacks.site/page/673/");
}

#[test]
fn blacklist_config_parsing() {
    let content = "# comment line\n  the-genesis-order  \n\nMOVIES Weekend\n";
    let patterns = parse_blacklist_content(content);
    assert_eq!(patterns, vec!["the-genesis-order".to_string(), "movies weekend".to_string()]);
}

#[test]
fn crawler_blacklist_is_case_insensitive_substring() {
    let crawler = FitGirlCrawler::new().unwrap();
    assert!(crawler.is_blacklisted("https://fitgirl-repacks.site/UPDATES-DIGEST-june/", "whatever"));
    assert!(crawler.is_blacklisted("https://x/", "Russian Movies Night"));
    assert!(!crawler.is_blacklisted("https://fitgirl-repacks.site/elden-ring/", "Elden Ring"));
}

#[test]
fn registry_lookup_and_enabled_sites() {
    let registry = create_crawler_registry().unwrap();
    let idx = registry.get_crawler("fitgirl").unwrap();
    assert_eq!(registry.entries[idx].site_name, "FitGirl Repacks");
    assert_eq!(registry.entries[idx].base_url, "https://fitgirl-repacks.site");
    assert!(registry.get_crawler("unknown-site").is_none());
    let enabled = registry.get_enabled_crawlers();
    assert_eq!(enabled, vec![0]);
}

#[test]
fn popular_parse_error_variants() {
    assert!(matches!(
        PopularRepacks::parse_popular_repacks_html("<p>no article here</p>"),
        Err(ParseError::NoContentRegion)
    ));
    assert!(matches!(
        PopularRepacks::parse_pink_paw_award_html(
            "<article><div class=\"entry-content\"><p>no list</p></div></article>"
        ),
        Err(ParseError::NoAwardList)
    ));
    assert!(matches!(
        PopularRepacks::parse_week_popular_repacks("<div class=\"unrelated\"></div>"),
        Err(ParseError::EmptySidebarSection)
    ));
}

#[test]
fn size_parse_is_exact_on_fractional_units() {
    assert_eq!(parse_single_size("1.4 GB"), Some(1433));
    assert_eq!(parse_single_size("916 MB"), Some(916));
    assert_eq!(parse_single_size("0.001 GB"), Some(1));
    assert_eq!(parse_single_size("garbage"), None);
}

#[test]
fn info_hash_of_crawled_magnet() {
    let crawler = FitGirlCrawler::new().unwrap();
    let records = crawler.crawl_page_html(LISTING_PAGE);
    let hash = extract_info_hash(&records[0].magnet_links[0].magnet);
    assert_eq!(hash.as_deref(), Some("AAA111"));
}

#[test]
fn app_constants_bundle() {
    let c = AppConstants::new();
    assert_eq!(c.load_all_games, 999999);
    assert_eq!(c.polling_interval_ms, 2000);
    assert_eq!(c.database_url, "http://157.230.16.45/repacks.db");
}

#[test]
fn total_pages_from_pagination_links() {
    let html = r#"
<div class="pagination">
  <a class="page-numbers" href="https://fitgirl-repacks.site/page/2/">2</a>
  <a class="page-numbers" href="https://fitgirl-repacks.site/page/673/">673</a>
  <a class="page-numbers next" href="https://fitgirl-repacks.site/page/3/">Next</a>
</div>
"#;
    let doc = chars_of(html);
    assert_eq!(Extractors::extract_total_pages(&doc), Some(673));
    let unpaginated = chars_of("<div><a href=\"https://x/\">home</a></div>");
    assert_eq!(Extractors::extract_total_pages(&unpaginated), None);
}

#[test]
fn media_rows_mirror_screenshots_and_videos() {
    let media = media_result_of(
        vec![ScreenshotData {
            full_url: "https://img/full.jpg".to_string(),
            thumbnail_url: Some("https://img/thumb.jpg".to_string()),
        }],
        vec!["https://youtu.be/x".to_string()],
    );
    assert_eq!(media.screenshots.len(), 1);
    assert_eq!(media.screenshots[0].url, "https://img/full.jpg");
    assert_eq!(media.screenshots[0].thumbnail_url.as_deref(), Some("https://img/thumb.jpg"));
    assert_eq!(media.videos.len(), 1);
    assert_eq!(media.videos[0].url, "https://youtu.be/x");
}

#[test]
fn category_splitting_matches_store_keys() {
    assert_eq!(
        split_categories("RPG, Open world ,  Action,,Third-person"),
        vec![
            "RPG".to_string(),
            "Open world".to_string(),
            "Action".to_string(),
            "Third-person".to_string()
        ]
    );
    assert_eq!(split_categories("  "), Vec::<String>::new());
}
