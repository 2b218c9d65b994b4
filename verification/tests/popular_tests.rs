use repack_crawler::popular::PopularRepacks;

#[test]
fn test_parse_pink_paw_award() {
    let html = r#"
        <article>
            <div class="entry-content">
                <ul class="lcp_catlist">
                    <li><a href="https://fitgirl-repacks.site/game-one/">Game One Title</a></li>
                    <li><a href="https://fitgirl-repacks.site/game-two/">Game Two Title</a></li>
                    <li><a href="https://fitgirl-repacks.site/game-three/">Game Three: Special Edition</a></li>
                </ul>
            </div>
        </article>
    "#;

    let result = PopularRepacks::parse_pink_paw_award_html(html);
    assert!(result.is_ok());

    let entries = result.unwrap();
    assert_eq!(entries.len(), 3);

    assert_eq!(entries[0].title, "Game One Title");
    assert_eq!(entries[0].url, "https://fitgirl-repacks.site/game-one/");
    assert_eq!(entries[0].image_url, None);

    assert_eq!(entries[1].title, "Game Two Title");
    assert_eq!(entries[2].title, "Game Three: Special Edition");
}

#[test]
fn test_parse_popular_repacks_with_images() {
    let html = r#"
        <article>
            <div class="entry-content">
                <div class="widget-grid-view-image">
                    <a href="https://fitgirl-repacks.site/game-one/" title="Game One Title">
                        <img src="https://example.com/image1.jpg" />
                    </a>
                </div>
                <div class="widget-grid-view-image">
                    <a href="https://fitgirl-repacks.site/game-two/" title="Game Two Title">
                        <img src="https://example.com/image2.jpg" />
                    </a>
                </div>
            </div>
        </article>
    "#;

    let result = PopularRepacks::parse_popular_repacks_html(html);
    assert!(result.is_ok());

    let entries = result.unwrap();
    assert_eq!(entries.len(), 2);

    assert_eq!(entries[0].title, "Game One Title");
    assert_eq!(entries[0].url, "https://fitgirl-repacks.site/game-one/");
    assert_eq!(entries[0].image_url, Some("https://example.com/image1.jpg".to_string()));
}

#[test]
fn test_parse_week_popular_repacks() {
    let html = r#"
        <aside id="block-2" class="widget widget_block">
            <div class="jetpack_top_posts_widget">
                <h2 class="widgettitle">Most Popular Repacks of the Week</h2>
                <div class='widgets-grid-layout no-grav'>
                    <div class="widget-grid-view-image">
                        <a href="https://fitgirl-repacks.site/game-one/" title="Game One Title">
                            <img src="https://example.com/image1.jpg" />
                        </a>
                    </div>
                    <div class="widget-grid-view-image">
                        <a href="https://fitgirl-repacks.site/game-two/" title="Game Two Title">
                            <img src="https://example.com/image2.jpg" />
                        </a>
                    </div>
                </div>
            </div>
        </aside>
    "#;

    let result = PopularRepacks::parse_week_popular_repacks(html);
    assert!(result.is_ok());

    let entries = result.unwrap();
    assert_eq!(entries.len(), 2);

    assert_eq!(entries[0].title, "Game One Title");
    assert_eq!(entries[0].url, "https://fitgirl-repacks.site/game-one/");
    assert_eq!(entries[0].image_url, Some("https://example.com/image1.jpg".to_string()));
}

#[test]
fn test_parse_today_popular_repacks() {
    let html = r#"
        <aside id="block-6" class="widget widget_block">
            <div class="jetpack_top_posts_widget">
                <h2 class="widgettitle">Today's Most Popular Repacks</h2>
                <div class='widgets-grid-layout no-grav'>
                    <div class="widget-grid-view-image">
                        <a href="https://fitgirl-repacks.site/game-three/" title="Game Three Title">
                            <img src="https://example.com/image3.jpg" />
                        </a>
                    </div>
                </div>
            </div>
        </aside>
    "#;

    let result = PopularRepacks::parse_today_popular_repacks(html);
    assert!(result.is_ok());

    let entries = result.unwrap();
    assert_eq!(entries.len(), 1);

    assert_eq!(entries[0].title, "Game Three Title");
    assert_eq!(entries[0].url, "https://fitgirl-repacks.site/game-three/");
    assert_eq!(entries[0].image_url, Some("https://example.com/image3.jpg".to_string()));
}
