//! The records the pipeline produces: one crawled release entry with its
//! metadata, magnet links, screenshots and videos; popular-list entries;
//! and crawl progress summaries.

use vstd::prelude::*;

verus! {

/// One magnet link of a release, labelled by the tracker or source text of
/// its list item.
#[derive(Debug, Clone)]
pub struct MagnetLink {
    pub source: String,
    pub magnet: String,
}

/// One resolved screenshot: the full-resolution image and, when known, its
/// thumbnail.
#[derive(Debug, Clone)]
pub struct ScreenshotData {
    pub full_url: String,
    pub thumbnail_url: Option<String>,
}

/// One crawled release entry. The URL is the external identity: crawling
/// the same URL again describes the same record.
#[derive(Debug, Clone)]
pub struct GameRepack {
    pub title: String,
    pub genres_tags: Option<String>,
    pub company: Option<String>,
    pub languages: Option<String>,
    pub original_size: Option<String>,
    pub repack_size: Option<String>,
    pub url: String,
    pub date: Option<String>,
    pub image_url: Option<String>,
    pub magnet_links: Vec<MagnetLink>,
    pub screenshots: Vec<ScreenshotData>,
    pub videos: Vec<String>,
}

/// One entry of a ranked popular list; rank is given by output order.
#[derive(Debug, Clone)]
pub struct PopularRepackEntry {
    pub url: String,
    pub title: String,
    pub image_url: Option<String>,
}

/// The loosely delimited info block of a release page, field by field; a
/// missing label leaves its field empty.
#[derive(Debug, Clone)]
pub struct GameDetails {
    pub genres_tags: Option<String>,
    pub company: Option<String>,
    pub languages: Option<String>,
    pub original_size: Option<String>,
    pub repack_size: Option<String>,
}

/// A screenshot row handed to the interface layer.
#[derive(Debug, Clone)]
pub struct Screenshot {
    pub url: String,
    pub thumbnail_url: Option<String>,
}

/// A video row handed to the interface layer.
#[derive(Debug, Clone)]
pub struct Video {
    pub url: String,
}

/// Screenshots and videos of one release, together.
#[derive(Debug, Clone)]
pub struct MediaResult {
    pub screenshots: Vec<Screenshot>,
    pub videos: Vec<Video>,
}

/// Where a crawl run stopped and how much it emitted.
#[derive(Debug, Clone)]
pub struct CrawlProgress {
    pub current_page: u32,
    pub total_games: usize,
    pub status: String,
}

/// An `Option<String>` field agrees with an `Option<Seq<char>>`
/// specification.
pub open spec fn opt_str_agrees(r: Option<String>, sp: Option<Seq<char>>) -> bool {
    match r {
        Some(v) => sp == Some(v@),
        None => sp is None,
    }
}


/// Bundles resolved screenshots and video links for the interface layer,
/// one row per screenshot and per video.
pub fn media_result_of(screenshots: Vec<ScreenshotData>, videos: Vec<String>) -> (r: MediaResult)
    ensures
        r.screenshots@.len() == screenshots@.len(),
        forall|i: int|
            0 <= i < screenshots@.len() ==> (#[trigger] r.screenshots@[i]).url
                == screenshots@[i].full_url && r.screenshots@[i].thumbnail_url
                == screenshots@[i].thumbnail_url,
        r.videos@.len() == videos@.len(),
        forall|i: int| 0 <= i < videos@.len() ==> (#[trigger] r.videos@[i]).url == videos@[i],
{
    let mut shots: Vec<Screenshot> = Vec::new();
    let mut src = screenshots;
    while src.len() > 0
        invariant
            shots@.len() + src@.len() == screenshots@.len(),
            forall|i: int|
                0 <= i < shots@.len() ==> (#[trigger] shots@[i]).url == screenshots@[i].full_url
                    && shots@[i].thumbnail_url == screenshots@[i].thumbnail_url,
            forall|i: int| 0 <= i < src@.len() ==> #[trigger] src@[i] == screenshots@[
                shots@.len() + i
            ],
        decreases src@.len(),
    {
        let s = src.remove(0);
        shots.push(Screenshot { url: s.full_url, thumbnail_url: s.thumbnail_url });
    }
    let mut vids: Vec<Video> = Vec::new();
    let mut vs = videos;
    while vs.len() > 0
        invariant
            vids@.len() + vs@.len() == videos@.len(),
            forall|i: int| 0 <= i < vids@.len() ==> (#[trigger] vids@[i]).url == videos@[i],
            forall|i: int| 0 <= i < vs@.len() ==> #[trigger] vs@[i] == videos@[vids@.len() + i],
        decreases vs@.len(),
    {
        let v = vs.remove(0);
        vids.push(Video { url: v });
    }
    MediaResult { screenshots: shots, videos: vids }
}

} // verus!
