//! The site-crawler registry: sites register a descriptor of themselves,
//! and callers look crawlers up by identifier or list the enabled ones.
//! New repack sites plug in by implementing [`SiteCrawler`].

use vstd::prelude::*;
use crate::crawl::FitGirlCrawler;

verus! {

/// What a site crawler says about itself.
pub trait SiteCrawler {
    /// Unique identifier of the site.
    fn site_id(&self) -> String;

    /// Display name of the site.
    fn site_name(&self) -> String;

    /// Base URL of the site.
    fn base_url(&self) -> String;

    /// Whether the site takes part in crawls.
    fn is_enabled(&self) -> bool;
}

impl SiteCrawler for FitGirlCrawler {
    fn site_id(&self) -> String {
        "fitgirl".to_owned()
    }

    fn site_name(&self) -> String {
        "FitGirl Repacks".to_owned()
    }

    fn base_url(&self) -> String {
        let v = crate::text::chars_of(self.base_url.as_str());
        crate::text::string_from_chars(&v)
    }

    fn is_enabled(&self) -> bool {
        true
    }
}

/// One registered site.
#[derive(Debug, Clone)]
pub struct SiteEntry {
    pub site_id: String,
    pub site_name: String,
    pub base_url: String,
    pub enabled: bool,
}

/// The registered sites, in registration order.
pub struct CrawlerRegistry {
    pub entries: Vec<SiteEntry>,
}

/// The first entry whose identifier is `id`.
pub open spec fn spec_find_entry(es: Seq<SiteEntry>, id: Seq<char>, i: int) -> Option<int>
    decreases es.len() - i + 1,
{
    if i < 0 || i >= es.len() {
        None
    } else if es[i].site_id@ == id {
        Some(i)
    } else {
        spec_find_entry(es, id, i + 1)
    }
}

impl CrawlerRegistry {
    /// An empty registry.
    pub fn new() -> (r: CrawlerRegistry)
        ensures
            r.entries@.len() == 0,
    {
        CrawlerRegistry { entries: Vec::new() }
    }

    /// Registers a site by its descriptor.
    pub fn register_entry(&mut self, entry: SiteEntry)
        ensures
            final(self).entries@ == old(self).entries@.push(entry),
    {
        self.entries.push(entry);
    }

    /// Registers a site crawler, recording what it says about itself.
    pub fn register<C: SiteCrawler>(&mut self, crawler: &C)
        ensures
            final(self).entries@.len() == old(self).entries@.len() + 1,
            forall|i: int|
                0 <= i < old(self).entries@.len() ==> final(self).entries@[i] == old(
                    self,
                ).entries@[i],
    {
        let entry = SiteEntry {
            site_id: crawler.site_id(),
            site_name: crawler.site_name(),
            base_url: crawler.base_url(),
            enabled: crawler.is_enabled(),
        };
        self.entries.push(entry);
    }

    /// The positions of the enabled sites, in order.
    pub fn get_enabled_crawlers(&self) -> (r: Vec<usize>)
        ensures
            forall|k: int|
                0 <= k < r@.len() ==> (#[trigger] r@[k]) < self.entries@.len()
                    && self.entries@[r@[k] as int].enabled,
            forall|i: int|
                0 <= i < self.entries@.len() && (#[trigger] self.entries@[i]).enabled ==> r@.contains(
                    i as usize,
                ),
    {
        let mut r: Vec<usize> = Vec::new();
        let mut i: usize = 0;
        while i < self.entries.len()
            invariant
                i <= self.entries@.len(),
                forall|k: int|
                    0 <= k < r@.len() ==> (#[trigger] r@[k]) < self.entries@.len()
                        && self.entries@[r@[k] as int].enabled,
                forall|j: int|
                    0 <= j < i && (#[trigger] self.entries@[j]).enabled ==> r@.contains(j as usize),
            decreases self.entries@.len() - i,
        {
            if self.entries[i].enabled {
                let ghost r0 = r@;
                r.push(i);
                proof {
                    assert(r@[r@.len() - 1] == i);
                    assert forall|j: int|
                        0 <= j < i + 1 && (#[trigger] self.entries@[j]).enabled implies r@.contains(
                        j as usize,
                    ) by {
                        if j < i {
                            assert(r0.contains(j as usize));
                            let w = choose|w: int| 0 <= w < r0.len() && r0[w] == j as usize;
                            assert(r@[w] == j as usize);
                        }
                    }
                }
            }
            i += 1;
        }
        r
    }

    /// The position of the site registered under `site_id`, if any.
    pub fn get_crawler(&self, site_id: &str) -> (r: Option<usize>)
        ensures
            match r {
                Some(i) => i < self.entries@.len() && spec_find_entry(self.entries@, site_id@, 0)
                    == Some(i as int),
                None => spec_find_entry(self.entries@, site_id@, 0) is None,
            },
    {
        let mut i: usize = 0;
        while i < self.entries.len()
            invariant
                i <= self.entries@.len(),
                spec_find_entry(self.entries@, site_id@, 0) == spec_find_entry(
                    self.entries@,
                    site_id@,
                    i as int,
                ),
            decreases self.entries@.len() - i,
        {
            if crate::text::vec_eq_str(&crate::text::chars_of(self.entries[i].site_id.as_str()),
                site_id) {
                proof {
                    assert(self.entries@[i as int].site_id@ == site_id@);
                }
                return Some(i);
            }
            i += 1;
        }
        None
    }
}

/// A registry holding every available site: today the catalog crawler.
pub fn create_crawler_registry() -> (r: Result<CrawlerRegistry, ()>)
    ensures
        r matches Ok(reg) ==> reg.entries@.len() == 1 && reg.entries@[0].enabled,
        r is Ok,
{
    let mut registry = CrawlerRegistry::new();
    let fitgirl = match FitGirlCrawler::new() {
        Ok(c) => c,
        Err(_) => {
            return Err(());
        },
    };
    registry.register_entry(
        SiteEntry {
            site_id: "fitgirl".to_owned(),
            site_name: "FitGirl Repacks".to_owned(),
            base_url: fitgirl.base_url,
            enabled: true,
        },
    );
    Ok(registry)
}

} // verus!
