//! The per-site payload of a feed item.

use vstd::prelude::*;
use super::{
    HackerNewsData, LinkedInData, OnePoint3AcresData, RedditData, XData, XueqiuData, ZhihuData,
};

verus! {

/// Exactly one per-site payload.
#[derive(Debug)]
pub enum SiteData {
    Hackernews(HackerNewsData),
    Reddit(RedditData),
    OnePoint3Acres(OnePoint3AcresData),
    Zhihu(ZhihuData),
    Xueqiu(XueqiuData),
    Linkedin(LinkedInData),
    X(XData),
}

impl Clone for SiteData {
    fn clone(&self) -> (r: Self)
        ensures
            r == *self,
    {
        match self {
            SiteData::Hackernews(d) => SiteData::Hackernews(d.clone()),
            SiteData::Reddit(d) => SiteData::Reddit(d.clone()),
            SiteData::OnePoint3Acres(d) => SiteData::OnePoint3Acres(d.clone()),
            SiteData::Zhihu(d) => SiteData::Zhihu(d.clone()),
            SiteData::Xueqiu(d) => SiteData::Xueqiu(d.clone()),
            SiteData::Linkedin(d) => SiteData::Linkedin(d.clone()),
            SiteData::X(d) => SiteData::X(d.clone()),
        }
    }
}

} // verus!
