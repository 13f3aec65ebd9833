//! The typed feed item schema: common fields plus a per-site payload.

pub mod feed_item;

use vstd::prelude::*;

verus! {

/// A crawled feed item with its typed per-site payload.
#[derive(Debug)]
pub struct FeedItem {
    pub id: String,
    pub title: String,
    pub url: String,
    pub preview: String,
    pub site_data: Option<feed_item::SiteData>,
}

/// Hacker News payload.
#[derive(Debug)]
pub struct HackerNewsData {
    pub score: i32,
    pub comments: i32,
    pub age: String,
    pub site_url: String,
}

/// Reddit payload.
#[derive(Debug)]
pub struct RedditData {
    pub subreddit: String,
    pub upvotes: i32,
    pub comments: i32,
    pub author: String,
}

/// 1point3acres payload.
#[derive(Debug)]
pub struct OnePoint3AcresData {
    pub forum: String,
    pub author: String,
    pub post_content: String,
}

/// Zhihu payload.
#[derive(Debug)]
pub struct ZhihuData {
    pub upvotes: i32,
    pub answers: i32,
    pub author: String,
    pub topic: String,
}

/// Xueqiu payload.
#[derive(Debug)]
pub struct XueqiuData {
    pub author: String,
    pub replies: i32,
    pub likes: i32,
    pub symbol: String,
}

/// LinkedIn payload.
#[derive(Debug)]
pub struct LinkedInData {
    pub author: String,
    pub likes: i32,
    pub comments: i32,
    pub company: String,
}

/// X payload.
#[derive(Debug)]
pub struct XData {
    pub author: String,
    pub likes: i32,
    pub retweets: i32,
    pub replies: i32,
    pub datetime: String,
}

/// All items of one site found in one crawl.
#[derive(Debug, Clone)]
pub struct CrawlSnapshot {
    pub site: String,
    pub crawled_at: String,
    pub items: Vec<FeedItem>,
}

impl Clone for FeedItem {
    fn clone(&self) -> (r: Self)
        ensures
            r == *self,
    {
        let site_data = match &self.site_data {
            Some(d) => Some(d.clone()),
            None => None,
        };
        FeedItem {
            id: self.id.clone(),
            title: self.title.clone(),
            url: self.url.clone(),
            preview: self.preview.clone(),
            site_data,
        }
    }
}

impl Clone for HackerNewsData {
    fn clone(&self) -> (r: Self)
        ensures
            r == *self,
    {
        HackerNewsData {
            score: self.score,
            comments: self.comments,
            age: self.age.clone(),
            site_url: self.site_url.clone(),
        }
    }
}

impl Clone for RedditData {
    fn clone(&self) -> (r: Self)
        ensures
            r == *self,
    {
        RedditData {
            subreddit: self.subreddit.clone(),
            upvotes: self.upvotes,
            comments: self.comments,
            author: self.author.clone(),
        }
    }
}

impl Clone for OnePoint3AcresData {
    fn clone(&self) -> (r: Self)
        ensures
            r == *self,
    {
        OnePoint3AcresData {
            forum: self.forum.clone(),
            author: self.author.clone(),
            post_content: self.post_content.clone(),
        }
    }
}

impl Clone for ZhihuData {
    fn clone(&self) -> (r: Self)
        ensures
            r == *self,
    {
        ZhihuData {
            upvotes: self.upvotes,
            answers: self.answers,
            author: self.author.clone(),
            topic: self.topic.clone(),
        }
    }
}

impl Clone for XueqiuData {
    fn clone(&self) -> (r: Self)
        ensures
            r == *self,
    {
        XueqiuData {
            author: self.author.clone(),
            replies: self.replies,
            likes: self.likes,
            symbol: self.symbol.clone(),
        }
    }
}

impl Clone for LinkedInData {
    fn clone(&self) -> (r: Self)
        ensures
            r == *self,
    {
        LinkedInData {
            author: self.author.clone(),
            likes: self.likes,
            comments: self.comments,
            company: self.company.clone(),
        }
    }
}

impl Clone for XData {
    fn clone(&self) -> (r: Self)
        ensures
            r == *self,
    {
        XData {
            author: self.author.clone(),
            likes: self.likes,
            retweets: self.retweets,
            replies: self.replies,
            datetime: self.datetime.clone(),
        }
    }
}

} // verus!
