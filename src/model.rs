//! Stored rows and the records that ingestion receives.
use vstd::prelude::*;

use crate::order::opt_view;

verus! {

/// "`author` follows `subject`."
#[derive(Clone, Debug, Default)]
pub struct Follow {
    pub uri: String,
    pub cid: String,
    pub author: String,
    pub subject: String,
    pub created_at: String,
    pub indexed_at: String,
    pub prev: Option<String>,
    pub sequence: Option<i64>,
}

/// A stored post. `indexed_at` is in milliseconds since the epoch.
#[derive(Clone, Debug)]
pub struct Post {
    pub uri: String,
    pub cid: String,
    pub reply_parent: Option<String>,
    pub reply_root: Option<String>,
    pub indexed_at: i64,
    pub prev: Option<String>,
    pub sequence: Option<i64>,
    pub text: Option<String>,
    pub lang: Option<String>,
    pub author: String,
    pub external_uri: Option<String>,
    pub external_title: Option<String>,
    pub external_description: Option<String>,
    pub external_thumb: Option<String>,
    pub quote_cid: Option<String>,
    pub quote_uri: Option<String>,
    pub media: bool,
    pub alt: Option<String>,
}

pub struct PostView {
    pub uri: Seq<char>,
    pub cid: Seq<char>,
    pub reply_parent: Option<Seq<char>>,
    pub reply_root: Option<Seq<char>>,
    pub indexed_at: i64,
    pub prev: Option<Seq<char>>,
    pub sequence: Option<i64>,
    pub text: Option<Seq<char>>,
    pub lang: Option<Seq<char>>,
    pub author: Seq<char>,
    pub external_uri: Option<Seq<char>>,
    pub external_title: Option<Seq<char>>,
    pub external_description: Option<Seq<char>>,
    pub external_thumb: Option<Seq<char>>,
    pub quote_cid: Option<Seq<char>>,
    pub quote_uri: Option<Seq<char>>,
    pub media: bool,
    pub alt: Option<Seq<char>>,
}

impl View for Post {
    type V = PostView;

    open spec fn view(&self) -> PostView {
        PostView {
            uri: self.uri@,
            cid: self.cid@,
            reply_parent: opt_view(self.reply_parent),
            reply_root: opt_view(self.reply_root),
            indexed_at: self.indexed_at,
            prev: opt_view(self.prev),
            sequence: self.sequence,
            text: opt_view(self.text),
            lang: opt_view(self.lang),
            author: self.author@,
            external_uri: opt_view(self.external_uri),
            external_title: opt_view(self.external_title),
            external_description: opt_view(self.external_description),
            external_thumb: opt_view(self.external_thumb),
            quote_cid: opt_view(self.quote_cid),
            quote_uri: opt_view(self.quote_uri),
            media: self.media,
            alt: opt_view(self.alt),
        }
    }
}

/// A stored repost of `subject_uri`. `indexed_at` is in milliseconds since the epoch.
#[derive(Clone, Debug)]
pub struct Repost {
    pub uri: String,
    pub cid: String,
    pub author: String,
    pub subject_uri: String,
    pub subject_cid: String,
    pub created_at: String,
    pub indexed_at: i64,
    pub prev: Option<String>,
    pub sequence: Option<i64>,
}

/// A stored like of `subject_uri`. `indexed_at` is in milliseconds since the epoch.
#[derive(Clone, Debug)]
pub struct Like {
    pub uri: String,
    pub cid: String,
    pub author: String,
    pub subject_uri: String,
    pub subject_cid: String,
    pub created_at: String,
    pub indexed_at: i64,
    pub prev: Option<String>,
    pub sequence: Option<i64>,
}

/// An account's feed preferences.
#[derive(Clone, Debug, Default)]
pub struct UserFeedPreference {
    pub did: String,
    pub show_replies: bool,
    pub reply_filter_likes: i32,
    pub reply_filter_followed_only: bool,
    pub show_reposts: bool,
    pub show_quote_posts: bool,
    pub hide_seen_posts: bool,
    pub hide_no_alt_text: bool,
}

/// The preference fields of an account, without the account.
#[derive(Clone, Copy, Debug, PartialEq, Eq, Structural)]
pub struct FeedSettings {
    pub show_replies: bool,
    pub reply_filter_likes: i32,
    pub reply_filter_followed_only: bool,
    pub show_reposts: bool,
    pub show_quote_posts: bool,
    pub hide_seen_posts: bool,
    pub hide_no_alt_text: bool,
}

pub open spec fn default_settings() -> FeedSettings {
    FeedSettings {
        show_replies: true,
        reply_filter_likes: 0,
        reply_filter_followed_only: false,
        show_reposts: true,
        show_quote_posts: true,
        hide_seen_posts: false,
        hide_no_alt_text: false,
    }
}

impl FeedSettings {
    /// What an account without a preference row gets.
    pub fn defaults() -> (r: FeedSettings)
        ensures
            r == default_settings(),
    {
        FeedSettings {
            show_replies: true,
            reply_filter_likes: 0,
            reply_filter_followed_only: false,
            show_reposts: true,
            show_quote_posts: true,
            hide_seen_posts: false,
            hide_no_alt_text: false,
        }
    }
}

impl UserFeedPreference {
    pub open spec fn settings_spec(&self) -> FeedSettings {
        FeedSettings {
            show_replies: self.show_replies,
            reply_filter_likes: self.reply_filter_likes,
            reply_filter_followed_only: self.reply_filter_followed_only,
            show_reposts: self.show_reposts,
            show_quote_posts: self.show_quote_posts,
            hide_seen_posts: self.hide_seen_posts,
            hide_no_alt_text: self.hide_no_alt_text,
        }
    }

    /// The preference fields of this row.
    pub fn settings(&self) -> (r: FeedSettings)
        ensures
            r == self.settings_spec(),
    {
        FeedSettings {
            show_replies: self.show_replies,
            reply_filter_likes: self.reply_filter_likes,
            reply_filter_followed_only: self.reply_filter_followed_only,
            show_reposts: self.show_reposts,
            show_quote_posts: self.show_quote_posts,
            hide_seen_posts: self.hide_seen_posts,
            hide_no_alt_text: self.hide_no_alt_text,
        }
    }

    pub open spec fn with_defaults_spec(did: String) -> UserFeedPreference {
        UserFeedPreference {
            did,
            show_replies: true,
            reply_filter_likes: 0,
            reply_filter_followed_only: false,
            show_reposts: true,
            show_quote_posts: true,
            hide_seen_posts: false,
            hide_no_alt_text: false,
        }
    }

    /// The row an account gets when its preferences are first written.
    pub fn with_defaults(did: String) -> (r: UserFeedPreference)
        ensures
            r == Self::with_defaults_spec(did),
    {
        UserFeedPreference {
            did,
            show_replies: true,
            reply_filter_likes: 0,
            reply_filter_followed_only: false,
            show_reposts: true,
            show_quote_posts: true,
            hide_seen_posts: false,
            hide_no_alt_text: false,
        }
    }
}

/// The request body that writes an account's preferences.
#[derive(Clone, Debug)]
pub struct CreateUserConfigRequest {
    pub did: String,
    pub show_replies: bool,
    pub reply_filter_likes: i64,
    pub reply_filter_followed_only: bool,
    pub show_reposts: bool,
    pub show_quote_posts: bool,
}

/// An override that `author` set for one account it follows, `did`.
#[derive(Clone, Debug, Default)]
pub struct FollowingPreference {
    pub author: String,
    pub did: String,
    pub show_reposts: bool,
    pub show_quote_posts: bool,
}

/// A content uri delivered to `did` in its current window of pages.
#[derive(Clone, Debug, Default)]
pub struct FetchedPost {
    pub did: String,
    pub uri: String,
}

/// A content uri that `did` has seen and is no longer shown.
#[derive(Clone, Debug, Default)]
pub struct SeenPost {
    pub did: String,
    pub uri: String,
}

/// The last event-stream position processed for a service.
#[derive(Clone, Debug)]
pub struct CursorUpdateState {
    pub service: String,
    pub cursor: i64,
}

/// One entry of a rendered feed page.
#[derive(Clone, Debug, Default)]
pub struct PostResult {
    pub post: String,
    pub reason: Option<PostResultReason>,
}

/// Why an entry is in the feed: it was reposted, by `repost_uri`.
#[derive(Clone, Debug, Default)]
pub struct PostResultReason {
    pub reason_type: String,
    pub repost_uri: String,
}

/// A rendered feed page and the cursor for the next one.
#[derive(Clone, Debug)]
pub struct AlgoResponse {
    pub cursor: Option<String>,
    pub feed: Vec<PostResult>,
}

/// How a request fails.
#[derive(Clone, Copy, Debug, PartialEq, Eq, Structural)]
pub enum FeedError {
    /// A malformed cursor, limit or collection name.
    Validation,
    /// No cursor state is recorded for the service.
    NotFound,
    /// A listed follow record of the expected type lacks a required field.
    Decode,
}

/// A reference to a record by uri and content identifier.
#[derive(Clone, Debug)]
pub struct StrongRef {
    pub uri: String,
    pub cid: String,
}

#[derive(Clone, Debug)]
pub struct ReplyRef {
    pub parent: StrongRef,
    pub root: StrongRef,
}

#[derive(Clone, Debug)]
pub struct ExternalLink {
    pub uri: String,
    pub title: String,
    pub description: String,
    pub thumb: Option<String>,
}

/// What a post embeds.
#[derive(Clone, Debug)]
pub enum Embed {
    /// Images, by their alt texts.
    Images(Vec<String>),
    /// A video and its own alt text.
    Video(Option<String>),
    RecordWithMedia,
    External(ExternalLink),
    Record(StrongRef),
}

#[derive(Clone, Debug)]
pub struct PostRecord {
    pub text: String,
    pub reply: Option<ReplyRef>,
    pub langs: Option<Vec<String>>,
    pub embed: Option<Embed>,
}

/// A repost or a like: what it points at and when it was made.
#[derive(Clone, Debug)]
pub struct SubjectRecord {
    pub subject: StrongRef,
    pub created_at: String,
}

#[derive(Clone, Debug)]
pub struct FollowRecord {
    pub subject: String,
    pub created_at: String,
}

/// The record of a create event.
#[derive(Clone, Debug)]
pub enum Record {
    Post(PostRecord),
    Repost(SubjectRecord),
    Like(SubjectRecord),
    Follow(FollowRecord),
    Other,
}

/// A create event from the event source.
#[derive(Clone, Debug)]
pub struct CreateRequest {
    pub uri: String,
    pub cid: String,
    pub author: String,
    pub record: Record,
    pub prev: Option<String>,
    pub sequence: Option<i64>,
}

/// A delete event from the event source.
#[derive(Clone, Debug)]
pub struct DeleteRequest {
    pub uri: String,
}

/// The four kinds of content that events are partitioned by.
#[derive(Clone, Copy, Debug, PartialEq, Eq, Structural)]
pub enum Collection {
    Posts,
    Reposts,
    Likes,
    Follows,
}

} // verus!
