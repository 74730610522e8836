use rsky_feedgen::bootstrap::{
    Bootstrap, BootstrapAction, FieldValue, ListedObject, ListedRecord, PageResult, RecordValue,
    follows_from_records,
};
use rsky_feedgen::model::{
    CreateRequest, DeleteRequest, Embed, FeedError, Follow, FollowingPreference, PostRecord,
    Record, ReplyRef, StrongRef, SubjectRecord, UserFeedPreference, CreateUserConfigRequest,
    FollowRecord, FetchedPost, ExternalLink,
};
use rsky_feedgen::prefs::{
    DONT_SHOW_QUOTEPOSTS, DONT_SHOW_REPOSTS, HIDE_NOT_ALT_TEXT_POSTS, HIDE_SEEN_POSTS,
    NUMBER_OF_LIKES, RESET_PREF, SHOW_REPLIES_FOR_FOLLOWING_ONLY,
};
use rsky_feedgen::store::FeedStore;

const REPOST_REASON: &str = "app.bsky.feed.defs#skeletonReasonRepost";

fn s(x: &str) -> String {
    x.to_string()
}

fn edge(author: &str, subject: &str) -> Follow {
    Follow {
        uri: format!("at://{author}/app.bsky.graph.follow/{subject}"),
        cid: s("cid-follow"),
        author: s(author),
        subject: s(subject),
        created_at: s("2024-01-01T00:00:00Z"),
        indexed_at: s("2024-01-01T00:00:00Z"),
        prev: None,
        sequence: None,
    }
}

fn post_record(text: &str, reply_parent: Option<&str>, embed: Option<Embed>) -> PostRecord {
    PostRecord {
        text: s(text),
        reply: reply_parent.map(|p| ReplyRef {
            parent: StrongRef { uri: s(p), cid: s("cid-parent") },
            root: StrongRef { uri: s(p), cid: s("cid-parent") },
        }),
        langs: None,
        embed,
    }
}

fn create(uri: &str, cid: &str, author: &str, record: Record) -> CreateRequest {
    CreateRequest { uri: s(uri), cid: s(cid), author: s(author), record, prev: None, sequence: None }
}

fn add_post(st: &mut FeedStore, uri: &str, cid: &str, author: &str, at: i64, rec: PostRecord) {
    let r = st.queue_creation("posts", &vec![create(uri, cid, author, Record::Post(rec))], at);
    assert!(r.is_ok());
}

fn add_repost(st: &mut FeedStore, uri: &str, cid: &str, author: &str, at: i64, subject: &str) {
    let rec = SubjectRecord {
        subject: StrongRef { uri: s(subject), cid: s("cid-subject") },
        created_at: s("2024-01-01T00:00:00Z"),
    };
    let r = st.queue_creation("reposts", &vec![create(uri, cid, author, Record::Repost(rec))], at);
    assert!(r.is_ok());
}

fn add_like(st: &mut FeedStore, uri: &str, author: &str, subject: &str) {
    let rec = SubjectRecord {
        subject: StrongRef { uri: s(subject), cid: s("cid-subject") },
        created_at: s("2024-01-01T00:00:00Z"),
    };
    let r = st.queue_creation("likes", &vec![create(uri, "cid-like", author, Record::Like(rec))], 1);
    assert!(r.is_ok());
}

fn following(did: &str, subjects: &[&str]) -> FeedStore {
    let mut st = FeedStore::new();
    let edges: Vec<Follow> = subjects.iter().map(|x| edge(did, x)).collect();
    st.insert_follows(&edges);
    st
}

fn entries(st: &mut FeedStore, did: &str, limit: Option<i64>, cursor: Option<&str>) -> (Vec<(String, Option<String>)>, Option<String>) {
    let resp = st.get_posts_by_user_feed(&s(did), limit, cursor).unwrap();
    let feed = resp
        .feed
        .iter()
        .map(|p| {
            if let Some(r) = &p.reason {
                assert_eq!(r.reason_type, REPOST_REASON);
            }
            (p.post.clone(), p.reason.as_ref().map(|r| r.repost_uri.clone()))
        })
        .collect();
    (feed, resp.cursor)
}

#[test]
fn repost_scenario_renders_reason_and_cursor() {
    let mut st = following("D", &["A", "B"]);
    add_post(&mut st, "at://A/post/first", "cid-first", "A", 100, post_record("hello", None, None));
    add_repost(&mut st, "at://B/repost/r1", "cid-r1", "B", 200, "at://A/post/first");
    let (feed, cursor) = entries(&mut st, "D", Some(10), None);
    assert_eq!(feed[0], (s("at://A/post/first"), Some(s("at://B/repost/r1"))));
    assert_eq!(feed[1], (s("at://A/post/first"), None));
    assert_eq!(feed.len(), 2);
    assert_eq!(cursor, Some(s("100::cid-first")));

    let mut only_b = following("D", &["B"]);
    add_post(&mut only_b, "at://A/post/first", "cid-first", "A", 100, post_record("hello", None, None));
    add_repost(&mut only_b, "at://B/repost/r1", "cid-r1", "B", 200, "at://A/post/first");
    let (feed, cursor) = entries(&mut only_b, "D", Some(10), None);
    assert_eq!(feed, vec![(s("at://A/post/first"), Some(s("at://B/repost/r1")))]);
    assert_eq!(cursor, Some(s("200::cid-r1")));
}

#[test]
fn malformed_cursor_is_a_validation_error_without_side_effects() {
    let mut st = following("D", &["A"]);
    add_post(&mut st, "at://A/post/first", "cid-first", "A", 100, post_record("x", None, None));
    add_like(&mut st, "at://D/like/h", "D", HIDE_SEEN_POSTS);
    st.fetched.push(FetchedPost { did: s("D"), uri: s("at://A/post/first") });
    let r = st.get_posts_by_user_feed(&s("D"), None, Some("abc"));
    assert_eq!(r.unwrap_err(), FeedError::Validation);
    assert_eq!(st.fetched.len(), 1);
    assert_eq!(st.get_posts_by_user_feed(&s("D"), Some(-1), None).unwrap_err(), FeedError::Validation);
    assert_eq!(st.get_posts_by_user_feed(&s("D"), None, Some("1::2::3")).unwrap_err(), FeedError::Validation);
}

#[test]
fn reply_like_threshold_scenario() {
    let mut st = following("D", &["A"]);
    add_post(&mut st, "at://A/post/first", "cid-first", "A", 100, post_record("root", None, None));
    add_post(&mut st, "at://A/post/r1", "cid-r1", "A", 150, post_record("reply", Some("at://A/post/first"), None));
    st.update_user_config(UserFeedPreference {
        did: s("D"),
        show_replies: true,
        reply_filter_likes: 2,
        reply_filter_followed_only: false,
        show_reposts: true,
        show_quote_posts: true,
        hide_seen_posts: false,
        hide_no_alt_text: false,
    })
    .unwrap();
    let (feed, _) = entries(&mut st, "D", None, None);
    assert_eq!(feed, vec![(s("at://A/post/first"), None)]);
    add_like(&mut st, "at://X/like/1", "X", "at://A/post/first");
    let (feed, _) = entries(&mut st, "D", None, None);
    assert_eq!(feed.len(), 1);
    add_like(&mut st, "at://Y/like/2", "Y", "at://A/post/first");
    let (feed, _) = entries(&mut st, "D", None, None);
    assert_eq!(feed, vec![(s("at://A/post/r1"), None), (s("at://A/post/first"), None)]);
}

#[test]
fn reapplying_a_create_is_a_no_op() {
    let mut st = following("D", &["A"]);
    let batch = vec![create("at://A/post/first", "cid-first", "A", Record::Post(post_record("x", None, None)))];
    assert!(st.queue_creation("posts", &batch, 100).is_ok());
    assert!(st.queue_creation("posts", &batch, 500).is_ok());
    assert_eq!(st.posts.len(), 1);
    assert_eq!(st.posts[0].indexed_at, 100);
    let like = vec![create("at://D/like/1", "c", "D", Record::Like(SubjectRecord {
        subject: StrongRef { uri: s(DONT_SHOW_REPOSTS), cid: s("c") },
        created_at: s("t"),
    }))];
    assert!(st.queue_creation("likes", &like, 1).is_ok());
    st.preferences[0].show_reposts = true;
    assert!(st.queue_creation("likes", &like, 2).is_ok());
    assert_eq!(st.likes.len(), 1);
    assert!(st.preferences[0].show_reposts);
}

#[test]
fn next_page_is_strictly_older() {
    let mut st = following("D", &["A"]);
    for i in 0..5i64 {
        add_post(&mut st, &format!("at://A/post/{i}"), &format!("cid-{i}"), "A", 100 + i * 10, post_record("x", None, None));
    }
    let (first, cursor) = entries(&mut st, "D", Some(2), None);
    assert_eq!(first, vec![(s("at://A/post/4"), None), (s("at://A/post/3"), None)]);
    assert_eq!(cursor, Some(s("130::cid-3")));
    let (second, cursor2) = entries(&mut st, "D", Some(2), cursor.as_deref());
    assert_eq!(second, vec![(s("at://A/post/2"), None), (s("at://A/post/1"), None)]);
    assert_eq!(cursor2, Some(s("110::cid-1")));
    let (third, cursor3) = entries(&mut st, "D", Some(2), cursor2.as_deref());
    assert_eq!(third, vec![(s("at://A/post/0"), None)]);
    let (last, cursor4) = entries(&mut st, "D", Some(2), cursor3.as_deref());
    assert!(last.is_empty());
    assert_eq!(cursor4, None);
}

#[test]
fn page_is_ordered_with_content_id_tie_break() {
    let mut st = following("D", &["A", "B"]);
    add_post(&mut st, "at://A/post/x", "cid-b", "A", 100, post_record("x", None, None));
    add_post(&mut st, "at://A/post/y", "cid-c", "A", 100, post_record("y", None, None));
    add_post(&mut st, "at://A/post/z", "cid-a", "A", 100, post_record("z", None, None));
    add_repost(&mut st, "at://B/repost/1", "cid-d", "B", 100, "at://A/post/x");
    add_post(&mut st, "at://A/post/w", "cid-z", "A", 90, post_record("w", None, None));
    let rows = st.feed_rows(&s("D"), 30, None);
    let keys: Vec<(i64, String)> = rows.iter().map(|r| (r.indexed_at, r.cid.clone())).collect();
    assert_eq!(
        keys,
        vec![(100, s("cid-d")), (100, s("cid-c")), (100, s("cid-b")), (100, s("cid-a")), (90, s("cid-z"))]
    );
}

#[test]
fn missing_preferences_behave_as_defaults() {
    let mut a = following("D", &["A", "B"]);
    add_post(&mut a, "at://A/post/first", "cid-first", "A", 100, post_record("x", None, None));
    add_post(&mut a, "at://A/post/q", "cid-q", "A", 120, post_record("q", None, Some(Embed::Record(StrongRef { uri: s("at://Z/post/z"), cid: s("cz") }))));
    add_post(&mut a, "at://B/post/r", "cid-r", "B", 130, post_record("reply", Some("at://A/post/first"), None));
    add_repost(&mut a, "at://B/repost/1", "cid-rp", "B", 140, "at://A/post/first");
    let mut b = following("D", &["A", "B"]);
    add_post(&mut b, "at://A/post/first", "cid-first", "A", 100, post_record("x", None, None));
    add_post(&mut b, "at://A/post/q", "cid-q", "A", 120, post_record("q", None, Some(Embed::Record(StrongRef { uri: s("at://Z/post/z"), cid: s("cz") }))));
    add_post(&mut b, "at://B/post/r", "cid-r", "B", 130, post_record("reply", Some("at://A/post/first"), None));
    add_repost(&mut b, "at://B/repost/1", "cid-rp", "B", 140, "at://A/post/first");
    b.update_user_config(UserFeedPreference::with_defaults(s("D"))).unwrap();
    let pa = entries(&mut a, "D", None, None);
    let pb = entries(&mut b, "D", None, None);
    assert_eq!(pa, pb);
    assert_eq!(pa.0.len(), 4);
}

#[test]
fn hide_reposts_like_applies_to_next_feed() {
    let mut st = following("D", &["A", "B"]);
    add_post(&mut st, "at://A/post/first", "cid-first", "A", 100, post_record("x", None, None));
    add_repost(&mut st, "at://B/repost/1", "cid-rp", "B", 200, "at://A/post/first");
    assert_eq!(entries(&mut st, "D", None, None).0.len(), 2);
    add_like(&mut st, "at://D/like/sentinel", "D", DONT_SHOW_REPOSTS);
    assert!(!st.get_user_config(&s("D")).unwrap().show_reposts);
    let (feed, _) = entries(&mut st, "D", None, None);
    assert_eq!(feed, vec![(s("at://A/post/first"), None)]);
    assert_eq!(st.likes.len(), 1);
}

#[test]
fn graduated_posts_never_reappear() {
    let mut st = following("D", &["A"]);
    for i in 0..70i64 {
        add_post(&mut st, &format!("at://A/post/{i:03}"), &format!("cid-{i:03}"), "A", 1000 + i, post_record("x", None, None));
    }
    add_like(&mut st, "at://D/like/hide", "D", HIDE_SEEN_POSTS);
    let (page_a, c1) = entries(&mut st, "D", Some(30), None);
    assert_eq!(page_a.len(), 30);
    assert_eq!(st.get_total_fetches(&s("D")), 30);
    let (page_b, c2) = entries(&mut st, "D", Some(30), c1.as_deref());
    assert_eq!(page_b.len(), 30);
    assert_eq!(st.get_total_fetches(&s("D")), 60);
    assert_eq!(st.seen.len(), 0);
    let (_p3, _) = entries(&mut st, "D", Some(30), c2.as_deref());
    assert_eq!(st.seen.len(), 30);
    let graduated: Vec<String> = st.seen.iter().map(|x| x.uri.clone()).collect();
    assert_eq!(graduated[0], s("at://A/post/069"));
    let (fresh, _) = entries(&mut st, "D", Some(30), None);
    assert_eq!(st.get_total_fetches(&s("D")), 30);
    for (uri, _) in fresh.iter() {
        assert!(!graduated.contains(uri));
    }
    assert_eq!(fresh[0].0, s("at://A/post/039"));
}

#[test]
fn no_cursor_request_clears_window_and_limit_one_keeps_it() {
    let mut st = following("D", &["A"]);
    add_post(&mut st, "at://A/post/first", "cid-first", "A", 100, post_record("x", None, None));
    add_like(&mut st, "at://D/like/hide", "D", HIDE_SEEN_POSTS);
    entries(&mut st, "D", None, None);
    assert_eq!(st.get_total_fetches(&s("D")), 1);
    entries(&mut st, "D", Some(1), None);
    assert_eq!(st.get_total_fetches(&s("D")), 1);
    entries(&mut st, "D", None, None);
    assert_eq!(st.get_total_fetches(&s("D")), 1);
}

#[test]
fn empty_follow_graph_gives_empty_page() {
    let mut st = FeedStore::new();
    add_post(&mut st, "at://A/post/first", "cid-first", "A", 100, post_record("x", None, None));
    let (feed, cursor) = entries(&mut st, "D", None, None);
    assert!(feed.is_empty());
    assert_eq!(cursor, None);
}

#[test]
fn merged_page_over_cutoff_is_truncated_to_limit() {
    let mut st = following("D", &["A", "B"]);
    for i in 0..20i64 {
        add_post(&mut st, &format!("at://A/post/{i:02}"), &format!("cp{i:02}"), "A", 100 + i, post_record("x", None, None));
        add_repost(&mut st, &format!("at://B/repost/{i:02}"), &format!("cr{i:02}"), "B", 200 + i, "at://A/post/00");
    }
    assert_eq!(entries(&mut st, "D", Some(20), None).0.len(), 20);
    assert_eq!(entries(&mut st, "D", Some(10), None).0.len(), 20);
}

#[test]
fn filters_follow_preferences() {
    let mut st = following("D", &["A", "B"]);
    add_post(&mut st, "at://A/post/quote", "c1", "A", 100, post_record("q", None, Some(Embed::Record(StrongRef { uri: s("at://Z/p"), cid: s("cz") }))));
    add_post(&mut st, "at://A/post/img", "c2", "A", 110, post_record("i", None, Some(Embed::Images(vec![s(""), s("")]))));
    add_post(&mut st, "at://A/post/img2", "c3", "A", 120, post_record("i", None, Some(Embed::Images(vec![s(""), s("a cat")]))));
    add_post(&mut st, "at://Z/post/zroot", "c4", "Z", 50, post_record("z", None, None));
    add_post(&mut st, "at://A/post/replyz", "c5", "A", 130, post_record("r", Some("at://Z/post/zroot"), None));
    add_post(&mut st, "at://A/post/replyb", "c6", "A", 140, post_record("r", Some("at://B/post/broot"), None));
    add_post(&mut st, "at://B/post/broot", "c7", "B", 60, post_record("b", None, None));
    add_post(&mut st, "at://C/post/other", "c8", "C", 150, post_record("c", None, None));
    assert_eq!(entries(&mut st, "D", None, None).0.len(), 6);
    add_like(&mut st, "at://D/like/1", "D", DONT_SHOW_QUOTEPOSTS);
    add_like(&mut st, "at://D/like/2", "D", HIDE_NOT_ALT_TEXT_POSTS);
    add_like(&mut st, "at://D/like/3", "D", SHOW_REPLIES_FOR_FOLLOWING_ONLY);
    let (feed, _) = entries(&mut st, "D", None, None);
    let uris: Vec<String> = feed.into_iter().map(|x| x.0).collect();
    assert_eq!(uris, vec![s("at://A/post/replyb"), s("at://A/post/img2"), s("at://B/post/broot")]);
    add_like(&mut st, "at://D/like/4", "D", RESET_PREF);
    assert!(st.get_user_config(&s("D")).is_none());
    assert_eq!(entries(&mut st, "D", None, None).0.len(), 6);
}

#[test]
fn following_preference_hides_one_accounts_reposts() {
    let mut st = following("D", &["A", "B", "C"]);
    add_post(&mut st, "at://A/post/first", "cid-first", "A", 100, post_record("x", None, None));
    add_repost(&mut st, "at://B/repost/1", "cid-rb", "B", 200, "at://A/post/first");
    add_repost(&mut st, "at://C/repost/1", "cid-rc", "C", 210, "at://A/post/first");
    st.following_pref_update(FollowingPreference { author: s("D"), did: s("B"), show_reposts: false, show_quote_posts: true });
    let (feed, _) = entries(&mut st, "D", None, None);
    assert_eq!(feed, vec![(s("at://A/post/first"), Some(s("at://C/repost/1"))), (s("at://A/post/first"), None)]);
    assert_eq!(st.following_pref_fetch(&s("D")).len(), 1);
    st.following_pref_update(FollowingPreference { author: s("D"), did: s("B"), show_reposts: true, show_quote_posts: true });
    assert_eq!(st.following_pref_fetch(&s("D")).len(), 1);
    assert_eq!(entries(&mut st, "D", None, None).0.len(), 3);
}

#[test]
fn media_feed_lists_followed_media_posts() {
    let mut st = following("D", &["A"]);
    add_post(&mut st, "at://A/post/img", "c1", "A", 100, post_record("i", None, Some(Embed::Images(vec![s("alt")]))));
    add_post(&mut st, "at://A/post/vid", "c2", "A", 110, post_record("v", None, Some(Embed::Video(None))));
    add_post(&mut st, "at://A/post/text", "c3", "A", 120, post_record("t", None, None));
    add_post(&mut st, "at://B/post/img", "c4", "B", 130, post_record("i", None, Some(Embed::Images(vec![]))));
    let resp = st.get_posts_by_following_media(&s("D"), None, None).unwrap();
    let uris: Vec<String> = resp.feed.iter().map(|p| p.post.clone()).collect();
    assert_eq!(uris, vec![s("at://A/post/vid"), s("at://A/post/img")]);
    assert_eq!(resp.cursor, Some(s("100::c1")));
    let resp = st.get_posts_by_following_media(&s("D"), None, Some("110::c2")).unwrap();
    assert_eq!(resp.feed.len(), 1);
    assert!(st.get_posts_by_following_media(&s("D"), None, Some("bad")).is_err());
}

#[test]
fn post_fields_are_decoded() {
    let mut st = FeedStore::new();
    let mut rec = post_record("hi", Some("at://P/post/parent"), Some(Embed::Images(vec![s(""), s("first"), s("second")])));
    rec.langs = Some(vec![s("en"), s("de"), s("fr")]);
    add_post(&mut st, "at://A/post/1", "c1", "A", 5, rec);
    let p = &st.posts[0];
    assert_eq!(p.alt, Some(s("first")));
    assert!(p.media);
    assert_eq!(p.lang, Some(s("en,de,fr")));
    assert_eq!(p.reply_parent, Some(s("at://P/post/parent")));
    assert_eq!(p.text, Some(s("hi")));
    assert_eq!(p.indexed_at, 5);
    let ext = Embed::External(ExternalLink { uri: s("https://x"), title: s("T"), description: s("D"), thumb: Some(s("thumbcid")) });
    add_post(&mut st, "at://A/post/2", "c2", "A", 6, post_record("e", None, Some(ext)));
    assert_eq!(st.posts[1].external_title, Some(s("T")));
    assert_eq!(st.posts[1].external_thumb, Some(s("thumbcid")));
    assert!(!st.posts[1].media);
    add_post(&mut st, "at://A/post/3", "c3", "A", 7, post_record("v", None, Some(Embed::Video(Some(s("clip"))))));
    assert_eq!(st.posts[2].alt, Some(s("clip")));
    add_post(&mut st, "at://A/post/4", "c4", "A", 8, post_record("q", None, Some(Embed::Record(StrongRef { uri: s("at://Q"), cid: s("qc") }))));
    assert_eq!(st.posts[3].quote_uri, Some(s("at://Q")));
    assert_eq!(st.posts[3].quote_cid, Some(s("qc")));
}

#[test]
fn like_threshold_command_post() {
    let mut st = FeedStore::new();
    add_post(&mut st, "at://D/post/1", "c1", "D", 1, post_record("7", Some(NUMBER_OF_LIKES), None));
    assert_eq!(st.get_user_config(&s("D")).unwrap().reply_filter_likes, 7);
    add_post(&mut st, "at://D/post/2", "c2", "D", 2, post_record("lots", Some(NUMBER_OF_LIKES), None));
    assert_eq!(st.get_user_config(&s("D")).unwrap().reply_filter_likes, 7);
    add_post(&mut st, "at://D/post/3", "c3", "D", 3, post_record("-3", Some(NUMBER_OF_LIKES), None));
    assert_eq!(st.get_user_config(&s("D")).unwrap().reply_filter_likes, 7);
    add_post(&mut st, "at://E/post/1", "c4", "E", 4, post_record("nope", Some(NUMBER_OF_LIKES), None));
    assert!(st.get_user_config(&s("E")).is_none());
    assert_eq!(st.posts.len(), 4);
}

#[test]
fn unknown_collection_is_rejected() {
    let mut st = FeedStore::new();
    let batch = vec![create("at://A/post/1", "c", "A", Record::Post(post_record("x", None, None)))];
    assert_eq!(st.queue_creation("blocks", &batch, 1), Err(FeedError::Validation));
    assert_eq!(st.posts.len(), 0);
    assert_eq!(st.queue_deletion("blocks", &vec![DeleteRequest { uri: s("x") }]), Err(FeedError::Validation));
}

#[test]
fn deletes_remove_rows_and_ignore_unknown_uris() {
    let mut st = following("D", &["A"]);
    add_post(&mut st, "at://A/post/1", "c1", "A", 1, post_record("x", None, None));
    add_post(&mut st, "at://A/post/2", "c2", "A", 2, post_record("y", None, None));
    assert!(st.queue_deletion("posts", &vec![DeleteRequest { uri: s("at://A/post/1") }, DeleteRequest { uri: s("at://nope") }]).is_ok());
    assert_eq!(st.posts.len(), 1);
    assert_eq!(st.posts[0].uri, "at://A/post/2");
    assert!(st.queue_deletion("follows", &vec![DeleteRequest { uri: edge("D", "A").uri }]).is_ok());
    assert_eq!(st.follows.len(), 0);
}

#[test]
fn follows_ingested_only_after_bootstrap() {
    let mut st = FeedStore::new();
    let f = |uri: &str, author: &str, subject: &str| {
        create(uri, "cf", author, Record::Follow(FollowRecord { subject: s(subject), created_at: s("2024-05-01T00:00:00Z") }))
    };
    st.queue_creation("follows", &vec![f("at://D/follow/1", "D", "A")], 1).unwrap();
    assert_eq!(st.follows.len(), 0);
    st.insert_follows(&vec![edge("D", "B")]);
    st.queue_creation("follows", &vec![f("at://D/follow/1", "D", "A"), f("at://D/follow/1", "D", "A")], 1).unwrap();
    assert_eq!(st.follows.len(), 2);
    assert_eq!(st.get_saved_follows(&s("D")), vec![s("B"), s("A")]);
    st.insert_follows(&vec![edge("D", "B")]);
    assert_eq!(st.follows.len(), 2);
}

#[test]
fn stream_cursor_state() {
    let mut st = FeedStore::new();
    assert_eq!(st.get_cursor(&s("firehose")).unwrap_err(), FeedError::NotFound);
    st.update_cursor(s("firehose"), 10);
    st.update_cursor(s("firehose"), 42);
    st.update_cursor(s("other"), 7);
    assert_eq!(st.get_cursor(&s("firehose")).unwrap().cursor, 42);
    assert_eq!(st.get_cursor(&s("other")).unwrap().cursor, 7);
    assert_eq!(st.cursors.len(), 2);
}

#[test]
fn user_config_writes() {
    let mut st = FeedStore::new();
    let req = CreateUserConfigRequest {
        did: s("D"),
        show_replies: false,
        reply_filter_likes: 3,
        reply_filter_followed_only: true,
        show_reposts: false,
        show_quote_posts: false,
    };
    st.user_config_creation(&req).unwrap();
    let p = st.get_user_config(&s("D")).unwrap();
    assert!(!p.show_replies && p.reply_filter_followed_only && !p.show_reposts);
    assert_eq!(p.reply_filter_likes, 3);
    let bad = CreateUserConfigRequest { reply_filter_likes: -1, ..req.clone() };
    assert_eq!(st.user_config_creation(&bad), Err(FeedError::Validation));
    let mut q = UserFeedPreference::with_defaults(s("D"));
    q.reply_filter_likes = -2;
    assert_eq!(st.update_user_config(q), Err(FeedError::Validation));
    assert_eq!(st.preferences.len(), 1);
}

fn listed(uri: &str, type_tag: Option<&str>, subject: Option<&str>, created: Option<&str>) -> ListedRecord {
    ListedRecord {
        uri: s(uri),
        cid: s("cid-listed"),
        value: RecordValue::Object(ListedObject {
            type_tag: type_tag.map(|t| FieldValue::Text(s(t))),
            subject: subject.map(|t| FieldValue::Text(s(t))),
            created_at: created.map(|t| FieldValue::Text(s(t))),
        }),
    }
}

#[test]
fn bootstrap_pages_until_no_cursor_or_failure() {
    let mut b = Bootstrap::new(s("D"));
    assert!(matches!(b.next_action(), BootstrapAction::FetchPage(None)));
    b.on_page(PageResult::Page {
        records: vec![listed("at://D/f/1", Some("app.bsky.graph.follow"), Some("A"), Some("2024"))],
        cursor: Some(s("next")),
    });
    match b.next_action() {
        BootstrapAction::FetchPage(Some(c)) => assert_eq!(c, "next"),
        _ => panic!("expected a second page"),
    }
    b.on_page(PageResult::Page {
        records: vec![
            listed("at://D/f/2", Some("app.bsky.graph.follow"), Some("B"), Some("2025")),
            ListedRecord { uri: s("at://D/x"), cid: s("c"), value: RecordValue::Null },
            listed("at://D/f/3", Some("app.bsky.feed.like"), None, None),
        ],
        cursor: Some(s("more")),
    });
    b.on_page(PageResult::Failed);
    assert!(matches!(b.next_action(), BootstrapAction::Finish));
    let edges = b.finish().unwrap();
    assert_eq!(edges.len(), 2);
    assert_eq!(edges[1].subject, "B");
    assert_eq!(edges[1].author, "D");
    assert_eq!(edges[1].indexed_at, "2025");
    let mut st = FeedStore::new();
    st.insert_follows(&edges);
    assert!(st.user_follows_indexed(&s("D")));
}

#[test]
fn bootstrap_rejects_follow_without_subject() {
    let recs = vec![
        listed("at://D/f/1", Some("app.bsky.graph.follow"), Some("A"), Some("2024")),
        listed("at://D/f/2", Some("app.bsky.graph.follow"), None, Some("2024")),
    ];
    assert_eq!(follows_from_records(&s("D"), &recs).unwrap_err(), FeedError::Decode);
    let other = ListedRecord {
        uri: s("u"),
        cid: s("c"),
        value: RecordValue::Object(ListedObject { type_tag: Some(FieldValue::Other), subject: None, created_at: None }),
    };
    assert_eq!(follows_from_records(&s("D"), &vec![other]).unwrap().len(), 0);
}
