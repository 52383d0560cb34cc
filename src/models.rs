//! The records that the forum's HTTP interface hands back, as plain data.

use vstd::prelude::*;

verus! {

/// The forum software's version and the commit it was built from.
#[derive(Clone, Debug)]
pub struct VersionInfo {
    pub version: Option<String>,
    pub commit: Option<String>,
}

/// The site description.
#[derive(Debug)]
pub struct SiteResponse {
    pub site: SiteInfo,
}

/// Site metadata.
#[derive(Debug)]
pub struct SiteInfo {
    pub title: String,
}

/// The about page.
#[derive(Debug)]
pub struct AboutResponse {
    pub about: AboutInfo,
}

/// About metadata.
#[derive(Debug)]
pub struct AboutInfo {
    pub version: Option<String>,
    pub installed_version: Option<String>,
}

/// A topic with its posts.
#[derive(Debug)]
pub struct TopicResponse {
    pub title: Option<String>,
    pub slug: Option<String>,
    pub post_stream: PostStream,
}

/// The posts of a topic.
#[derive(Debug)]
pub struct PostStream {
    pub posts: Vec<Post>,
}

/// One post of a topic.
#[derive(Debug)]
pub struct Post {
    pub id: u64,
    pub raw: Option<String>,
    pub updated_at: Option<String>,
    pub created_at: Option<String>,
}

/// A custom emoji and where its image lives.
#[derive(Clone, Debug)]
pub struct CustomEmoji {
    pub name: String,
    pub url: String,
}

/// The topics of a category.
#[derive(Debug)]
pub struct TopicList {
    pub topics: Vec<TopicSummary>,
}

/// A topic's identity.
#[derive(Clone, Debug)]
pub struct TopicSummary {
    pub id: u64,
    pub title: String,
    pub slug: String,
}

/// A group's identity.
#[derive(Clone, Debug)]
pub struct GroupSummary {
    pub id: u64,
    pub name: String,
    pub full_name: Option<String>,
}

/// The list of groups.
#[derive(Debug)]
pub struct GroupsResponse {
    pub groups: Vec<GroupSummary>,
}

/// One group in detail.
#[derive(Debug)]
pub struct GroupDetailResponse {
    pub group: GroupDetail,
}

/// A group's settings, as copied from one forum to another.
#[derive(Clone, Debug)]
pub struct GroupDetail {
    pub id: u64,
    pub name: String,
    pub full_name: Option<String>,
    pub title: Option<String>,
    pub grant_trust_level: Option<u64>,
    pub visibility_level: Option<u64>,
    pub mentionable_level: Option<u64>,
    pub messageable_level: Option<u64>,
    pub default_notification_level: Option<u64>,
    pub members_visibility_level: Option<u64>,
    pub primary_group: Option<bool>,
    pub public_admission: Option<bool>,
    pub public_exit: Option<bool>,
    pub allow_membership_requests: Option<bool>,
    pub automatic_membership_email_domains: Option<String>,
    pub automatic_membership_retroactive: Option<bool>,
    pub membership_request_template: Option<String>,
    pub flair_icon: Option<String>,
    pub flair_upload_id: Option<u64>,
    pub flair_color: Option<String>,
    pub flair_background_color: Option<String>,
    pub bio_raw: Option<String>,
}

/// The post or topic just created.
#[derive(Clone, Copy, Debug)]
pub struct CreatePostResponse {
    pub id: u64,
    pub topic_id: u64,
}

/// The category just created.
#[derive(Debug)]
pub struct CreateCategoryResponse {
    pub category: CreatedCategory,
}

/// Identity of a created category.
#[derive(Clone, Copy, Debug)]
pub struct CreatedCategory {
    pub id: u64,
}

/// The group just created.
#[derive(Debug)]
pub struct CreateGroupResponse {
    pub group: CreatedGroup,
}

/// Identity of a created group.
#[derive(Clone, Copy, Debug)]
pub struct CreatedGroup {
    pub id: u64,
}

} // verus!
