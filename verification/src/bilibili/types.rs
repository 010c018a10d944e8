//! Bilibili data structures.

use vstd::prelude::*;

verus! {

/// Video information.
#[derive(Debug)]
pub struct VideoInfo {
    pub bvid: String,
    pub aid: i64,
    pub cid: i64,
    pub title: String,
    pub author: String,
    pub duration: i64,
    pub description: String,
    pub cover_url: String,
    pub upload_date: String,
}

/// A downloadable video format.
#[derive(Debug)]
pub struct VideoFormat {
    pub format_id: String,
    pub quality: String,
    pub description: String,
    pub filesize: Option<i64>,
}

/// A favourites folder.
#[derive(Debug)]
pub struct FavoriteFolder {
    pub id: i64,
    pub title: String,
    pub media_count: i64,
}

/// A subtitle track offered by the player API.
#[derive(Debug)]
pub struct SubtitleItem {
    pub lan: String,
    pub subtitle_url: String,
    pub lan_doc: String,
}

/// The common envelope of Bilibili API replies.
#[derive(Debug)]
pub struct BiliApiResponse<T> {
    pub code: i32,
    pub message: String,
    pub data: Option<T>,
}

/// Reply data of the favourites-folder list.
#[derive(Debug)]
pub struct FavFolderData {
    pub list: Vec<FavFolderItem>,
}

/// One favourites folder in a folder-list reply.
#[derive(Debug)]
pub struct FavFolderItem {
    pub id: i64,
    pub title: String,
    pub media_count: i64,
}

/// Reply data of a favourites-folder content page.
#[derive(Debug)]
pub struct FavResourceData {
    pub medias: Option<Vec<FavMediaItem>>,
}

/// One video in a favourites-folder content page.
#[derive(Debug)]
pub struct FavMediaItem {
    pub bvid: String,
    pub id: i64,
    pub title: String,
    pub upper: Option<FavUpper>,
    pub duration: i64,
    pub intro: String,
    pub cover: String,
}

/// The uploader of a video.
#[derive(Debug)]
pub struct FavUpper {
    pub mid: i64,
    pub name: String,
}

/// The user-info reply.
#[derive(Debug)]
pub struct NavData {
    pub mid: i64,
}

} // verus!
