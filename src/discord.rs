//! The body of a Discord webhook call.

use vstd::prelude::*;

verus! {

/// The JSON body posted to the webhook.
#[derive(Debug, Clone)]
pub struct WebhookPayload {
    pub embeds: Vec<Embed>,
}

/// One rendered notification.
#[derive(Debug, Clone)]
pub struct Embed {
    pub title: String,
    pub description: String,
    pub color: u32,
    pub url: Option<String>,
    pub thumbnail: Thumbnail,
}

/// Picture shown beside an embed.
#[derive(Debug, Clone)]
pub struct Thumbnail {
    pub url: String,
}

/// What an embed shows, as plain sequences.
pub struct EmbedView {
    pub title: Seq<char>,
    pub description: Seq<char>,
    pub color: u32,
    pub url: Option<Seq<char>>,
    pub thumbnail: Seq<char>,
}

pub open spec fn opt_view(o: Option<String>) -> Option<Seq<char>> {
    match o {
        Some(s) => Some(s@),
        None => None,
    }
}

impl View for Embed {
    type V = EmbedView;

    open spec fn view(&self) -> EmbedView {
        EmbedView {
            title: self.title@,
            description: self.description@,
            color: self.color,
            url: opt_view(self.url),
            thumbnail: self.thumbnail.url@,
        }
    }
}

} // verus!
