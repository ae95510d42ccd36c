//! The data that flows through the pipeline, with a mathematical view of each type.

use vstd::prelude::*;

verus! {

/// View of a list of strings.
pub open spec fn strings_view(v: Seq<String>) -> Seq<Seq<char>> {
    v.map_values(|s: String| s@)
}

/// View of an optional string.
pub open spec fn opt_view(o: Option<String>) -> Option<Seq<char>> {
    match o {
        Some(s) => Some(s@),
        None => None,
    }
}

/// Outcome of summarizing one article.
#[derive(Debug, Clone)]
pub enum Summary {
    Success { points: Vec<String>, quote: Option<String> },
    Insufficient,
    Failed(String),
}

pub enum SummaryView {
    Success { points: Seq<Seq<char>>, quote: Option<Seq<char>> },
    Insufficient,
    Failed(Seq<char>),
}

impl View for Summary {
    type V = SummaryView;

    open spec fn view(&self) -> SummaryView {
        match self {
            Summary::Success { points, quote } => SummaryView::Success {
                points: strings_view(points@),
                quote: opt_view(*quote),
            },
            Summary::Insufficient => SummaryView::Insufficient,
            Summary::Failed(m) => SummaryView::Failed(m@),
        }
    }
}

/// A bookmark enriched with its effective date and summary.
#[derive(Debug, Clone)]
pub struct Story {
    pub title: String,
    pub url: String,
    pub created: String,
    pub summary: Summary,
}

pub struct StoryView {
    pub title: Seq<char>,
    pub url: Seq<char>,
    pub created: Seq<char>,
    pub summary: SummaryView,
}

impl View for Story {
    type V = StoryView;

    open spec fn view(&self) -> StoryView {
        StoryView {
            title: self.title@,
            url: self.url@,
            created: self.created@,
            summary: self.summary@,
        }
    }
}

/// View of a list of stories.
pub open spec fn stories_view(v: Seq<Story>) -> Seq<StoryView> {
    v.map_values(|s: Story| s@)
}

/// A named group of stories.
#[derive(Debug, Clone)]
pub struct Topic {
    pub title: String,
    pub stories: Vec<Story>,
}

pub struct TopicView {
    pub title: Seq<char>,
    pub stories: Seq<StoryView>,
}

impl View for Topic {
    type V = TopicView;

    open spec fn view(&self) -> TopicView {
        TopicView { title: self.title@, stories: stories_view(self.stories@) }
    }
}

/// View of a list of topics.
pub open spec fn topics_view(v: Seq<Topic>) -> Seq<TopicView> {
    v.map_values(|t: Topic| t@)
}

/// Copies a list of strings.
pub fn copy_strings(v: &Vec<String>) -> (r: Vec<String>)
    ensures
        strings_view(r@) == strings_view(v@),
{
    let mut r: Vec<String> = Vec::new();
    let mut i: usize = 0;
    while i < v.len()
        invariant
            0 <= i <= v.len(),
            strings_view(r@) == strings_view(v@.subrange(0, i as int)),
        decreases v.len() - i,
    {
        r.push(v[i].clone());
        assert(strings_view(v@.subrange(0, i + 1)) == strings_view(v@.subrange(0, i as int)).push(v@[i as int]@));
        i = i + 1;
    }
    assert(v@.subrange(0, v.len() as int) == v@);
    r
}

pub fn copy_opt_string(o: &Option<String>) -> (r: Option<String>)
    ensures
        opt_view(r) == opt_view(*o),
{
    match o {
        Some(s) => Some(s.clone()),
        None => None,
    }
}

impl Summary {
    /// A copy of this summary.
    pub fn copied(&self) -> (r: Summary)
        ensures
            r@ == self@,
    {
        match self {
            Summary::Success { points, quote } => Summary::Success {
                points: copy_strings(points),
                quote: copy_opt_string(quote),
            },
            Summary::Insufficient => Summary::Insufficient,
            Summary::Failed(m) => Summary::Failed(m.clone()),
        }
    }
}

impl Story {
    /// A copy of this story.
    pub fn copied(&self) -> (r: Story)
        ensures
            r@ == self@,
    {
        Story {
            title: self.title.clone(),
            url: self.url.clone(),
            created: self.created.clone(),
            summary: self.summary.copied(),
        }
    }
}

/// Text and optional publication date extracted from one article.
#[derive(Debug, Clone)]
pub struct ArticleContent {
    pub text: String,
    pub published_date: Option<String>,
}

/// Outcome of fetching one URL.
#[derive(Debug, Clone)]
pub enum ExtractionResult {
    Success(ArticleContent),
    Paywalled,
    Failed(String),
}

pub enum ExtractionView {
    Success { text: Seq<char>, published_date: Option<Seq<char>> },
    Paywalled,
    Failed(Seq<char>),
}

impl View for ExtractionResult {
    type V = ExtractionView;

    open spec fn view(&self) -> ExtractionView {
        match self {
            ExtractionResult::Success(c) => ExtractionView::Success {
                text: c.text@,
                published_date: opt_view(c.published_date),
            },
            ExtractionResult::Paywalled => ExtractionView::Paywalled,
            ExtractionResult::Failed(m) => ExtractionView::Failed(m@),
        }
    }
}

impl ArticleContent {
    pub fn copied(&self) -> (r: ArticleContent)
        ensures
            r == *self,
    {
        let published_date = match &self.published_date {
            Some(d) => Some(d.clone()),
            None => None,
        };
        ArticleContent { text: self.text.clone(), published_date }
    }
}

impl ExtractionResult {
    /// A copy of this outcome.
    pub fn copied(&self) -> (r: ExtractionResult)
        ensures
            r@ == self@,
    {
        match self {
            ExtractionResult::Success(c) => ExtractionResult::Success(c.copied()),
            ExtractionResult::Paywalled => ExtractionResult::Paywalled,
            ExtractionResult::Failed(m) => ExtractionResult::Failed(m.clone()),
        }
    }
}

/// Credentials for the bookmark service and the summarizing model.
#[derive(Debug, Clone)]
pub struct Config {
    pub raindrop_api_token: String,
    pub anthropic_api_key: String,
}

} // verus!
