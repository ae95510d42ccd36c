//! The cluster stage: the digest sent to the model, the framing of its JSON reply,
//! the assembly of topics from the indices it names, and the fallbacks.

use vstd::multiset::Multiset;
use vstd::prelude::*;
use crate::model::{strings_view, stories_view, topics_view, Story, StoryView, SummaryView, Summary, Topic, TopicView};
use crate::text::{
    chars_of, decimal, find_char, first_index_of, last_index_of, lemma_first_index_of_bound,
    lemma_last_index_of_bound, push_decimal, push_text, rfind_char, string_of,
};

verus! {

/// Title of the one topic made for a single story.
pub const SINGLE_TOPIC_TITLE: &'static str = "News";
/// Title of the one topic made when clustering fails.
pub const FALLBACK_TOPIC_TITLE: &'static str = "News Stories";

pub const CLUSTER_PROMPT_HEAD: &'static str = "You are analyzing a list of news articles for a tech podcast briefing.

GROUPING RULES (in priority order):
1. PRIMARY: If an article is primarily about a specific company (Google, Apple, Microsoft, Tesla, Meta, Amazon, etc.), use the company name as the topic title
2. Group all articles about the same company together under that company's name
3. For articles not primarily about a single company, use a descriptive topic (e.g., \"AI Development\", \"Privacy & Security\", \"Industry News\")
4. Use concise topic names (1-3 words preferred, company names exactly as they are commonly known)

Articles:
";

pub const CLUSTER_PROMPT_MIDDLE: &'static str = "

Format your response as JSON:
{
  \"topics\": [
    {
      \"title\": \"Apple\",
      \"article_indices\": [0, 3, 7]
    },
    {
      \"title\": \"Google\",
      \"article_indices\": [1, 5]
    },
    {
      \"title\": \"AI Development\",
      \"article_indices\": [2, 4, 6]
    }
  ]
}

Important: Every article index from 0 to ";

pub const CLUSTER_PROMPT_TAIL: &'static str = " must appear in exactly one topic.";

/// One topic of the model's reply: a title and the indices of its stories.
#[derive(Debug, Clone)]
pub struct TopicCluster {
    pub title: String,
    pub article_indices: Vec<usize>,
}

// ---------------------------------------------------------------- digest and prompt

/// The first summary point of a story, or nothing.
pub open spec fn first_point(s: SummaryView) -> Seq<char> {
    match s {
        SummaryView::Success { points, quote } => if points.len() > 0 { points[0] } else { Seq::empty() },
        _ => Seq::empty(),
    }
}

/// The digest line of story `i`: `i: title - first point`.
pub open spec fn digest_line(i: nat, s: StoryView) -> Seq<char> {
    decimal(i) + ": "@ + s.title + " - "@ + first_point(s.summary)
}

/// The digest lines of all stories, joined by newlines.
pub open spec fn digest(ss: Seq<StoryView>) -> Seq<char>
    decreases ss.len(),
{
    if ss.len() == 0 {
        Seq::empty()
    } else if ss.len() == 1 {
        digest_line(0, ss[0])
    } else {
        digest(ss.drop_last()) + "\n"@ + digest_line((ss.len() - 1) as nat, ss.last())
    }
}

fn first_point_of(s: &Summary) -> (r: &str)
    ensures
        r@ == first_point(s@),
{
    proof { reveal_strlit(""); }
    match s {
        Summary::Success { points, quote } => {
            if points.len() > 0 {
                assert(strings_view(points@)[0] == points@[0]@);
                points[0].as_str()
            } else {
                ""
            }
        },
        _ => "",
    }
}

/// One line per story (index, title, first summary point), joined by newlines.
pub fn cluster_digest(stories: &Vec<Story>) -> (r: String)
    ensures
        r@ == digest(stories_view(stories@)),
{
    let mut out = String::new();
    let mut i: usize = 0;
    proof { reveal_strlit(""); }
    while i < stories.len()
        invariant
            0 <= i <= stories.len(),
            out@ == digest(stories_view(stories@).subrange(0, i as int)),
        decreases stories.len() - i,
    {
        let ghost ss = stories_view(stories@).subrange(0, i + 1);
        assert(ss.drop_last() == stories_view(stories@).subrange(0, i as int));
        let story = &stories[i];
        if i > 0 {
            push_text(&mut out, "\n");
        }
        push_decimal(&mut out, i);
        push_text(&mut out, ": ");
        push_text(&mut out, story.title.as_str());
        push_text(&mut out, " - ");
        push_text(&mut out, first_point_of(&story.summary));
        assert(out@ == digest(ss));
        i = i + 1;
    }
    assert(stories_view(stories@).subrange(0, stories.len() as int) == stories_view(stories@));
    out
}

/// The clustering request for `ss`.
pub open spec fn clustering_prompt_of(ss: Seq<StoryView>) -> Seq<char> {
    CLUSTER_PROMPT_HEAD@ + digest(ss) + CLUSTER_PROMPT_MIDDLE@ + decimal((ss.len() - 1) as nat)
        + CLUSTER_PROMPT_TAIL@
}

/// Builds the request asking the model to group `stories` into topics.
pub fn clustering_prompt(stories: &Vec<Story>) -> (r: String)
    requires
        stories.len() >= 1,
    ensures
        r@ == clustering_prompt_of(stories_view(stories@)),
{
    let mut out = String::new();
    push_text(&mut out, CLUSTER_PROMPT_HEAD);
    let d = cluster_digest(stories);
    push_text(&mut out, d.as_str());
    push_text(&mut out, CLUSTER_PROMPT_MIDDLE);
    push_decimal(&mut out, stories.len() - 1);
    push_text(&mut out, CLUSTER_PROMPT_TAIL);
    out
}

// ---------------------------------------------------------------- reply framing

/// The JSON object in a reply: from its first `{` through its last `}`; the
/// whole reply when it lacks either, or when the last `}` comes before the first `{`.
pub open spec fn json_span(t: Seq<char>) -> Seq<char> {
    let a = first_index_of(t, '{');
    let b = last_index_of(t, '}');
    if a < t.len() && 0 <= b && a <= b {
        t.subrange(a, b + 1)
    } else {
        t
    }
}

/// Cuts the JSON object out of a reply that may wrap it in prose.
pub fn json_payload(reply: &str) -> (r: String)
    ensures
        r@ == json_span(reply@),
{
    let v = chars_of(reply);
    let a = find_char(&v, '{');
    proof {
        lemma_first_index_of_bound(v@, '{');
        lemma_last_index_of_bound(v@, '}');
    }
    match rfind_char(&v, '}') {
        Some(b) => {
            if a < v.len() && a <= b {
                string_of(&v, a, b + 1)
            } else {
                string_of(&v, 0, v.len())
            }
        },
        None => {
            assert(v@.subrange(0, v.len() as int) == v@);
            string_of(&v, 0, v.len())
        },
    }
}

// ---------------------------------------------------------------- assembly

/// Title of the closing topic that holds the stories no cluster names.
pub const UNCLUSTERED_TOPIC_TITLE: &'static str = "Other Stories";

/// Cluster `c` names story `i`.
pub open spec fn names(c: TopicCluster, i: int) -> bool {
    c.article_indices@.contains(i as usize)
}

/// The first of the first `k` clusters that names story `i`, or `-1`.
pub open spec fn first_namer(cs: Seq<TopicCluster>, i: int, k: int) -> int
    decreases k,
{
    if k <= 0 {
        -1
    } else {
        let p = first_namer(cs, i, k - 1);
        if p >= 0 {
            p
        } else if names(cs[k - 1], i) {
            k - 1
        } else {
            -1
        }
    }
}

/// The group of story `i`: the first cluster that names it, or `cs.len()` when
/// none does. A story named again by a later cluster stays in its first group.
pub open spec fn group_of(cs: Seq<TopicCluster>, i: int) -> int {
    let p = first_namer(cs, i, cs.len() as int);
    if p >= 0 { p } else { cs.len() as int }
}

/// The stories among the first `m` whose group is `g`, in input order.
pub open spec fn group_members(ss: Seq<StoryView>, cs: Seq<TopicCluster>, g: int, m: int) -> Seq<StoryView>
    decreases m,
{
    if m <= 0 {
        Seq::empty()
    } else {
        let p = group_members(ss, cs, g, m - 1);
        if group_of(cs, m - 1) == g { p.push(ss[m - 1]) } else { p }
    }
}

/// The topics of the first `k` clusters, in reply order; a cluster that owns no
/// story gives no topic.
pub open spec fn named_topics(ss: Seq<StoryView>, cs: Seq<TopicCluster>, k: int) -> Seq<TopicView>
    decreases k,
{
    if k <= 0 {
        Seq::empty()
    } else {
        let p = named_topics(ss, cs, k - 1);
        let st = group_members(ss, cs, k - 1, ss.len() as int);
        if st.len() > 0 { p.push(TopicView { title: cs[k - 1].title@, stories: st }) } else { p }
    }
}

/// The topics a parsed reply gives: each cluster's stories in input order, then
/// a closing topic with the stories no cluster names; the fallback topic when
/// no cluster owns a story.
pub open spec fn topics_of_reply(ss: Seq<StoryView>, cs: Seq<TopicCluster>) -> Seq<TopicView> {
    let t = named_topics(ss, cs, cs.len() as int);
    let rest = group_members(ss, cs, cs.len() as int, ss.len() as int);
    if t.len() == 0 {
        fallback_of(ss)
    } else if rest.len() > 0 {
        t.push(TopicView { title: UNCLUSTERED_TOPIC_TITLE@, stories: rest })
    } else {
        t
    }
}

/// The group number of a story as `story_groups` records it.
pub open spec fn slot_int(o: Option<usize>) -> int {
    match o {
        Some(k) => k as int,
        None => -1,
    }
}

/// For each of `n` stories, the first cluster that names it, if any.
fn story_groups(n: usize, clusters: &Vec<TopicCluster>) -> (r: Vec<Option<usize>>)
    ensures
        r.len() == n,
        forall|i: int| 0 <= i < n ==> slot_int(#[trigger] r@[i]) == first_namer(clusters@, i, clusters.len() as int),
{
    let mut r: Vec<Option<usize>> = Vec::new();
    let mut i: usize = 0;
    while i < n
        invariant
            0 <= i <= n,
            r.len() == i,
            forall|j: int| 0 <= j < i ==> #[trigger] r@[j] == None::<usize>,
        decreases n - i,
    {
        r.push(None);
        i = i + 1;
    }
    let ghost cs = clusters@;
    let mut k: usize = 0;
    while k < clusters.len()
        invariant
            0 <= k <= clusters.len(),
            cs == clusters@,
            r.len() == n,
            forall|j: int| 0 <= j < n ==> slot_int(#[trigger] r@[j]) == first_namer(cs, j, k as int),
        decreases clusters.len() - k,
    {
        let idx = &clusters[k].article_indices;
        let ghost before = r@;
        let mut p: usize = 0;
        while p < idx.len()
            invariant
                0 <= p <= idx.len(),
                k < clusters.len(),
                cs == clusters@,
                idx@ == cs[k as int].article_indices@,
                r.len() == n,
                forall|j: int| 0 <= j < n ==> #[trigger] slot_int(r@[j]) == (if first_namer(cs, j, k as int) >= 0 {
                    first_namer(cs, j, k as int)
                } else if idx@.subrange(0, p as int).contains(j as usize) {
                    k as int
                } else {
                    -1
                }),
            decreases idx.len() - p,
        {
            let x = idx[p];
            assert forall|j: int| 0 <= j < n && j != x as int implies
                (#[trigger] idx@.subrange(0, p + 1).contains(j as usize)) == idx@.subrange(0, p as int).contains(j as usize) by {
                if idx@.subrange(0, p + 1).contains(j as usize) {
                    let q = choose|q: int| 0 <= q < p + 1 && #[trigger] idx@.subrange(0, p + 1)[q] == j as usize;
                    assert(q != p);
                    assert(idx@.subrange(0, p as int)[q] == j as usize);
                }
                if idx@.subrange(0, p as int).contains(j as usize) {
                    let q = choose|q: int| 0 <= q < p && #[trigger] idx@.subrange(0, p as int)[q] == j as usize;
                    assert(idx@.subrange(0, p + 1)[q] == j as usize);
                }
            }
            assert(idx@.subrange(0, p + 1)[p as int] == x);
            assert(idx@.subrange(0, p + 1).contains(x));
            let ghost old_r = r@;
            if x < n {
                match r[x] {
                    None => {
                        r.set(x, Some(k));
                    },
                    Some(_) => {},
                }
            }
            proof {
                assert forall|j: int| 0 <= j < n implies #[trigger] slot_int(r@[j]) == (if first_namer(cs, j, k as int) >= 0 {
                    first_namer(cs, j, k as int)
                } else if idx@.subrange(0, p + 1).contains(j as usize) {
                    k as int
                } else {
                    -1
                }) by {
                    if j != x as int {
                        assert(r@[j] == old_r[j]);
                    } else {
                        assert(slot_int(old_r[j]) == (if first_namer(cs, j, k as int) >= 0 {
                            first_namer(cs, j, k as int)
                        } else if idx@.subrange(0, p as int).contains(j as usize) {
                            k as int
                        } else {
                            -1
                        }));
                    }
                }
            }
            p = p + 1;
        }
        assert(idx@.subrange(0, idx.len() as int) == idx@);
        k = k + 1;
    }
    r
}

proof fn lemma_first_namer_bound(cs: Seq<TopicCluster>, i: int, k: int)
    requires
        0 <= k,
    ensures
        -1 <= first_namer(cs, i, k) < k,
    decreases k,
{
    if k > 0 {
        lemma_first_namer_bound(cs, i, k - 1);
    }
}

fn same_slot(a: Option<usize>, b: Option<usize>) -> (r: bool)
    ensures
        r == (a == b),
{
    match (a, b) {
        (Some(x), Some(y)) => x == y,
        (None, None) => true,
        _ => false,
    }
}

/// The stories whose recorded group is `g`, in input order.
fn group_stories(stories: &Vec<Story>, clusters: &Vec<TopicCluster>, groups: &Vec<Option<usize>>, g: Option<usize>)
    -> (r: Vec<Story>)
    requires
        groups.len() == stories.len(),
        forall|i: int| 0 <= i < stories.len() ==> slot_int(#[trigger] groups@[i]) == first_namer(clusters@, i, clusters.len() as int),
        g matches Some(k) ==> k < clusters.len(),
    ensures
        stories_view(r@) == group_members(
            stories_view(stories@),
            clusters@,
            match g { Some(k) => k as int, None => clusters.len() as int },
            stories.len() as int,
        ),
{
    let ghost ss = stories_view(stories@);
    let ghost gi = match g { Some(k) => k as int, None => clusters.len() as int };
    let mut r: Vec<Story> = Vec::new();
    let mut i: usize = 0;
    while i < stories.len()
        invariant
            0 <= i <= stories.len(),
            groups.len() == stories.len(),
            ss == stories_view(stories@),
            gi == match g { Some(k) => k as int, None => clusters.len() as int },
            g matches Some(k) ==> k < clusters.len(),
            forall|j: int| 0 <= j < stories.len() ==> slot_int(#[trigger] groups@[j]) == first_namer(clusters@, j, clusters.len() as int),
            stories_view(r@) == group_members(ss, clusters@, gi, i as int),
        decreases stories.len() - i,
    {
        proof {
            lemma_first_namer_bound(clusters@, i as int, clusters.len() as int);
            assert(slot_int(groups@[i as int]) == first_namer(clusters@, i as int, clusters.len() as int));
        }
        if same_slot(groups[i], g) {
            let ghost before = r@;
            r.push(stories[i].copied());
            assert(stories_view(r@) == stories_view(before).push(stories@[i as int]@));
        }
        i = i + 1;
    }
    r
}

/// Builds the topics that a parsed reply gives: each story goes to the first
/// cluster that names it, stories keep their input order within a topic, and the
/// stories no cluster names close the list under one more topic.
pub fn topics_from_clusters(stories: Vec<Story>, clusters: &Vec<TopicCluster>) -> (r: Vec<Topic>)
    ensures
        topics_view(r@) == topics_of_reply(stories_view(stories@), clusters@),
{
    let ghost ss = stories_view(stories@);
    let groups = story_groups(stories.len(), clusters);
    let mut topics: Vec<Topic> = Vec::new();
    let mut k: usize = 0;
    while k < clusters.len()
        invariant
            0 <= k <= clusters.len(),
            ss == stories_view(stories@),
            groups.len() == stories.len(),
            forall|i: int| 0 <= i < stories.len() ==> slot_int(#[trigger] groups@[i]) == first_namer(clusters@, i, clusters.len() as int),
            topics_view(topics@) == named_topics(ss, clusters@, k as int),
        decreases clusters.len() - k,
    {
        let st = group_stories(&stories, clusters, &groups, Some(k));
        if st.len() > 0 {
            let ghost before = topics@;
            let topic = Topic { title: clusters[k].title.clone(), stories: st };
            topics.push(topic);
            assert(topics_view(topics@) == topics_view(before).push(topic@));
        }
        k = k + 1;
    }
    if topics.len() == 0 {
        return fallback_chronological(stories);
    }
    let rest = group_stories(&stories, clusters, &groups, None);
    if rest.len() > 0 {
        let mut title = String::new();
        push_text(&mut title, UNCLUSTERED_TOPIC_TITLE);
        let ghost before = topics@;
        let topic = Topic { title, stories: rest };
        topics.push(topic);
        assert(topics_view(topics@) == topics_view(before).push(topic@));
    }
    topics
}

/// The one topic that holds every story, in input order.
pub open spec fn fallback_of(ss: Seq<StoryView>) -> Seq<TopicView> {
    seq![TopicView { title: FALLBACK_TOPIC_TITLE@, stories: ss }]
}

/// Puts every story, in input order, under one topic.
pub fn fallback_chronological(stories: Vec<Story>) -> (r: Vec<Topic>)
    ensures
        topics_view(r@) == fallback_of(stories_view(stories@)),
{
    let mut title = String::new();
    push_text(&mut title, FALLBACK_TOPIC_TITLE);
    let topic = Topic { title, stories };
    let r = vec![topic];
    assert(topics_view(r@) == seq![topic@]);
    r
}


/// The stories of all topics, topic after topic.
pub open spec fn flat_stories(ts: Seq<TopicView>) -> Seq<StoryView>
    decreases ts.len(),
{
    if ts.len() == 0 {
        Seq::empty()
    } else {
        flat_stories(ts.drop_last()) + ts.last().stories
    }
}

/// Groups `0..g` of the first `m` stories, one after another.
pub open spec fn groups_upto(ss: Seq<StoryView>, cs: Seq<TopicCluster>, g: int, m: int) -> Seq<StoryView>
    decreases g,
{
    if g <= 0 {
        Seq::empty()
    } else {
        groups_upto(ss, cs, g - 1, m) + group_members(ss, cs, g - 1, m)
    }
}

proof fn lemma_group_of_bound(cs: Seq<TopicCluster>, i: int)
    ensures
        0 <= group_of(cs, i) <= cs.len(),
{
    lemma_first_namer_bound(cs, i, cs.len() as int);
}

proof fn lemma_named_topics_flat(ss: Seq<StoryView>, cs: Seq<TopicCluster>, k: int)
    requires
        0 <= k,
    ensures
        flat_stories(named_topics(ss, cs, k)) == groups_upto(ss, cs, k, ss.len() as int),
    decreases k,
{
    if k > 0 {
        lemma_named_topics_flat(ss, cs, k - 1);
        let p = named_topics(ss, cs, k - 1);
        let st = group_members(ss, cs, k - 1, ss.len() as int);
        if st.len() > 0 {
            let t = TopicView { title: cs[k - 1].title@, stories: st };
            assert(p.push(t).drop_last() == p);
        } else {
            assert(groups_upto(ss, cs, k - 1, ss.len() as int) + st == groups_upto(ss, cs, k - 1, ss.len() as int));
        }
    }
}

proof fn lemma_groups_empty(ss: Seq<StoryView>, cs: Seq<TopicCluster>, g: int)
    ensures
        groups_upto(ss, cs, g, 0) == Seq::<StoryView>::empty(),
    decreases g,
{
    if g > 0 {
        lemma_groups_empty(ss, cs, g - 1);
        assert(Seq::<StoryView>::empty() + Seq::<StoryView>::empty() == Seq::<StoryView>::empty());
    }
}

proof fn lemma_groups_step(ss: Seq<StoryView>, cs: Seq<TopicCluster>, g: int, m: int)
    requires
        0 <= g,
        0 <= m < ss.len(),
    ensures
        groups_upto(ss, cs, g, m + 1).to_multiset() =~= groups_upto(ss, cs, g, m).to_multiset().add(
            if 0 <= group_of(cs, m) < g { Multiset::singleton(ss[m]) } else { Multiset::empty() },
        ),
    decreases g,
{
    broadcast use vstd::seq_lib::group_to_multiset_ensures, vstd::multiset::group_multiset_axioms;
    if g == 0 {
        assert(Seq::<StoryView>::empty().to_multiset() =~= Multiset::empty());
    } else {
        lemma_groups_step(ss, cs, g - 1, m);
        let a = groups_upto(ss, cs, g - 1, m + 1);
        let b = groups_upto(ss, cs, g - 1, m);
        let after = group_members(ss, cs, g - 1, m + 1);
        let before = group_members(ss, cs, g - 1, m);
        vstd::seq_lib::lemma_multiset_commutative(a, after);
        vstd::seq_lib::lemma_multiset_commutative(b, before);
        if group_of(cs, m) == g - 1 {
            assert(after == before.push(ss[m]));
        } else {
            assert(after == before);
        }
    }
}

proof fn lemma_groups_cover(ss: Seq<StoryView>, cs: Seq<TopicCluster>, m: int)
    requires
        0 <= m <= ss.len(),
    ensures
        groups_upto(ss, cs, cs.len() + 1int, m).to_multiset() =~= ss.subrange(0, m).to_multiset(),
    decreases m,
{
    broadcast use vstd::seq_lib::group_to_multiset_ensures, vstd::multiset::group_multiset_axioms;
    if m == 0 {
        lemma_groups_empty(ss, cs, cs.len() + 1int);
        assert(ss.subrange(0, 0) == Seq::<StoryView>::empty());
    } else {
        lemma_groups_cover(ss, cs, m - 1);
        lemma_groups_step(ss, cs, cs.len() + 1int, m - 1);
        lemma_group_of_bound(cs, m - 1);
        assert(ss.subrange(0, m) == ss.subrange(0, m - 1).push(ss[m - 1]));
    }
}

/// Clustering keeps every story exactly once: whatever the reply, the stories
/// of all topics together are the input stories, as a multiset.
pub proof fn lemma_clustering_keeps_every_story(ss: Seq<StoryView>, reply: Result<Seq<TopicCluster>, Seq<char>>)
    ensures
        flat_stories(clustered(ss, reply)).to_multiset() =~= ss.to_multiset(),
{
    let fb = fallback_of(ss);
    assert(fb.drop_last() == Seq::<TopicView>::empty());
    assert(flat_stories(Seq::<TopicView>::empty()) == Seq::<StoryView>::empty());
    assert(fb.last().stories == ss);
    assert(flat_stories(fb) == flat_stories(fb.drop_last()) + fb.last().stories);
    assert(flat_stories(fb) == Seq::<StoryView>::empty() + ss);
    assert(Seq::<StoryView>::empty() + ss == ss);
    match reply {
        Err(_) => {},
        Ok(cs) => {
            let n = ss.len() as int;
            let t = named_topics(ss, cs, cs.len() as int);
            let rest = group_members(ss, cs, cs.len() as int, n);
            if t.len() > 0 {
                lemma_named_topics_flat(ss, cs, cs.len() as int);
                lemma_groups_cover(ss, cs, n);
                assert(ss.subrange(0, n) == ss);
                if rest.len() > 0 {
                    let last = TopicView { title: UNCLUSTERED_TOPIC_TITLE@, stories: rest };
                    assert(t.push(last).drop_last() == t);
                } else {
                    assert(groups_upto(ss, cs, cs.len() as int, n) + rest == groups_upto(ss, cs, cs.len() as int, n));
                }
            }
        },
    }
}

// ---------------------------------------------------------------- the stage

/// Where clustering stands before the model is asked.
pub enum ClusterStart {
    /// No model call is needed: these are the topics.
    Done(Vec<Topic>),
    /// Ask the model with `prompt`; `stories` are handed back for the reply.
    Ask { prompt: String, stories: Vec<Story> },
}

/// The one topic made for a lone story.
pub open spec fn single_topic_of(ss: Seq<StoryView>) -> Seq<TopicView> {
    seq![TopicView { title: SINGLE_TOPIC_TITLE@, stories: ss }]
}

/// Starts clustering: no stories give no topics, one story gives one topic
/// holding it, and two or more need one model request.
pub fn begin_clustering(stories: Vec<Story>) -> (r: ClusterStart)
    ensures
        stories.len() == 0 ==> (r matches ClusterStart::Done(t) && t.len() == 0),
        stories.len() == 1 ==> (r matches ClusterStart::Done(t)
            && topics_view(t@) == single_topic_of(stories_view(stories@))),
        stories.len() >= 2 ==> (r matches ClusterStart::Ask { prompt, stories: s }
            && s == stories && prompt@ == clustering_prompt_of(stories_view(stories@))),
{
    if stories.len() == 0 {
        return ClusterStart::Done(Vec::new());
    }
    if stories.len() == 1 {
        let mut title = String::new();
        push_text(&mut title, SINGLE_TOPIC_TITLE);
        let topic = Topic { title, stories };
        let t = vec![topic];
        assert(topics_view(t@) == seq![topic@]);
        return ClusterStart::Done(t);
    }
    let prompt = clustering_prompt(&stories);
    ClusterStart::Ask { prompt, stories }
}

/// The topics that a clustering reply leads to.
pub open spec fn clustered(ss: Seq<StoryView>, reply: Result<Seq<TopicCluster>, Seq<char>>) -> Seq<TopicView> {
    match reply {
        Err(_) => fallback_of(ss),
        Ok(cs) => topics_of_reply(ss, cs),
    }
}

/// View of a parsed reply, or of the reason there is none.
pub open spec fn reply_view(reply: Result<Vec<TopicCluster>, String>) -> Result<Seq<TopicCluster>, Seq<char>> {
    match reply {
        Ok(cs) => Ok(cs@),
        Err(e) => Err(e@),
    }
}

/// Finishes clustering with the model's parsed reply, or the reason there is none.
/// Never fails: an error, or a reply in which no cluster owns a story, gives one
/// topic holding every story in input order. Otherwise each story sits in the
/// first cluster that names it, in input order within its topic, and the stories
/// no cluster names close the list; every story appears exactly once.
pub fn finish_clustering(stories: Vec<Story>, reply: Result<Vec<TopicCluster>, String>) -> (r: Vec<Topic>)
    ensures
        topics_view(r@) == clustered(stories_view(stories@), reply_view(reply)),
        flat_stories(topics_view(r@)).to_multiset() == stories_view(stories@).to_multiset(),
{
    proof {
        lemma_clustering_keeps_every_story(stories_view(stories@), reply_view(reply));
    }
    match reply {
        Err(_) => fallback_chronological(stories),
        Ok(clusters) => topics_from_clusters(stories, &clusters),
    }
}

} // verus!
