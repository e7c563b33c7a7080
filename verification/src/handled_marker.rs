//! Markers for answered work whose "handled" mark on GitHub is still owed.
//!
//! A marker is recorded once a response is posted and removed once the mark is
//! set, so that a failed mark can be made up for without running Codex again.
use crate::domain::{CommentMention, PullRequest};
use crate::string_set::StringSet;
use crate::{string_set, text};
use vstd::prelude::*;

verus! {

#[derive(Debug, Eq, Ord, PartialEq, PartialOrd)]
pub enum PendingHandledMarker {
    Mention { api_url: String },
    PullRequest { html_url: String },
}

/// A marker with its address taken by its characters.
pub enum MarkerView {
    Mention(Seq<char>),
    PullRequest(Seq<char>),
}

impl View for PendingHandledMarker {
    type V = MarkerView;

    open spec fn view(&self) -> MarkerView {
        match *self {
            PendingHandledMarker::Mention { api_url } => MarkerView::Mention(api_url@),
            PendingHandledMarker::PullRequest { html_url } => MarkerView::PullRequest(html_url@),
        }
    }
}

impl Clone for PendingHandledMarker {
    fn clone(&self) -> (r: Self)
        ensures
            r == *self,
    {
        match self {
            PendingHandledMarker::Mention { api_url } => {
                PendingHandledMarker::Mention { api_url: api_url.clone() }
            },
            PendingHandledMarker::PullRequest { html_url } => {
                PendingHandledMarker::PullRequest { html_url: html_url.clone() }
            },
        }
    }
}

impl PendingHandledMarker {
    pub open spec fn of_mention(mention: CommentMention) -> PendingHandledMarker {
        PendingHandledMarker::Mention { api_url: mention.api_url }
    }

    pub open spec fn of_pull_request(pr: PullRequest) -> PendingHandledMarker {
        PendingHandledMarker::PullRequest { html_url: pr.html_url }
    }

    pub fn for_mention(mention: &CommentMention) -> (r: PendingHandledMarker)
        ensures
            r == PendingHandledMarker::of_mention(*mention),
    {
        PendingHandledMarker::Mention { api_url: mention.api_url.clone() }
    }

    pub fn for_pull_request(pr: &PullRequest) -> (r: PendingHandledMarker)
        ensures
            r == PendingHandledMarker::of_pull_request(*pr),
    {
        PendingHandledMarker::PullRequest { html_url: pr.html_url.clone() }
    }
}

/// Why a store could not be read or written.
#[derive(Debug, Eq, PartialEq)]
pub struct StoreError {
    pub message: String,
}

/// Where markers are kept between polls. Of a call that fails nothing is
/// promised.
pub trait PendingHandledMarkerStore {
    spec fn markers(&self) -> Set<MarkerView>;

    fn record(&mut self, marker: &PendingHandledMarker) -> (r: Result<(), StoreError>)
        ensures
            r is Ok ==> final(self).markers() == old(self).markers().insert(marker@),
    ;

    fn contains(&self, marker: &PendingHandledMarker) -> (r: Result<bool, StoreError>)
        ensures
            r is Ok ==> r->Ok_0 == self.markers().contains(marker@),
    ;

    fn remove(&mut self, marker: &PendingHandledMarker) -> (r: Result<(), StoreError>)
        ensures
            r is Ok ==> final(self).markers() == old(self).markers().remove(marker@),
    ;

    fn pending(&self) -> (r: Result<Vec<PendingHandledMarker>, StoreError>)
        ensures
            r is Ok ==> marker_views(r->Ok_0@).to_set() == self.markers(),
    ;
}

pub open spec fn marker_views(list: Seq<PendingHandledMarker>) -> Seq<MarkerView> {
    list.map_values(|marker: PendingHandledMarker| marker@)
}

/// The markers for the given addresses.
pub open spec fn markers_of(
    mention_api_urls: Seq<Seq<char>>,
    pull_request_html_urls: Seq<Seq<char>>,
) -> Set<MarkerView> {
    Set::new(
        |marker: MarkerView|
            match marker {
                MarkerView::Mention(url) => mention_api_urls.contains(url),
                MarkerView::PullRequest(url) => pull_request_html_urls.contains(url),
            },
    )
}

/// The markers that are owed, as one file holds them.
#[derive(Debug, Eq, PartialEq)]
pub struct PendingHandledMarkerLedger {
    mention_api_urls: StringSet,
    pull_request_html_urls: StringSet,
}

impl View for PendingHandledMarkerLedger {
    type V = Set<MarkerView>;

    closed spec fn view(&self) -> Set<MarkerView> {
        Set::new(
            |marker: MarkerView|
                match marker {
                    MarkerView::Mention(url) => self.mention_api_urls@.contains(url),
                    MarkerView::PullRequest(url) => self.pull_request_html_urls@.contains(url),
                },
        )
    }
}

impl PendingHandledMarkerLedger {
    pub fn new() -> (r: PendingHandledMarkerLedger)
        ensures
            r@ == Set::<MarkerView>::empty(),
    {
        let r = PendingHandledMarkerLedger {
            mention_api_urls: StringSet::new(),
            pull_request_html_urls: StringSet::new(),
        };
        assert(r@ =~= Set::<MarkerView>::empty());
        r
    }

    /// The ledger of the given addresses.
    pub fn from_urls(
        mention_api_urls: &Vec<String>,
        pull_request_html_urls: &Vec<String>,
    ) -> (r: PendingHandledMarkerLedger)
        ensures
            r@ == markers_of(text::views(mention_api_urls@), text::views(pull_request_html_urls@)),
    {
        let r = PendingHandledMarkerLedger {
            mention_api_urls: StringSet::from_list(mention_api_urls),
            pull_request_html_urls: StringSet::from_list(pull_request_html_urls),
        };
        assert(r@ =~= markers_of(
            text::views(mention_api_urls@),
            text::views(pull_request_html_urls@),
        ));
        r
    }

    /// The addresses of the owed mentions and of the owed pull requests. The ledger
    /// of these addresses is this one again.
    pub fn urls(&self) -> (r: (Vec<String>, Vec<String>))
        ensures
            string_set::ascending(text::views(r.0@)),
            string_set::ascending(text::views(r.1@)),
            markers_of(text::views(r.0@), text::views(r.1@)) == self@,
    {
        let mentions = self.mention_api_urls.to_list();
        let pull_requests = self.pull_request_html_urls.to_list();
        proof {
            let all = markers_of(text::views(mentions@), text::views(pull_requests@));
            assert forall|marker: MarkerView| all.contains(marker) == self@.contains(marker) by {
                match marker {
                    MarkerView::Mention(url) => {
                        assert(text::views(mentions@).to_set().contains(url) == text::views(
                            mentions@,
                        ).contains(url));
                    },
                    MarkerView::PullRequest(url) => {
                        assert(text::views(pull_requests@).to_set().contains(url) == text::views(
                            pull_requests@,
                        ).contains(url));
                    },
                }
            }
            assert(all =~= self@);
        }
        (mentions, pull_requests)
    }

    pub fn insert(&mut self, marker: &PendingHandledMarker)
        ensures
            final(self)@ == old(self)@.insert(marker@),
    {
        match marker {
            PendingHandledMarker::Mention { api_url } => {
                self.mention_api_urls.insert(api_url.as_str());
            },
            PendingHandledMarker::PullRequest { html_url } => {
                self.pull_request_html_urls.insert(html_url.as_str());
            },
        }
        assert(self@ =~= old(self)@.insert(marker@));
    }

    pub fn contains(&self, marker: &PendingHandledMarker) -> (r: bool)
        ensures
            r == self@.contains(marker@),
    {
        match marker {
            PendingHandledMarker::Mention { api_url } => {
                self.mention_api_urls.contains(api_url.as_str())
            },
            PendingHandledMarker::PullRequest { html_url } => {
                self.pull_request_html_urls.contains(html_url.as_str())
            },
        }
    }

    pub fn remove(&mut self, marker: &PendingHandledMarker)
        ensures
            final(self)@ == old(self)@.remove(marker@),
    {
        match marker {
            PendingHandledMarker::Mention { api_url } => {
                self.mention_api_urls.remove(api_url.as_str());
            },
            PendingHandledMarker::PullRequest { html_url } => {
                self.pull_request_html_urls.remove(html_url.as_str());
            },
        }
        assert(self@ =~= old(self)@.remove(marker@));
    }

    /// All markers: the mentions, then the pull requests, each in ascending order
    /// of their addresses.
    pub fn pending(&self) -> (r: Vec<PendingHandledMarker>)
        ensures
            marker_views(r@).to_set() == self@,
            forall|i: int, j: int|
                0 <= i < j < r@.len() ==> match (#[trigger] r@[i]@, #[trigger] r@[j]@) {
                    (MarkerView::Mention(a), MarkerView::Mention(b)) => text::precedes(a, b),
                    (MarkerView::PullRequest(a), MarkerView::PullRequest(b)) => text::precedes(
                        a,
                        b,
                    ),
                    (MarkerView::Mention(_), MarkerView::PullRequest(_)) => true,
                    (MarkerView::PullRequest(_), MarkerView::Mention(_)) => false,
                },
    {
        let (mentions, pull_requests) = self.urls();
        let ghost a = text::views(mentions@);
        let ghost b = text::views(pull_requests@);
        let mut r: Vec<PendingHandledMarker> = Vec::new();
        let mut i: usize = 0;
        while i < mentions.len()
            invariant
                a == text::views(mentions@),
                i <= mentions@.len(),
                r@.len() == i,
                forall|k: int| 0 <= k < i ==> (#[trigger] r@[k])@ == MarkerView::Mention(a[k]),
            decreases mentions@.len() - i,
        {
            r.push(PendingHandledMarker::Mention { api_url: mentions[i].clone() });
            i = i + 1;
        }
        let mut j: usize = 0;
        while j < pull_requests.len()
            invariant
                a == text::views(mentions@),
                b == text::views(pull_requests@),
                j <= pull_requests@.len(),
                r@.len() == a.len() + j,
                forall|k: int|
                    0 <= k < a.len() ==> (#[trigger] r@[k])@ == MarkerView::Mention(a[k]),
                forall|k: int|
                    a.len() <= k < r@.len() ==> (#[trigger] r@[k])@ == MarkerView::PullRequest(
                        b[k - a.len()],
                    ),
            decreases pull_requests@.len() - j,
        {
            r.push(PendingHandledMarker::PullRequest { html_url: pull_requests[j].clone() });
            j = j + 1;
        }
        proof {
            let views = marker_views(r@);
            assert forall|marker: MarkerView| views.to_set().contains(marker) == self@.contains(
                marker,
            ) by {
                match marker {
                    MarkerView::Mention(url) => {
                        if a.contains(url) {
                            let k = choose|k: int| 0 <= k < a.len() && a[k] == url;
                            assert(views[k] == r@[k]@);
                        }
                        if views.contains(marker) {
                            let k = choose|k: int| 0 <= k < views.len() && views[k] == marker;
                            assert(views[k] == r@[k]@);
                            assert(a[k] == url);
                        }
                    },
                    MarkerView::PullRequest(url) => {
                        if b.contains(url) {
                            let k = choose|k: int| 0 <= k < b.len() && b[k] == url;
                            assert(views[k + a.len()] == r@[k + a.len()]@);
                        }
                        if views.contains(marker) {
                            let k = choose|k: int| 0 <= k < views.len() && views[k] == marker;
                            assert(views[k] == r@[k]@);
                            assert(b[k - a.len()] == url);
                        }
                    },
                }
            }
            assert(views.to_set() =~= self@);
        }
        r
    }
}

/// Of what is written down, everything reads back: a ledger is determined by the
/// lists of its addresses, and neither their order nor a repetition matters.
pub proof fn law_ledger_is_its_addresses(
    mentions: Seq<Seq<char>>,
    pull_requests: Seq<Seq<char>>,
    other_mentions: Seq<Seq<char>>,
    other_pull_requests: Seq<Seq<char>>,
)
    ensures
        (markers_of(mentions, pull_requests) == markers_of(other_mentions, other_pull_requests))
            == (mentions.to_set() == other_mentions.to_set() && pull_requests.to_set()
            == other_pull_requests.to_set()),
{
    let a = markers_of(mentions, pull_requests);
    let b = markers_of(other_mentions, other_pull_requests);
    if a == b {
        assert forall|url: Seq<char>| mentions.to_set().contains(url)
            == other_mentions.to_set().contains(url) by {
            assert(a.contains(MarkerView::Mention(url)) == b.contains(MarkerView::Mention(url)));
        }
        assert forall|url: Seq<char>| pull_requests.to_set().contains(url)
            == other_pull_requests.to_set().contains(url) by {
            assert(a.contains(MarkerView::PullRequest(url)) == b.contains(
                MarkerView::PullRequest(url),
            ));
        }
        assert(mentions.to_set() =~= other_mentions.to_set());
        assert(pull_requests.to_set() =~= other_pull_requests.to_set());
    } else if mentions.to_set() == other_mentions.to_set() && pull_requests.to_set()
        == other_pull_requests.to_set() {
        assert forall|marker: MarkerView| a.contains(marker) == b.contains(marker) by {
            match marker {
                MarkerView::Mention(url) => {
                    assert(mentions.to_set().contains(url) == mentions.contains(url));
                    assert(other_mentions.to_set().contains(url) == other_mentions.contains(url));
                },
                MarkerView::PullRequest(url) => {
                    assert(pull_requests.to_set().contains(url) == pull_requests.contains(url));
                    assert(other_pull_requests.to_set().contains(url)
                        == other_pull_requests.contains(url));
                },
            }
        }
        assert(a =~= b);
    }
}

/// A store that lasts as long as the process.
#[derive(Debug, Eq, PartialEq)]
pub struct MemoryPendingHandledMarkerStore {
    ledger: PendingHandledMarkerLedger,
}

impl MemoryPendingHandledMarkerStore {
    pub fn new() -> (r: MemoryPendingHandledMarkerStore)
        ensures
            r.markers() == Set::<MarkerView>::empty(),
    {
        MemoryPendingHandledMarkerStore { ledger: PendingHandledMarkerLedger::new() }
    }
}

impl PendingHandledMarkerStore for MemoryPendingHandledMarkerStore {
    closed spec fn markers(&self) -> Set<MarkerView> {
        self.ledger@
    }

    fn record(&mut self, marker: &PendingHandledMarker) -> (r: Result<(), StoreError>)
        ensures
            r is Ok,
    {
        self.ledger.insert(marker);
        Ok(())
    }

    fn contains(&self, marker: &PendingHandledMarker) -> (r: Result<bool, StoreError>)
        ensures
            r is Ok,
    {
        Ok(self.ledger.contains(marker))
    }

    fn remove(&mut self, marker: &PendingHandledMarker) -> (r: Result<(), StoreError>)
        ensures
            r is Ok,
    {
        self.ledger.remove(marker);
        Ok(())
    }

    fn pending(&self) -> (r: Result<Vec<PendingHandledMarker>, StoreError>)
        ensures
            r is Ok,
    {
        Ok(self.ledger.pending())
    }
}

/// A store in a file.
#[derive(Debug, Eq, PartialEq)]
pub struct FilePendingHandledMarkerStore {
    path: String,
}

impl FilePendingHandledMarkerStore {
    pub closed spec fn path_text(self) -> Seq<char> {
        self.path@
    }

    pub fn new(path: &str) -> (r: FilePendingHandledMarkerStore)
        ensures
            r.path_text() == path@,
    {
        FilePendingHandledMarkerStore { path: path.to_owned() }
    }

    pub fn path(&self) -> (r: &str)
        ensures
            r@ == self.path_text(),
    {
        self.path.as_str()
    }
}

/// The name of the file that is written before it takes the ledger's place.
pub fn temp_file_name(file_name: Option<&str>) -> (r: String)
    ensures
        r@ == "."@ + (match file_name {
            Some(name) => name@,
            None => "maid-pending-handled-markers.json"@,
        }) + ".tmp"@,
{
    match file_name {
        Some(name) => text::cat3(".", name, ".tmp"),
        None => text::cat3(".", "maid-pending-handled-markers.json", ".tmp"),
    }
}

/// The mark of a mention is owed at the comment's address, that of a pull request
/// at its page; and a list of addresses stands for the marks owed at them.
pub proof fn law_where_marks_are_owed(
    mention: CommentMention,
    pr: PullRequest,
    mentions: Seq<Seq<char>>,
    pull_requests: Seq<Seq<char>>,
    url: Seq<char>,
)
    ensures
        PendingHandledMarker::of_mention(mention)@ == MarkerView::Mention(mention.api_url@),
        PendingHandledMarker::of_pull_request(pr)@ == MarkerView::PullRequest(pr.html_url@),
        markers_of(mentions, pull_requests).contains(MarkerView::Mention(url))
            <==> mentions.contains(url),
        markers_of(mentions, pull_requests).contains(MarkerView::PullRequest(url))
            <==> pull_requests.contains(url),
{
}

/// A mark is told by its kind and its address, and a list of marks is taken mark by
/// mark.
pub proof fn law_marks_are_told_apart(
    api_url: String,
    html_url: String,
    list: Seq<PendingHandledMarker>,
    i: int,
)
    ensures
        (PendingHandledMarker::Mention { api_url })@ == MarkerView::Mention(api_url@),
        (PendingHandledMarker::PullRequest { html_url })@ == MarkerView::PullRequest(html_url@),
        marker_views(list).len() == list.len(),
        0 <= i < list.len() ==> marker_views(list)[i] == list[i]@,
{
}

/// What is written goes first to a hidden file beside the one that is meant.
pub proof fn law_where_marks_are_written_first(name: &str, r: String, unnamed: String)
    requires
        call_ensures(temp_file_name, (Some(name),), r),
        call_ensures(temp_file_name, (None,), unnamed),
    ensures
        r@ == "."@ + name@ + ".tmp"@,
        unnamed@ == "."@ + "maid-pending-handled-markers.json"@ + ".tmp"@,
{
}

/// Owing a mark, or no longer owing it, changes nothing about the others.
pub proof fn law_marks_come_and_go_alone(marker: &PendingHandledMarker)
    ensures
        forall|ledger: &mut PendingHandledMarkerLedger| #[trigger]
            call_ensures(PendingHandledMarkerLedger::insert, (ledger, marker), ()) ==> (*final(ledger))@ == (*ledger)@.insert(marker@),
        forall|ledger: &mut PendingHandledMarkerLedger| #[trigger]
            call_ensures(PendingHandledMarkerLedger::remove, (ledger, marker), ()) ==> (*final(ledger))@ == (*ledger)@.remove(marker@),
{
}

} // verus!
