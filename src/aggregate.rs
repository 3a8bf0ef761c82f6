//! Draining every page of the authenticated user's repositories into one
//! ordered list of `(name, url)` records.
//!
//! The caller fetches pages; an [`Aggregator`] is told what each fetch gave
//! and answers whether to fetch the next page, to stop with the full list, or
//! to give up with the failure.
use vstd::prelude::*;

verus! {

/// The number of repositories asked for per page: the most the service
/// accepts.
pub const PAGE_SIZE: u8 = 100;

/// The address whose parsed form is recorded for a repository that the
/// service lists without a URL.
pub const PLACEHOLDER_BASE: &'static str = "https://github.com";

/// The serialization of `s` once parsed as a URL, or `None` where `s` is no
/// URL.
pub uninterp spec fn url_serialization(s: Seq<char>) -> Option<Seq<char>>;

/// Relies on `url::Url::parse`, and on `From<Url> for String`, which hands
/// back the parsed URL's serialization.
#[verifier::external_body]
fn parse_url(s: &str) -> (r: Option<String>)
    ensures
        url_serialization(s@) == match r {
            Some(t) => Some(t@),
            None => None,
        },
{
    url::Url::parse(s).ok().map(String::from)
}

/// The URL recorded for a repository that the service lists without one: the
/// parsed form of [`PLACEHOLDER_BASE`].
pub open spec fn placeholder_url() -> Seq<char> {
    match url_serialization(PLACEHOLDER_BASE@) {
        Some(t) => t,
        None => Seq::empty(),
    }
}

/// One repository as a page lists it: its name, and its URL where the service
/// gave one.
#[derive(Debug, Clone)]
pub struct RepoItem {
    pub name: String,
    pub url: Option<String>,
}

/// What one page fetch gave.
#[derive(Debug)]
pub enum PageOutcome {
    /// A page of repositories was delivered.
    Page(Vec<RepoItem>),
    /// The previous page had no link to a next one.
    End,
    /// The fetch failed (transport or authentication).
    Failed(String),
}

/// A record in view: the repository's name and URL.
pub type RecordView = (Seq<char>, Seq<char>);

/// The record a listed repository becomes: its URL, or the placeholder when
/// it has none.
pub open spec fn record_of(item: RepoItem) -> RecordView {
    (
        item.name@,
        match item.url {
            Some(u) => u@,
            None => placeholder_url(),
        },
    )
}

/// The records of one page, in delivery order.
pub open spec fn page_records(items: Seq<RepoItem>) -> Seq<RecordView> {
    items.map_values(|i: RepoItem| record_of(i))
}

/// The view of a list of records.
pub open spec fn records_view(v: Seq<(String, String)>) -> Seq<RecordView> {
    v.map_values(|p: (String, String)| (p.0@, p.1@))
}

/// Where a run of page fetches stands.
pub enum RunState {
    /// Still collecting: the records gathered so far.
    Collecting(Seq<RecordView>),
    /// Finished with the complete list.
    Complete(Seq<RecordView>),
    /// Aborted by a failed fetch, with its message.
    Aborted(Seq<char>),
}

/// Feeding `outcomes[i..]` to an aggregation that has gathered `acc`.
pub open spec fn run_from(outcomes: Seq<PageOutcome>, i: int, acc: Seq<RecordView>) -> RunState
    decreases outcomes.len() - i,
{
    if i < 0 || i >= outcomes.len() {
        RunState::Collecting(acc)
    } else {
        match outcomes[i] {
            PageOutcome::Page(items) => run_from(outcomes, i + 1, acc + page_records(items@)),
            PageOutcome::End => RunState::Complete(acc),
            PageOutcome::Failed(e) => RunState::Aborted(e@),
        }
    }
}

/// Where an aggregation stands after the fetches `outcomes`, from the first.
pub open spec fn run(outcomes: Seq<PageOutcome>) -> RunState {
    run_from(outcomes, 0, Seq::empty())
}

/// The records of the first `k` outcomes, each of them a page, concatenated.
pub open spec fn pages_records(outcomes: Seq<PageOutcome>, k: int) -> Seq<RecordView>
    decreases k,
{
    if k <= 0 {
        Seq::empty()
    } else {
        pages_records(outcomes, k - 1) + match outcomes[k - 1] {
            PageOutcome::Page(items) => page_records(items@),
            _ => Seq::empty(),
        }
    }
}

/// The number of repositories on the first `k` outcomes, each of them a page.
pub open spec fn pages_items(outcomes: Seq<PageOutcome>, k: int) -> int
    decreases k,
{
    if k <= 0 {
        0
    } else {
        pages_items(outcomes, k - 1) + match outcomes[k - 1] {
            PageOutcome::Page(items) => items.len() as int,
            _ => 0,
        }
    }
}

/// Whether each of the first `k` outcomes is a delivered page.
pub open spec fn all_pages(outcomes: Seq<PageOutcome>, k: int) -> bool {
    forall|i: int| 0 <= i < k ==> (#[trigger] outcomes[i]) is Page
}

/// What an [`Aggregator`] says after it has been told of one fetch.
pub enum AggregatorStep {
    /// Fetch the next page and report it to this aggregator.
    Continue(Aggregator),
    /// No more pages: the complete list, in delivery order.
    Done(Vec<(String, String)>),
    /// A fetch failed: nothing gathered is returned.
    Failed(String),
}

/// The state of one aggregation: the records gathered from the pages seen so
/// far.
pub struct Aggregator {
    records: Vec<(String, String)>,
    seen: Ghost<Seq<PageOutcome>>,
    fallback: String,
}

impl Aggregator {
    /// The fetches reported so far, all of them delivered pages.
    pub closed spec fn seen(&self) -> Seq<PageOutcome> {
        self.seen@
    }

    /// The records gathered so far.
    pub closed spec fn gathered(&self) -> Seq<RecordView> {
        records_view(self.records@)
    }

    /// The records gathered are those of the pages seen, in order.
    pub closed spec fn wf(&self) -> bool {
        &&& url_serialization(PLACEHOLDER_BASE@) == Some(self.fallback@)
        &&& all_pages(self.seen@, self.seen@.len() as int)
        &&& records_view(self.records@) == pages_records(self.seen@, self.seen@.len() as int)
    }

    /// An aggregation before the first page is fetched; `None` only where
    /// [`PLACEHOLDER_BASE`] does not parse as a URL.
    pub fn new() -> (r: Option<Aggregator>)
        ensures
            r is Some <==> url_serialization(PLACEHOLDER_BASE@) is Some,
            r matches Some(a) ==> {
                &&& a.wf()
                &&& a.seen() == Seq::<PageOutcome>::empty()
                &&& a.gathered() == Seq::<RecordView>::empty()
            },
    {
        match parse_url(PLACEHOLDER_BASE) {
            Some(fallback) => {
                let r = Aggregator { records: Vec::new(), seen: Ghost(Seq::empty()), fallback };
                assert(records_view(r.records@) =~= Seq::<RecordView>::empty());
                assert(pages_records(r.seen@, 0) =~= Seq::<RecordView>::empty());
                Some(r)
            },
            None => None,
        }
    }

    /// The record a listed repository becomes: its URL, or the placeholder
    /// when the service gave none.
    pub fn record_for(&self, item: &RepoItem) -> (r: (String, String))
        requires
            self.wf(),
        ensures
            (r.0@, r.1@) == record_of(*item),
    {
        Self::record_with(item, &self.fallback)
    }

    fn record_with(item: &RepoItem, fallback: &String) -> (r: (String, String))
        requires
            url_serialization(PLACEHOLDER_BASE@) == Some(fallback@),
        ensures
            (r.0@, r.1@) == record_of(*item),
    {
        let url = match &item.url {
            Some(u) => u.clone(),
            None => fallback.clone(),
        };
        (item.name.clone(), url)
    }

    /// Takes in what the latest fetch gave.
    ///
    /// A page has its records appended, in order, and the next page is asked
    /// for; the end of the pages gives the whole list; a failed fetch gives
    /// the failure and drops everything gathered.
    pub fn handle(self, outcome: PageOutcome) -> (r: AggregatorStep)
        requires
            self.wf(),
        ensures
            run(self.seen().push(outcome)) == match r {
                AggregatorStep::Continue(a) => RunState::Collecting(a.gathered()),
                AggregatorStep::Done(v) => RunState::Complete(records_view(v@)),
                AggregatorStep::Failed(e) => RunState::Aborted(e@),
            },
            r is Continue <==> outcome is Page,
            r is Done <==> outcome is End,
            r is Failed <==> outcome is Failed,
            match r {
                AggregatorStep::Continue(a) => {
                    &&& a.wf()
                    &&& a.seen() == self.seen().push(outcome)
                    &&& a.gathered() == self.gathered() + page_records(
                        match outcome {
                            PageOutcome::Page(items) => items@,
                            _ => Seq::empty(),
                        },
                    )
                },
                AggregatorStep::Done(v) => records_view(v@) == self.gathered(),
                AggregatorStep::Failed(e) => outcome == PageOutcome::Failed(e),
            },
    {
        let ghost outs = self.seen@.push(outcome);
        proof {
            let n = self.seen@.len() as int;
            assert(outs.subrange(0, n) =~= self.seen@);
            assert(self.seen@.subrange(0, n) =~= self.seen@);
            lemma_pages_records_prefix(outs, self.seen@, n);
            lemma_run_over_pages(outs, n);
        }
        match &outcome {
            PageOutcome::Page(items) => {
                let fallback = self.fallback;
                let mut records = self.records;
                let ghost before = records@;
                let mut i: usize = 0;
                while i < items.len()
                    invariant
                        i <= items.len(),
                        url_serialization(PLACEHOLDER_BASE@) == Some(fallback@),
                        records_view(records@) == records_view(before) + page_records(
                            items@.subrange(0, i as int),
                        ),
                    decreases items.len() - i,
                {
                    let rec = Self::record_with(&items[i], &fallback);
                    let ghost prev = records@;
                    records.push(rec);
                    proof {
                        assert(records_view(records@) =~= records_view(prev).push(
                            record_of(items@[i as int]),
                        ));
                        assert(page_records(items@.subrange(0, i as int + 1)) =~= page_records(
                            items@.subrange(0, i as int),
                        ).push(record_of(items@[i as int])));
                    }
                    i = i + 1;
                }
                assert(items@.subrange(0, i as int) =~= items@);
                let a = Aggregator { records, seen: Ghost(outs), fallback };
                proof {
                    let n = self.seen@.len() as int;
                    assert(outs[n] == outcome);
                    assert(pages_records(outs, n + 1) == pages_records(outs, n) + page_records(
                        items@,
                    ));
                    lemma_run_over_pages(outs, n + 1);
                }
                AggregatorStep::Continue(a)
            },
            PageOutcome::End => {
                assert(outs[self.seen@.len() as int] == outcome);
                AggregatorStep::Done(self.records)
            },
            PageOutcome::Failed(e) => {
                assert(outs[self.seen@.len() as int] == outcome);
                AggregatorStep::Failed(e.clone())
            },
        }
    }
}

/// The records of pages depend only on those pages.
proof fn lemma_pages_records_prefix(a: Seq<PageOutcome>, b: Seq<PageOutcome>, k: int)
    requires
        0 <= k <= a.len(),
        k <= b.len(),
        a.subrange(0, k) == b.subrange(0, k),
    ensures
        pages_records(a, k) == pages_records(b, k),
        pages_items(a, k) == pages_items(b, k),
    decreases k,
{
    if k > 0 {
        assert(a[k - 1] == a.subrange(0, k)[k - 1]);
        assert(b[k - 1] == b.subrange(0, k)[k - 1]);
        assert(a.subrange(0, k - 1) =~= a.subrange(0, k).subrange(0, k - 1));
        assert(b.subrange(0, k - 1) =~= b.subrange(0, k).subrange(0, k - 1));
        lemma_pages_records_prefix(a, b, k - 1);
    }
}

/// Running over `k` delivered pages gathers exactly their records.
proof fn lemma_run_over_pages(outcomes: Seq<PageOutcome>, k: int)
    requires
        0 <= k <= outcomes.len(),
        all_pages(outcomes, k),
    ensures
        run(outcomes) == run_from(outcomes, k, pages_records(outcomes, k)),
        pages_records(outcomes, k).len() == pages_items(outcomes, k),
    decreases k,
{
    if k > 0 {
        lemma_run_over_pages(outcomes, k - 1);
        assert(outcomes[k - 1] is Page);
        match outcomes[k - 1] {
            PageOutcome::Page(items) => {
                assert(run_from(outcomes, k - 1, pages_records(outcomes, k - 1)) == run_from(
                    outcomes,
                    k,
                    pages_records(outcomes, k - 1) + page_records(items@),
                ));
            },
            _ => {},
        }
    } else {
        assert(pages_records(outcomes, 0) =~= Seq::<RecordView>::empty());
    }
}

/// Where the records of the first `k` pages lie: the length of their
/// concatenation is their item count, and item `j` of page `i` is record
/// `pages_items(outcomes, i) + j`.
proof fn lemma_pages_layout(outcomes: Seq<PageOutcome>, k: int)
    requires
        0 <= k <= outcomes.len(),
        all_pages(outcomes, k),
    ensures
        pages_records(outcomes, k).len() == pages_items(outcomes, k),
        forall|i: int|
            0 <= i < k ==> 0 <= pages_items(outcomes, i) && pages_items(outcomes, i)
                + (#[trigger] outcomes[i])->Page_0@.len() <= pages_items(outcomes, k),
        forall|i: int, j: int|
            0 <= i < k && 0 <= j < outcomes[i]->Page_0@.len() ==> pages_records(outcomes, k)[pages_items(
                outcomes,
                i,
            ) + j] == #[trigger] record_of(outcomes[i]->Page_0@[j]),
    decreases k,
{
    if k > 0 {
        lemma_pages_layout(outcomes, k - 1);
        lemma_pages_items_monotone(outcomes, k - 1);
        assert(outcomes[k - 1] is Page);
        let prefix = pages_records(outcomes, k - 1);
        let last = page_records(outcomes[k - 1]->Page_0@);
        assert(pages_records(outcomes, k) == prefix + last);
        assert forall|i: int|
            0 <= i < k implies 0 <= pages_items(outcomes, i) && pages_items(outcomes, i)
                + (#[trigger] outcomes[i])->Page_0@.len() <= pages_items(outcomes, k) by {
            lemma_pages_items_monotone(outcomes, i);
            assert(pages_items(outcomes, 0) <= pages_items(outcomes, i));
            assert(pages_items(outcomes, k) == pages_items(outcomes, k - 1) + last.len());
        }
        assert forall|i: int, j: int|
            0 <= i < k && 0 <= j < outcomes[i]->Page_0@.len() implies pages_records(
                outcomes,
                k,
            )[pages_items(outcomes, i) + j] == #[trigger] record_of(outcomes[i]->Page_0@[j]) by {
            lemma_pages_items_monotone(outcomes, i);
            assert(pages_items(outcomes, 0) <= pages_items(outcomes, i));
            assert(pages_items(outcomes, k) == pages_items(outcomes, k - 1) + last.len());
            if i < k - 1 {
                assert(prefix[pages_items(outcomes, i) + j] == record_of(outcomes[i]->Page_0@[j]));
                assert(pages_items(outcomes, i) + j < pages_items(outcomes, k - 1));
                assert(prefix.len() == pages_items(outcomes, k - 1));
                assert((prefix + last)[pages_items(outcomes, i) + j] == prefix[pages_items(
                    outcomes,
                    i,
                ) + j]);
            } else {
                assert(i == k - 1);
                assert(last.len() == outcomes[i]->Page_0@.len());
                assert(last[j] == record_of(outcomes[i]->Page_0@[j]));
                assert(pages_records(outcomes, k)[pages_items(outcomes, i) + j] == last[j]);
            }
        }
    }
}

/// The item count of the pages grows with the number of pages.
proof fn lemma_pages_items_monotone(outcomes: Seq<PageOutcome>, k: int)
    requires
        0 <= k <= outcomes.len(),
        all_pages(outcomes, k),
    ensures
        forall|i: int| 0 <= i <= k ==> #[trigger] pages_items(outcomes, i) <= pages_items(outcomes, k),
    decreases k,
{
    if k > 0 {
        lemma_pages_items_monotone(outcomes, k - 1);
        assert(outcomes[k - 1] is Page);
    }
}

/// Draining pages loses and reorders nothing: when `k` pages are followed by
/// the end of the pages, the aggregation completes with the records of those
/// pages concatenated, as many as they list, each page's records after those
/// of the pages before it and in the page's own order.
pub proof fn lemma_aggregate_keeps_every_record(outcomes: Seq<PageOutcome>, k: int)
    requires
        0 <= k < outcomes.len(),
        all_pages(outcomes, k),
        outcomes[k] is End,
    ensures
        run(outcomes) == RunState::Complete(pages_records(outcomes, k)),
        pages_records(outcomes, k).len() == pages_items(outcomes, k),
        forall|i: int|
            0 <= i < k ==> 0 <= pages_items(outcomes, i) && pages_items(outcomes, i)
                + (#[trigger] outcomes[i])->Page_0@.len() <= pages_items(outcomes, k),
        forall|i: int, j: int|
            0 <= i < k && 0 <= j < outcomes[i]->Page_0@.len() ==> pages_records(outcomes, k)[pages_items(
                outcomes,
                i,
            ) + j] == #[trigger] record_of(outcomes[i]->Page_0@[j]),
{
    lemma_run_over_pages(outcomes, k);
    lemma_pages_layout(outcomes, k);
}

/// A failed fetch after any number of delivered pages aborts the whole
/// aggregation with that failure: no partial list is ever returned.
pub proof fn lemma_failed_fetch_aborts(outcomes: Seq<PageOutcome>, k: int)
    requires
        0 <= k < outcomes.len(),
        all_pages(outcomes, k),
        outcomes[k] is Failed,
    ensures
        run(outcomes) == RunState::Aborted(outcomes[k]->Failed_0@),
        !(run(outcomes) is Complete),
{
    lemma_run_over_pages(outcomes, k);
}

/// A repository listed without a URL is kept, not dropped: after its page is
/// gathered onto `acc`, every item of the page has a record, and the record
/// of one without a URL holds its name and the placeholder.
pub proof fn lemma_missing_url_kept(acc: Seq<RecordView>, items: Seq<RepoItem>, j: int)
    requires
        0 <= j < items.len(),
        items[j].url is None,
    ensures
        (acc + page_records(items)).len() == acc.len() + items.len(),
        (acc + page_records(items))[acc.len() + j] == (items[j].name@, placeholder_url()),
{
}

} // verus!
