use crate::fetch::{
    result_model, step_spec, AccountView, Action, ActionModel, ErrorModel, Event, Fetch,
    FetchError, FetchModel, ViewModel,
};
use crate::key::key_of_text;
use vstd::prelude::*;

verus! {

/// One account to fetch: its key in base58 and whether to decode raw bytes as a mint.
#[derive(Debug)]
pub struct BatchEntry {
    pub key_text: String,
    pub decode_as_mint: bool,
}

/// The error that starting a fetch of `key_text` gives, if any.
pub open spec fn start_error(key_text: Seq<char>, n_endpoints: nat) -> Option<ErrorModel> {
    if key_of_text(key_text) is None {
        Some(ErrorModel::InvalidKey)
    } else if n_endpoints == 0 {
        Some(ErrorModel::NoEndpoints)
    } else {
        None
    }
}

/// Fetches a list of accounts one after another over the same endpoints. A
/// failure on one entry is recorded as its result and the next entry follows;
/// results come in the order of the entries.
pub struct Batch {
    entries: Vec<BatchEntry>,
    n_endpoints: usize,
    current: Option<Fetch>,
    results: Vec<Result<AccountView, FetchError>>,
}

impl Batch {
    /// The entries' key texts.
    pub closed spec fn keys(&self) -> Seq<Seq<char>> {
        self.entries@.map_values(|e: BatchEntry| e.key_text@)
    }

    /// How many endpoints each fetch may try.
    pub closed spec fn endpoint_count(&self) -> nat {
        self.n_endpoints as nat
    }

    /// The results recorded so far, one per entry from the first.
    pub closed spec fn results(&self) -> Seq<Result<ViewModel, ErrorModel>> {
        self.results@.map_values(|r: Result<AccountView, FetchError>| result_model(r))
    }

    /// The fetch under way, if any; it is for the entry after the recorded results.
    pub closed spec fn pending(&self) -> Option<FetchModel> {
        match self.current {
            Some(f) => Some(f@),
            None => None,
        }
    }

    /// At most one result per entry; a fetch under way is for the next entry
    /// and still waits for an answer.
    pub closed spec fn wf(&self) -> bool {
        &&& self.results.len() <= self.entries.len()
        &&& match self.current {
            Some(f) => {
                &&& f@.wf()
                &&& f@.phase != crate::fetch::Phase::Finished
                &&& f@.n_endpoints == self.n_endpoints
                &&& self.results.len() < self.entries.len()
                &&& key_of_text(self.entries@[self.results.len() as int].key_text@) == Some(f@.key)
            },
            None => true,
        }
    }

    /// A batch over `entries`, with `n_endpoints` endpoints for each fetch.
    pub fn new(entries: Vec<BatchEntry>, n_endpoints: usize) -> (b: Batch)
        ensures
            b.wf(),
            b.keys() == entries@.map_values(|e: BatchEntry| e.key_text@),
            b.endpoint_count() == n_endpoints,
            b.results().len() == 0,
            b.pending() is None,
    {
        Batch { entries, n_endpoints, current: None, results: Vec::new() }
    }

    /// Starts the fetches of the following entries until one sends a request;
    /// an entry whose fetch cannot start is recorded with its error. `None`
    /// once every entry has a result.
    pub fn next_request(&mut self) -> (r: Option<(usize, Action)>)
        requires
            old(self).wf(),
            old(self).pending() is None,
        ensures
            final(self).wf(),
            final(self).keys() == old(self).keys(),
            final(self).endpoint_count() == old(self).endpoint_count(),
            final(self).results().len() >= old(self).results().len(),
            final(self).results().subrange(0, old(self).results().len() as int)
                == old(self).results(),
            forall|k: int|
                old(self).results().len() <= k < final(self).results().len() ==> start_error(
                    #[trigger] final(self).keys()[k],
                    final(self).endpoint_count(),
                ) is Some && final(self).results()[k] == Err::<ViewModel, ErrorModel>(
                    start_error(final(self).keys()[k], final(self).endpoint_count())->Some_0,
                ),
            match r {
                Some((i, a)) => {
                    &&& i == final(self).results().len()
                    &&& i < final(self).keys().len()
                    &&& start_error(final(self).keys()[i as int], final(self).endpoint_count()) is None
                    &&& final(self).pending() matches Some(p) && p.phase
                        == crate::fetch::Phase::AwaitParsed && p.endpoint == 0 && key_of_text(
                        final(self).keys()[i as int],
                    ) == Some(p.key)
                    &&& a@ == (ActionModel::RequestParsed { endpoint: 0, key: final(self).pending()->Some_0.key })
                },
                None => {
                    &&& final(self).results().len() == final(self).keys().len()
                    &&& final(self).pending() is None
                },
            },
    {
        let ghost old_results = self.results();
        while self.results.len() < self.entries.len()
            invariant
                self.wf(),
                self.current is None,
                self.entries == old(self).entries,
                self.n_endpoints == old(self).n_endpoints,
                self.results().len() >= old_results.len(),
                self.results().subrange(0, old_results.len() as int) == old_results,
                old_results == old(self).results(),
                forall|k: int|
                    old_results.len() <= k < self.results().len() ==> start_error(
                        #[trigger] self.keys()[k],
                        self.endpoint_count(),
                    ) is Some && self.results()[k] == Err::<ViewModel, ErrorModel>(
                        start_error(self.keys()[k], self.endpoint_count())->Some_0,
                    ),
            decreases self.entries.len() - self.results.len(),
        {
            let i = self.results.len();
            let entry = &self.entries[i];
            assert(self.keys()[i as int] == entry.key_text@);
            match Fetch::start(entry.key_text.as_str(), self.n_endpoints, entry.decode_as_mint) {
                Ok((f, a)) => {
                    self.current = Some(f);
                    return Some((i, a));
                },
                Err(e) => {
                    let ghost before = self.results();
                    self.results.push(Err(e));
                    assert(self.results() =~= before.push(self.results()[i as int]));
                },
            }
        }
        None
    }

    /// Takes the answer to the pending request. When it ends the entry's
    /// fetch, the result is recorded and the next entry is started.
    pub fn answer(&mut self, e: Event) -> (r: Option<(usize, Action)>)
        requires
            old(self).wf(),
            old(self).pending() matches Some(p) && p.accepts(e@),
        ensures
            final(self).wf(),
            final(self).keys() == old(self).keys(),
            final(self).endpoint_count() == old(self).endpoint_count(),
            ({
                let (next, act) = step_spec(old(self).pending()->Some_0, e@);
                let n = old(self).results().len();
                match act {
                    ActionModel::Done(res) => {
                        &&& final(self).results().len() > n
                        &&& final(self).results().subrange(0, n as int) == old(self).results()
                        &&& final(self).results()[n as int] == res
                        &&& forall|k: int|
                            n < k < final(self).results().len() ==> start_error(
                                #[trigger] final(self).keys()[k],
                                final(self).endpoint_count(),
                            ) is Some && final(self).results()[k] == Err::<ViewModel, ErrorModel>(
                                start_error(final(self).keys()[k], final(self).endpoint_count())->Some_0,
                            )
                    },
                    _ => {
                        &&& final(self).results() == old(self).results()
                        &&& final(self).pending() == Some(next)
                        &&& r matches Some((i, a)) && i == n && a@ == act
                    },
                }
            }),
            match r {
                Some((i, a)) => {
                    &&& i == final(self).results().len()
                    &&& i < final(self).keys().len()
                    &&& final(self).pending() matches Some(p) && key_of_text(
                        final(self).keys()[i as int],
                    ) == Some(p.key)
                    &&& !(a@ is Done)
                },
                None => {
                    &&& final(self).results().len() == final(self).keys().len()
                    &&& final(self).pending() is None
                },
            },
    {
        let mut f = self.current.take().unwrap();
        let a = f.step(e);
        match a {
            Action::Done(res) => {
                let ghost before = self.results();
                self.results.push(res);
                assert(self.results() =~= before.push(self.results()[before.len() as int]));
                let ghost recorded = self.results();
                let r = self.next_request();
                assert(self.results()[before.len() as int] == self.results().subrange(
                    0,
                    recorded.len() as int,
                )[before.len() as int]);
                r
            },
            _ => {
                let i = self.results.len();
                self.current = Some(f);
                Some((i, a))
            },
        }
    }

    /// Whether every entry has a result.
    pub fn is_done(&self) -> (r: bool)
        requires
            self.wf(),
        ensures
            r == (self.pending() is None && self.results().len() == self.keys().len()),
    {
        self.current.is_none() && self.results.len() == self.entries.len()
    }

    /// The results, one per entry in the entries' order.
    pub fn into_results(self) -> (r: Vec<Result<AccountView, FetchError>>)
        ensures
            r@.map_values(|x: Result<AccountView, FetchError>| result_model(x)) == self.results(),
    {
        self.results
    }
}

} // verus!
