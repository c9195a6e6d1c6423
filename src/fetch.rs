use crate::key::{key_of_text, AccountKey, MAX_KEY_TEXT_LEN};
use crate::mint::{decode_mint, mint_of_bytes, MintError, MintModel, MintRecord};
use vstd::prelude::*;

verus! {

/// An account as the service stores it.
#[derive(Debug)]
pub struct RawAccount {
    pub lamports: u64,
    pub owner: AccountKey,
    pub executable: bool,
    pub data: Vec<u8>,
}

/// What a raw account holds, with keys and data as sequences.
pub struct RawModel {
    pub lamports: u64,
    pub owner: Seq<u8>,
    pub executable: bool,
    pub data: Seq<u8>,
}

impl View for RawAccount {
    type V = RawModel;

    open spec fn view(&self) -> RawModel {
        RawModel {
            lamports: self.lamports,
            owner: self.owner@,
            executable: self.executable,
            data: self.data@,
        }
    }
}

/// What a completed fetch found.
#[derive(Debug)]
pub enum AccountView {
    /// The service's structured document for the account.
    Parsed(String),
    /// The account's raw fields, with the local mint decode where it was asked for.
    Raw { account: RawAccount, mint: Option<Result<MintRecord, MintError>> },
    /// No account at the key.
    NotFound,
}

/// What an account view holds.
pub enum ViewModel {
    Parsed(Seq<char>),
    /// `mint` is `None` where no decode was asked for, `Some(None)` on a mismatch.
    Raw { account: RawModel, mint: Option<Option<MintModel>> },
    NotFound,
}

/// A local mint decode as a model: `None` for a mismatch.
pub open spec fn decode_model(r: Result<MintRecord, MintError>) -> Option<MintModel> {
    match r {
        Ok(m) => Some(m@),
        Err(_) => None,
    }
}

impl View for AccountView {
    type V = ViewModel;

    open spec fn view(&self) -> ViewModel {
        match self {
            AccountView::Parsed(d) => ViewModel::Parsed(d@),
            AccountView::Raw { account, mint } => ViewModel::Raw {
                account: account@,
                mint: match mint {
                    Some(r) => Some(decode_model(*r)),
                    None => None,
                },
            },
            AccountView::NotFound => ViewModel::NotFound,
        }
    }
}

/// Why a fetch produced no account view.
#[derive(Debug)]
pub enum FetchError {
    /// No endpoint was configured.
    NoEndpoints,
    /// The key text is not a valid base58 32-byte key.
    InvalidKey,
    /// Every endpoint failed; the message is the last endpoint's.
    Transport(String),
}

/// What a fetch error holds.
pub enum ErrorModel {
    NoEndpoints,
    InvalidKey,
    Transport(Seq<char>),
}

impl View for FetchError {
    type V = ErrorModel;

    open spec fn view(&self) -> ErrorModel {
        match self {
            FetchError::NoEndpoints => ErrorModel::NoEndpoints,
            FetchError::InvalidKey => ErrorModel::InvalidKey,
            FetchError::Transport(m) => ErrorModel::Transport(m@),
        }
    }
}

/// A fetch result as a model.
pub open spec fn result_model(r: Result<AccountView, FetchError>) -> Result<ViewModel, ErrorModel> {
    match r {
        Ok(v) => Ok(v@),
        Err(e) => Err(e@),
    }
}

/// What an endpoint answered to the last request.
#[derive(Debug)]
pub enum Event {
    /// The parsed request returned a structured document.
    Document(String),
    /// The account exists but the service did not parse it.
    Declined,
    /// The account does not exist.
    Missing,
    /// The raw request returned the account.
    Account(RawAccount),
    /// The request failed in transport.
    TransportFailed(String),
}

/// What an answer holds.
pub enum EventModel {
    Document(Seq<char>),
    Declined,
    Missing,
    Account(RawModel),
    TransportFailed(Seq<char>),
}

impl View for Event {
    type V = EventModel;

    open spec fn view(&self) -> EventModel {
        match self {
            Event::Document(d) => EventModel::Document(d@),
            Event::Declined => EventModel::Declined,
            Event::Missing => EventModel::Missing,
            Event::Account(a) => EventModel::Account(a@),
            Event::TransportFailed(m) => EventModel::TransportFailed(m@),
        }
    }
}

/// What the caller does next.
#[derive(Debug)]
pub enum Action {
    /// Ask endpoint `endpoint` for the account in parsed encoding.
    RequestParsed { endpoint: usize, key: AccountKey },
    /// Ask endpoint `endpoint` for the account's raw bytes.
    RequestRaw { endpoint: usize, key: AccountKey },
    /// The fetch is over.
    Done(Result<AccountView, FetchError>),
}

/// What an action holds.
pub enum ActionModel {
    RequestParsed { endpoint: nat, key: Seq<u8> },
    RequestRaw { endpoint: nat, key: Seq<u8> },
    Done(Result<ViewModel, ErrorModel>),
}

impl View for Action {
    type V = ActionModel;

    open spec fn view(&self) -> ActionModel {
        match self {
            Action::RequestParsed { endpoint, key } => ActionModel::RequestParsed {
                endpoint: *endpoint as nat,
                key: key@,
            },
            Action::RequestRaw { endpoint, key } => ActionModel::RequestRaw {
                endpoint: *endpoint as nat,
                key: key@,
            },
            Action::Done(r) => ActionModel::Done(result_model(*r)),
        }
    }
}

/// Where a fetch stands.
#[derive(Clone, Copy, Debug, PartialEq, Eq, Structural)]
pub enum Phase {
    AwaitParsed,
    AwaitRaw,
    Finished,
}

/// Where a fetch stands: its key, how many endpoints it may try, the one
/// it is on, and whether raw bytes are to be decoded as a mint.
pub struct FetchModel {
    pub key: Seq<u8>,
    pub n_endpoints: nat,
    pub endpoint: nat,
    pub phase: Phase,
    pub decode_as_mint: bool,
}

impl FetchModel {
    /// The current endpoint is one of those configured, and the key has 32 bytes.
    pub open spec fn wf(self) -> bool {
        self.endpoint < self.n_endpoints && self.key.len() == 32
    }

    /// The answers that the pending request can bring.
    pub open spec fn accepts(self, e: EventModel) -> bool {
        match self.phase {
            Phase::AwaitParsed => !(e is Account),
            Phase::AwaitRaw => !(e is Document || e is Declined),
            Phase::Finished => false,
        }
    }

    /// The same fetch in another phase.
    pub open spec fn with_phase(self, phase: Phase) -> FetchModel {
        FetchModel { phase, ..self }
    }
}

/// The fetch that starts on endpoint 0 with a parsed request.
pub open spec fn initial(key: Seq<u8>, n_endpoints: nat, decode_as_mint: bool) -> FetchModel {
    FetchModel { key, n_endpoints, endpoint: 0, phase: Phase::AwaitParsed, decode_as_mint }
}

/// One step of the fetch: the next state and action for an answer.
pub open spec fn step_spec(s: FetchModel, e: EventModel) -> (FetchModel, ActionModel) {
    match e {
        EventModel::Document(d) => (
            s.with_phase(Phase::Finished),
            ActionModel::Done(Ok(ViewModel::Parsed(d))),
        ),
        EventModel::Declined => (
            s.with_phase(Phase::AwaitRaw),
            ActionModel::RequestRaw { endpoint: s.endpoint, key: s.key },
        ),
        EventModel::Missing => (
            s.with_phase(Phase::Finished),
            ActionModel::Done(Ok(ViewModel::NotFound)),
        ),
        EventModel::Account(a) => (
            s.with_phase(Phase::Finished),
            ActionModel::Done(
                Ok(
                    ViewModel::Raw {
                        account: a,
                        mint: if s.decode_as_mint {
                            Some(mint_of_bytes(a.data))
                        } else {
                            None
                        },
                    },
                ),
            ),
        ),
        EventModel::TransportFailed(m) => if s.endpoint + 1 < s.n_endpoints {
            (
                FetchModel { endpoint: s.endpoint + 1, phase: Phase::AwaitParsed, ..s },
                ActionModel::RequestParsed { endpoint: s.endpoint + 1, key: s.key },
            )
        } else {
            (s.with_phase(Phase::Finished), ActionModel::Done(Err(ErrorModel::Transport(m))))
        },
    }
}

/// A fetch of one account over an ordered list of endpoints: try parsed,
/// fall back to raw bytes, optionally decode them as a mint, and move on to
/// the next endpoint when one fails in transport.
pub struct Fetch {
    key: AccountKey,
    n_endpoints: usize,
    endpoint: usize,
    phase: Phase,
    decode_as_mint: bool,
}

impl View for Fetch {
    type V = FetchModel;

    closed spec fn view(&self) -> FetchModel {
        FetchModel {
            key: self.key@,
            n_endpoints: self.n_endpoints as nat,
            endpoint: self.endpoint as nat,
            phase: self.phase,
            decode_as_mint: self.decode_as_mint,
        }
    }
}

impl Fetch {
    /// Checks the key and the endpoint count, and gives the first request.
    /// Nothing is requested where the key is invalid.
    pub fn start(key_text: &str, n_endpoints: usize, decode_as_mint: bool) -> (r: Result<
        (Fetch, Action),
        FetchError,
    >)
        ensures
            key_of_text(key_text@) is None <==> r matches Err(FetchError::InvalidKey),
            key_text@.len() > MAX_KEY_TEXT_LEN ==> r matches Err(FetchError::InvalidKey),
            key_of_text(key_text@) is Some && n_endpoints == 0 ==> r matches Err(
                FetchError::NoEndpoints,
            ),
            key_of_text(key_text@) is Some && n_endpoints > 0 ==> r is Ok,
            r matches Ok((f, a)) ==> {
                &&& f@ == initial(key_of_text(key_text@)->Some_0, n_endpoints as nat, decode_as_mint)
                &&& f@.wf()
                &&& a@ == ActionModel::RequestParsed { endpoint: 0, key: f@.key }
            },
    {
        let key = match AccountKey::parse(key_text) {
            Some(k) => k,
            None => return Err(FetchError::InvalidKey),
        };
        if n_endpoints == 0 {
            return Err(FetchError::NoEndpoints);
        }
        let f = Fetch { key, n_endpoints, endpoint: 0, phase: Phase::AwaitParsed, decode_as_mint };
        Ok((f, Action::RequestParsed { endpoint: 0, key }))
    }

    /// Takes the answer to the pending request and gives the next action.
    pub fn step(&mut self, e: Event) -> (a: Action)
        requires
            old(self)@.wf(),
            old(self)@.accepts(e@),
        ensures
            (final(self)@, a@) == step_spec(old(self)@, e@),
            final(self)@.wf(),
    {
        match e {
            Event::Document(d) => {
                self.phase = Phase::Finished;
                Action::Done(Ok(AccountView::Parsed(d)))
            },
            Event::Declined => {
                self.phase = Phase::AwaitRaw;
                Action::RequestRaw { endpoint: self.endpoint, key: self.key }
            },
            Event::Missing => {
                self.phase = Phase::Finished;
                Action::Done(Ok(AccountView::NotFound))
            },
            Event::Account(account) => {
                self.phase = Phase::Finished;
                let mint = if self.decode_as_mint {
                    Some(decode_mint(account.data.as_slice()))
                } else {
                    None
                };
                Action::Done(Ok(AccountView::Raw { account, mint }))
            },
            Event::TransportFailed(m) => {
                if self.endpoint + 1 < self.n_endpoints {
                    self.endpoint = self.endpoint + 1;
                    self.phase = Phase::AwaitParsed;
                    Action::RequestParsed { endpoint: self.endpoint, key: self.key }
                } else {
                    self.phase = Phase::Finished;
                    Action::Done(Err(FetchError::Transport(m)))
                }
            },
        }
    }

    /// Whether the fetch is over.
    pub fn is_finished(&self) -> (r: bool)
        ensures
            r == (self@.phase == Phase::Finished),
    {
        self.phase == Phase::Finished
    }

    /// Whether the pending request asks for raw bytes.
    pub fn awaits_raw(&self) -> (r: bool)
        ensures
            r == (self@.phase == Phase::AwaitRaw),
    {
        self.phase == Phase::AwaitRaw
    }
}

/// The actions that a fetch gives for a sequence of answers, from state `s`.
pub open spec fn run(s: FetchModel, es: Seq<EventModel>) -> Seq<ActionModel>
    decreases es.len(),
{
    if es.len() == 0 {
        Seq::empty()
    } else {
        let (next, a) = step_spec(s, es[0]);
        seq![a] + run(next, es.drop_first())
    }
}

/// Whether an action sends a request to endpoint `e`.
pub open spec fn requests(a: ActionModel, e: nat) -> bool {
    match a {
        ActionModel::RequestParsed { endpoint, .. } => endpoint == e,
        ActionModel::RequestRaw { endpoint, .. } => endpoint == e,
        ActionModel::Done(_) => false,
    }
}

/// Transport failures with the given messages, in order.
pub open spec fn failures(msgs: Seq<Seq<char>>) -> Seq<EventModel> {
    Seq::new(msgs.len(), |i: int| EventModel::TransportFailed(msgs[i]))
}

/// An account that the service parses is reported as parsed, and the fetch is
/// over: no raw request follows.
pub proof fn parsed_answer_ends_fetch(s: FetchModel, d: Seq<char>)
    requires
        s.wf(),
        s.phase == Phase::AwaitParsed,
    ensures
        step_spec(s, EventModel::Document(d)).1 == ActionModel::Done(Ok(ViewModel::Parsed(d))),
        step_spec(s, EventModel::Document(d)).0.phase == Phase::Finished,
        forall|e: EventModel| !step_spec(s, EventModel::Document(d)).0.accepts(e),
{
}

/// An account that the service declines to parse is asked for again in raw
/// form on the same endpoint, and reported with exactly the raw fields that
/// come back.
pub proof fn declined_answer_gives_raw(s: FetchModel, a: RawModel)
    requires
        s.wf(),
        s.phase == Phase::AwaitParsed,
    ensures
        ({
            let (next, act) = step_spec(s, EventModel::Declined);
            &&& act == ActionModel::RequestRaw { endpoint: s.endpoint, key: s.key }
            &&& next.accepts(EventModel::Account(a))
            &&& step_spec(next, EventModel::Account(a)).1 matches ActionModel::Done(
                Ok(ViewModel::Raw { account, .. }),
            ) && account == a && account.data.len() == a.data.len()
        }),
{
}

/// Raw data whose length is not that of a mint is reported as a mint
/// mismatch, and the raw fields are reported unchanged.
pub proof fn wrong_length_is_mint_mismatch(s: FetchModel, a: RawModel)
    requires
        s.wf(),
        s.phase == Phase::AwaitRaw,
        s.decode_as_mint,
        a.data.len() != crate::mint::MINT_LEN,
    ensures
        step_spec(s, EventModel::Account(a)).1 == ActionModel::Done(
            Ok(ViewModel::Raw { account: a, mint: Some(None) }),
        ),
{
}

proof fn lemma_run_len(s: FetchModel, es: Seq<EventModel>)
    ensures
        run(s, es).len() == es.len(),
    decreases es.len(),
{
    if es.len() > 0 {
        lemma_run_len(step_spec(s, es[0]).0, es.drop_first());
    }
}

proof fn lemma_run_never_goes_back(s: FetchModel, es: Seq<EventModel>, e: nat)
    requires
        e < s.endpoint,
    ensures
        forall|i: int| 0 <= i < run(s, es).len() ==> !requests(#[trigger] run(s, es)[i], e),
    decreases es.len(),
{
    if es.len() > 0 {
        let (next, a) = step_spec(s, es[0]);
        lemma_run_never_goes_back(next, es.drop_first(), e);
        assert forall|i: int| 0 <= i < run(s, es).len() implies !requests(
            #[trigger] run(s, es)[i],
            e,
        ) by {
            if i > 0 {
                assert(run(s, es)[i] == run(next, es.drop_first())[i - 1]);
            }
        }
    }
}

/// When the primary endpoint fails in transport and a fallback is configured,
/// the fetch asks the fallback next and never asks the primary again whatever
/// follows; a final answer of the fallback gives what the same answer of the
/// primary would have given.
pub proof fn failover_to_fallback(
    key: Seq<u8>,
    n_endpoints: nat,
    decode_as_mint: bool,
    msg: Seq<char>,
    rest: Seq<EventModel>,
)
    requires
        key.len() == 32,
        n_endpoints >= 2,
    ensures
        ({
            let s = initial(key, n_endpoints, decode_as_mint);
            let (next, act) = step_spec(s, EventModel::TransportFailed(msg));
            let acts = run(s, seq![EventModel::TransportFailed(msg)] + rest);
            &&& act == ActionModel::RequestParsed { endpoint: 1, key }
            &&& next.wf() && next.phase == Phase::AwaitParsed
            &&& acts.len() == rest.len() + 1
            &&& acts[0] == act
            &&& forall|i: int| 0 <= i < acts.len() ==> !requests(#[trigger] acts[i], 0)
            &&& forall|e: EventModel|
                !(e is TransportFailed || e is Declined) ==> step_spec(next, e).1 == step_spec(s, e).1
        }),
{
    let s = initial(key, n_endpoints, decode_as_mint);
    let es = seq![EventModel::TransportFailed(msg)] + rest;
    let (next, act) = step_spec(s, EventModel::TransportFailed(msg));
    assert(es.drop_first() =~= rest);
    lemma_run_len(s, es);
    lemma_run_never_goes_back(next, rest, 0);
    let acts = run(s, es);
    assert forall|i: int| 0 <= i < acts.len() implies !requests(#[trigger] acts[i], 0) by {
        if i > 0 {
            assert(acts[i] == run(next, rest)[i - 1]);
        }
    }
}

proof fn lemma_failures_from(s: FetchModel, msgs: Seq<Seq<char>>)
    requires
        s.wf(),
        s.phase == Phase::AwaitParsed,
        msgs.len() == s.n_endpoints - s.endpoint,
    ensures
        run(s, failures(msgs)).len() == msgs.len(),
        run(s, failures(msgs)).last() == ActionModel::Done(Err(ErrorModel::Transport(msgs.last()))),
        forall|i: int|
            0 <= i < msgs.len() - 1 ==> #[trigger] run(s, failures(msgs))[i] == (
            ActionModel::RequestParsed { endpoint: (s.endpoint + i + 1) as nat, key: s.key }),
    decreases msgs.len(),
{
    let es = failures(msgs);
    let (next, a) = step_spec(s, es[0]);
    lemma_run_len(s, es);
    if msgs.len() > 1 {
        assert(es.drop_first() =~= failures(msgs.drop_first()));
        lemma_failures_from(next, msgs.drop_first());
        assert forall|i: int| 0 <= i < msgs.len() - 1 implies #[trigger] run(s, es)[i]
            == ActionModel::RequestParsed { endpoint: (s.endpoint + i + 1) as nat, key: s.key } by {
            if i > 0 {
                assert(run(s, es)[i] == run(next, es.drop_first())[i - 1]);
            }
        }
        assert(run(s, es).last() == run(next, es.drop_first()).last());
    } else {
        assert(es.drop_first() =~= Seq::<EventModel>::empty());
    }
}

/// When every endpoint fails in transport, endpoints are tried once each in
/// order and the fetch ends with the last endpoint's failure message.
pub proof fn all_endpoints_fail(
    key: Seq<u8>,
    n_endpoints: nat,
    decode_as_mint: bool,
    msgs: Seq<Seq<char>>,
)
    requires
        key.len() == 32,
        n_endpoints >= 1,
        msgs.len() == n_endpoints,
    ensures
        ({
            let acts = run(initial(key, n_endpoints, decode_as_mint), failures(msgs));
            &&& acts.len() == n_endpoints
            &&& acts.last() == ActionModel::Done(Err(ErrorModel::Transport(msgs.last())))
            &&& forall|i: int|
                0 <= i < n_endpoints - 1 ==> #[trigger] acts[i] == ActionModel::RequestParsed {
                    endpoint: (i + 1) as nat,
                    key,
                }
        }),
{
    lemma_failures_from(initial(key, n_endpoints, decode_as_mint), msgs);
}

} // verus!
