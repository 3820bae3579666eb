//! The staged confirmation protocol: Init, then any number of Feeds, Finalize,
//! then the screens.
//!
//! Policy on selectors: Init rejects a call whose selector the selector
//! table does not hold, so a call that cannot be interpreted is never shown.
//! A stage that fails leaves the session context as it was, except that a
//! Finalize that fails closes the session.
use vstd::prelude::*;
use vstd::slice::slice_to_vec;
use vstd::string::StringSliceAdditionalSpecFns;

use crate::amount::{amount_text, format_amount};
use crate::calldata::{
    decode_domain_call, decode_transfer, domain_of, transfer_of, CalldataEntry, MAX_CALLDATA,
    MAX_STRINGS,
};
use crate::error::{error_code, error_code_spec, ResultCode, StageError};
use crate::felt::FieldElement;
use crate::session::{
    closed_view, context_fits, idle_view, locate_context, HostBuffer, Method, SessionContext,
    SessionView, Stage,
};

verus! {

/// Capacity of a screen message, in bytes.
pub const MESSAGE_CAPACITY: usize = 64;

/// Screens of a transfer or approve confirmation: token, method, destination, amount.
pub const TOKEN_SCREENS: usize = 4;

/// Screens of a domain lookup confirmation: the domain name.
pub const DOMAIN_SCREENS: usize = 1;

/// One row of the selector table: an entrypoint and its selector hash.
#[derive(Clone, Copy, Debug, PartialEq, Eq)]
pub struct SelectorEntry {
    pub method: Method,
    pub hash: [u8; 32],
}

/// One row of the token registry.
#[derive(Debug)]
pub struct TokenInfo {
    pub address: [u8; 32],
    pub name: Vec<u8>,
    pub ticker: Vec<u8>,
    pub decimals: u8,
}

/// A contract call to be confirmed.
#[derive(Debug)]
pub struct AbstractCall {
    pub target: [u8; 32],
    pub selector: [u8; 32],
    pub calldata: Vec<CalldataEntry>,
}

/// One screen of the confirmation.
#[derive(Debug)]
pub struct UiScreen {
    pub title: Vec<u8>,
    pub message: Vec<u8>,
}

/// The confirmation engine, with its read-only selector table and token registry.
#[derive(Debug)]
pub struct Engine {
    pub selectors: Vec<SelectorEntry>,
    pub tokens: Vec<TokenInfo>,
}

/// The first entrypoint from `start` on whose hash is `hash`.
pub open spec fn find_selector(entries: Seq<SelectorEntry>, hash: Seq<u8>, start: int) -> Option<
    Method,
>
    decreases entries.len() - start,
{
    if start < 0 || start >= entries.len() {
        None
    } else if entries[start].hash@ == hash {
        Some(entries[start].method)
    } else {
        find_selector(entries, hash, start + 1)
    }
}

/// The index of the first token from `start` on whose address is `address`.
pub open spec fn find_token(tokens: Seq<TokenInfo>, address: Seq<u8>, start: int) -> Option<usize>
    decreases tokens.len() - start,
{
    if start < 0 || start >= tokens.len() {
        None
    } else if tokens[start].address@ == address {
        Some(start as usize)
    } else {
        find_token(tokens, address, start + 1)
    }
}

/// The selector lookup finds an entrypoint exactly when some entry from
/// `start` on carries the hash, and what it finds is the entrypoint of such
/// an entry.
pub proof fn lemma_find_selector(entries: Seq<SelectorEntry>, hash: Seq<u8>, start: int)
    requires
        0 <= start,
    ensures
        find_selector(entries, hash, start) is Some <==> exists|i: int|
            start <= i < entries.len() && (#[trigger] entries[i]).hash@ == hash,
        find_selector(entries, hash, start) matches Some(m) ==> exists|i: int|
            start <= i < entries.len() && (#[trigger] entries[i]).hash@ == hash
                && entries[i].method == m,
    decreases entries.len() - start,
{
    if start < entries.len() {
        lemma_find_selector(entries, hash, start + 1);
        if entries[start].hash@ != hash {
            assert forall|i: int|
                start <= i < entries.len() && (#[trigger] entries[i]).hash@ == hash implies start
                + 1 <= i by {}
        }
    }
}

/// The token lookup finds an index exactly when some token from `start` on
/// has the address, and the index it finds is that of such a token.
pub proof fn lemma_find_token(tokens: Seq<TokenInfo>, address: Seq<u8>, start: int)
    requires
        0 <= start,
        tokens.len() <= usize::MAX,
    ensures
        find_token(tokens, address, start) is Some <==> exists|i: int|
            start <= i < tokens.len() && (#[trigger] tokens[i]).address@ == address,
        find_token(tokens, address, start) matches Some(i) ==> i < tokens.len()
            && tokens[i as int].address@ == address,
    decreases tokens.len() - start,
{
    if start < tokens.len() {
        lemma_find_token(tokens, address, start + 1);
        if tokens[start].address@ != address {
            assert forall|i: int|
                start <= i < tokens.len() && (#[trigger] tokens[i]).address@ == address implies start
                + 1 <= i by {}
        }
    }
}

/// Whether two 32-byte strings are equal, byte for byte.
pub fn bytes_equal(a: &[u8; 32], b: &[u8; 32]) -> (r: bool)
    ensures
        r == (a@ == b@),
{
    let mut i: usize = 0;
    while i < 32
        invariant
            0 <= i <= 32,
            forall|j: int| 0 <= j < i ==> a@[j] == b@[j],
        decreases 32 - i,
    {
        if a[i] != b[i] {
            assert(a@[i as int] != b@[i as int]);
            return false;
        }
        i += 1;
    }
    assert(a@ =~= b@);
    true
}

/// What Init leads to.
pub open spec fn init_outcome(
    selectors: Seq<SelectorEntry>,
    buffer: HostBuffer,
    ctx: SessionView,
    target: Seq<u8>,
    selector: Seq<u8>,
) -> Result<SessionView, StageError> {
    if !context_fits(buffer) {
        Err(StageError::ContextTooSmall)
    } else if ctx.stage != Stage::Idle {
        Err(StageError::OutOfOrder)
    } else {
        match find_selector(selectors, selector, 0) {
            None => Err(StageError::UnrecognizedSelector),
            Some(m) => Ok(
                SessionView {
                    stage: Stage::Initialized,
                    method: Some(m),
                    target,
                    destination: Seq::empty(),
                    amount: 0,
                    token: None,
                    domain: Seq::empty(),
                    num_screens: 0,
                },
            ),
        }
    }
}

/// Whether Feed or Finalize may come in this stage.
pub open spec fn accepts_data(stage: Stage) -> bool {
    stage == Stage::Initialized || stage == Stage::Fed
}

/// What Feed leads to.
pub open spec fn feed_outcome(
    buffer: HostBuffer,
    ctx: SessionView,
    calldata: Seq<CalldataEntry>,
    strings: Seq<Vec<u8>>,
) -> Result<SessionView, StageError> {
    if !context_fits(buffer) {
        Err(StageError::ContextTooSmall)
    } else if !accepts_data(ctx.stage) || ctx.method is None {
        Err(StageError::OutOfOrder)
    } else if calldata.len() > 8 || strings.len() > 16 {
        Err(StageError::MalformedCalldata)
    } else if ctx.method.unwrap().moves_tokens() {
        match transfer_of(calldata, strings) {
            Err(e) => Err(e),
            Ok((destination, amount)) => Ok(
                SessionView { stage: Stage::Fed, destination, amount, ..ctx },
            ),
        }
    } else {
        match domain_of(calldata) {
            Err(e) => Err(e),
            Ok(domain) => Ok(SessionView { stage: Stage::Fed, domain, ..ctx }),
        }
    }
}

/// What Finalize leads to.
pub open spec fn finalize_outcome(tokens: Seq<TokenInfo>, buffer: HostBuffer, ctx: SessionView) -> Result<
    SessionView,
    StageError,
> {
    if !context_fits(buffer) {
        Err(StageError::ContextTooSmall)
    } else if !accepts_data(ctx.stage) || ctx.method is None {
        Err(StageError::OutOfOrder)
    } else if ctx.method.unwrap().moves_tokens() {
        match find_token(tokens, ctx.target, 0) {
            None => Err(StageError::UnknownToken),
            Some(i) => Ok(
                SessionView {
                    stage: Stage::Finalized,
                    token: Some(i),
                    num_screens: 4,
                    ..ctx
                },
            ),
        }
    } else {
        Ok(SessionView { stage: Stage::Finalized, num_screens: 1, ..ctx })
    }
}

/// The title of the whole confirmation.
pub open spec fn session_title() -> Seq<u8> {
    "STARKNET CALL".spec_bytes()
}

/// The title and message of screen `index` before the capacity check.
pub open spec fn screen_content(tokens: Seq<TokenInfo>, ctx: SessionView, index: usize) -> Result<
    (Seq<u8>, Seq<u8>),
    StageError,
> {
    if ctx.method is Some && ctx.method.unwrap().moves_tokens() {
        match ctx.token {
            Some(i) if i < tokens.len() => {
                let token = tokens[i as int];
                if index == 0 {
                    Ok(("TOKEN:".spec_bytes(), token.name@))
                } else if index == 1 {
                    Ok(("METHOD:".spec_bytes(), ctx.method.unwrap().name_spec()))
                } else if index == 2 {
                    Ok(("TO:".spec_bytes(), ctx.destination))
                } else {
                    Ok(("AMOUNT:".spec_bytes(), amount_text(ctx.amount, token.decimals as nat)))
                }
            },
            _ => Err(StageError::UnknownToken),
        }
    } else {
        Ok(("DOMAIN:".spec_bytes(), ctx.domain))
    }
}

/// What GetUi returns for screen `index`.
pub open spec fn screen_outcome(
    tokens: Seq<TokenInfo>,
    buffer: HostBuffer,
    ctx: SessionView,
    index: usize,
) -> Result<(Seq<u8>, Seq<u8>), StageError> {
    if !context_fits(buffer) {
        Err(StageError::ContextTooSmall)
    } else if ctx.stage != Stage::Finalized {
        Err(StageError::OutOfOrder)
    } else if index >= ctx.num_screens {
        Err(StageError::UnknownScreenIndex)
    } else {
        match screen_content(tokens, ctx, index) {
            Err(e) => Err(e),
            Ok((title, message)) => if message.len() > 64 {
                Err(StageError::OutOfCapacity)
            } else {
                Ok((title, message))
            },
        }
    }
}

/// A screen seen as values.
pub open spec fn screen_result(r: Result<UiScreen, StageError>) -> Result<(Seq<u8>, Seq<u8>), StageError> {
    match r {
        Ok(s) => Ok((s.title@, s.message@)),
        Err(e) => Err(e),
    }
}

/// Init on a fresh session, in a buffer that holds the context, succeeds
/// exactly when the call's selector is one of the table's hashes; it then
/// records the entrypoint of a table entry with that hash, and the call's
/// target. Any other selector is refused with `UnrecognizedSelector`.
pub proof fn lemma_init_selector(
    selectors: Seq<SelectorEntry>,
    buffer: HostBuffer,
    target: Seq<u8>,
    selector: Seq<u8>,
)
    requires
        context_fits(buffer),
    ensures
        init_outcome(selectors, buffer, idle_view(), target, selector) is Ok <==> exists|i: int|
            0 <= i < selectors.len() && (#[trigger] selectors[i]).hash@ == selector,
        init_outcome(selectors, buffer, idle_view(), target, selector) matches Ok(v) ==> {
            &&& v.stage == Stage::Initialized
            &&& v.target == target
            &&& exists|i: int|
                0 <= i < selectors.len() && (#[trigger] selectors[i]).hash@ == selector
                    && v.method == Some(selectors[i].method)
        },
        !(exists|i: int| 0 <= i < selectors.len() && (#[trigger] selectors[i]).hash@ == selector)
            ==> init_outcome(selectors, buffer, idle_view(), target, selector) == Err::<
            SessionView,
            StageError,
        >(StageError::UnrecognizedSelector),
{
    lemma_find_selector(selectors, selector, 0);
}

/// Finalize of a transfer or approve, fed and in a buffer that holds the
/// context, succeeds with four screens exactly when the registry holds the
/// call's target; otherwise it fails with `UnknownToken`, which the host sees
/// as `NeedInfo`.
pub proof fn lemma_finalize_token(tokens: Seq<TokenInfo>, buffer: HostBuffer, ctx: SessionView)
    requires
        tokens.len() <= usize::MAX,
        context_fits(buffer),
        accepts_data(ctx.stage),
        ctx.method matches Some(m) && m.moves_tokens(),
    ensures
        (exists|i: int| 0 <= i < tokens.len() && (#[trigger] tokens[i]).address@ == ctx.target)
            ==> (finalize_outcome(tokens, buffer, ctx) matches Ok(v) && v.num_screens == 4
            && v.stage == Stage::Finalized),
        !(exists|i: int| 0 <= i < tokens.len() && (#[trigger] tokens[i]).address@ == ctx.target)
            ==> {
            &&& finalize_outcome(tokens, buffer, ctx) == Err::<SessionView, StageError>(
                StageError::UnknownToken,
            )
            &&& error_code_spec(StageError::UnknownToken) == ResultCode::NeedInfo
        },
{
    lemma_find_token(tokens, ctx.target, 0);
}

/// One invocation of the engine by the host.
#[derive(Debug)]
pub enum StageRequest {
    Check,
    Init(AbstractCall),
    Feed(Vec<CalldataEntry>, Vec<Vec<u8>>),
    Finalize,
    QueryUi,
    GetUi(usize),
    /// A stage tag that the engine does not know.
    Unsupported(u16),
}

/// What an invocation gives back to the host.
#[derive(Debug)]
pub enum StageReply {
    /// Check: the engine is present.
    Present,
    /// Init or Feed succeeded.
    Accepted,
    /// Finalize succeeded, with this many screens.
    Screens(usize),
    /// The title of the whole confirmation.
    Title(Vec<u8>),
    /// One screen.
    Screen(UiScreen),
    /// The stage failed.
    Failed(StageError),
    /// The stage tag is not known; nothing was done.
    Unsupported,
}

impl StageReply {
    /// The result code that the host reports for this reply.
    pub fn code(&self) -> (r: ResultCode)
        ensures
            r == match self {
                StageReply::Failed(e) => error_code_spec(*e),
                StageReply::Unsupported => ResultCode::Failure,
                _ => ResultCode::Success,
            },
    {
        match self {
            StageReply::Failed(e) => error_code(*e),
            StageReply::Unsupported => ResultCode::Failure,
            _ => ResultCode::Success,
        }
    }
}

/// Whether a unit outcome and the session after it match `outcome`: on
/// failure the session is unchanged.
pub open spec fn unit_stage(
    outcome: Result<SessionView, StageError>,
    r: StageReply,
    before: SessionView,
    after: SessionView,
) -> bool {
    match outcome {
        Ok(v) => r is Accepted && after == v,
        Err(e) => r == StageReply::Failed(e) && after == before,
    }
}

impl Engine {
    /// An engine over the given selector table and token registry.
    pub fn new(selectors: Vec<SelectorEntry>, tokens: Vec<TokenInfo>) -> (r: Engine)
        ensures
            r.selectors@ == selectors@,
            r.tokens@ == tokens@,
    {
        Engine { selectors, tokens }
    }

    /// The entrypoint whose selector hash is `hash`, if the table holds it.
    pub fn lookup_selector(&self, hash: &[u8; 32]) -> (r: Option<Method>)
        ensures
            r == find_selector(self.selectors@, hash@, 0),
    {
        let mut i: usize = 0;
        while i < self.selectors.len()
            invariant
                0 <= i <= self.selectors.len(),
                find_selector(self.selectors@, hash@, i as int) == find_selector(
                    self.selectors@,
                    hash@,
                    0,
                ),
            decreases self.selectors.len() - i,
        {
            if bytes_equal(&self.selectors[i].hash, hash) {
                return Some(self.selectors[i].method);
            }
            i += 1;
        }
        None
    }

    /// The index of the registry's token at `address`, if it holds one.
    pub fn lookup_token(&self, address: &[u8; 32]) -> (r: Option<usize>)
        ensures
            r == find_token(self.tokens@, address@, 0),
    {
        let mut i: usize = 0;
        while i < self.tokens.len()
            invariant
                0 <= i <= self.tokens.len(),
                find_token(self.tokens@, address@, i as int) == find_token(
                    self.tokens@,
                    address@,
                    0,
                ),
            decreases self.tokens.len() - i,
        {
            if bytes_equal(&self.tokens[i].address, address) {
                return Some(i);
            }
            i += 1;
        }
        None
    }

    /// Init: accepts the call if its selector is in the table, and records
    /// the entrypoint and the target.
    pub fn init(&self, buffer: HostBuffer, ctx: &mut SessionContext, call: &AbstractCall) -> (r: Result<
        (),
        StageError,
    >)
        ensures
            match init_outcome(self.selectors@, buffer, old(ctx)@, call.target@, call.selector@) {
                Ok(v) => r is Ok && final(ctx)@ == v,
                Err(e) => r == Err::<(), StageError>(e) && final(ctx)@ == old(ctx)@,
            },
    {
        if locate_context(buffer).is_err() {
            return Err(StageError::ContextTooSmall);
        }
        if ctx.stage != Stage::Idle {
            return Err(StageError::OutOfOrder);
        }
        match self.lookup_selector(&call.selector) {
            None => Err(StageError::UnrecognizedSelector),
            Some(m) => {
                ctx.stage = Stage::Initialized;
                ctx.method = Some(m);
                ctx.target = call.target;
                ctx.destination = Vec::new();
                ctx.amount = FieldElement::zero();
                ctx.token = None;
                ctx.domain = Vec::new();
                ctx.num_screens = 0;
                Ok(())
            },
        }
    }

    /// Feed: decodes one chunk of calldata, with its side string table, into
    /// the session: destination and amount for a transfer or approve, the
    /// domain name for a domain lookup. A later Feed replaces what an
    /// earlier one decoded.
    pub fn feed(
        &self,
        buffer: HostBuffer,
        ctx: &mut SessionContext,
        calldata: &[CalldataEntry],
        strings: &[Vec<u8>],
    ) -> (r: Result<(), StageError>)
        ensures
            match feed_outcome(buffer, old(ctx)@, calldata@, strings@) {
                Ok(v) => r is Ok && final(ctx)@ == v,
                Err(e) => r == Err::<(), StageError>(e) && final(ctx)@ == old(ctx)@,
            },
    {
        if locate_context(buffer).is_err() {
            return Err(StageError::ContextTooSmall);
        }
        if !(ctx.stage == Stage::Initialized || ctx.stage == Stage::Fed) {
            return Err(StageError::OutOfOrder);
        }
        let method = match ctx.method {
            Some(m) => m,
            None => {
                return Err(StageError::OutOfOrder);
            },
        };
        if calldata.len() > MAX_CALLDATA || strings.len() > MAX_STRINGS {
            return Err(StageError::MalformedCalldata);
        }
        match method {
            Method::DomainToAddress => {
                let domain = decode_domain_call(calldata)?;
                ctx.domain = domain;
                ctx.stage = Stage::Fed;
                Ok(())
            },
            _ => {
                let fields = decode_transfer(calldata, strings)?;
                ctx.destination = fields.destination;
                ctx.amount = fields.amount;
                ctx.stage = Stage::Fed;
                Ok(())
            },
        }
    }

    /// Finalize: for a transfer or approve, finds the target in the token
    /// registry; returns the number of screens to show. A target that the
    /// registry lacks gives `UnknownToken`, and the session is closed.
    pub fn finalize(&self, buffer: HostBuffer, ctx: &mut SessionContext) -> (r: Result<
        usize,
        StageError,
    >)
        ensures
            match finalize_outcome(self.tokens@, buffer, old(ctx)@) {
                Ok(v) => r == Ok::<usize, StageError>(v.num_screens) && final(ctx)@ == v,
                Err(e) => {
                    &&& r == Err::<usize, StageError>(e)
                    &&& final(ctx)@ == if e == StageError::UnknownToken {
                        closed_view(old(ctx)@)
                    } else {
                        old(ctx)@
                    }
                },
            },
    {
        if locate_context(buffer).is_err() {
            return Err(StageError::ContextTooSmall);
        }
        if !(ctx.stage == Stage::Initialized || ctx.stage == Stage::Fed) {
            return Err(StageError::OutOfOrder);
        }
        let method = match ctx.method {
            Some(m) => m,
            None => {
                return Err(StageError::OutOfOrder);
            },
        };
        match method {
            Method::DomainToAddress => {
                ctx.num_screens = DOMAIN_SCREENS;
                ctx.stage = Stage::Finalized;
                Ok(DOMAIN_SCREENS)
            },
            _ => match self.lookup_token(&ctx.target) {
                Some(i) => {
                    ctx.token = Some(i);
                    ctx.num_screens = TOKEN_SCREENS;
                    ctx.stage = Stage::Finalized;
                    Ok(TOKEN_SCREENS)
                },
                None => {
                    ctx.stage = Stage::Closed;
                    Err(StageError::UnknownToken)
                },
            },
        }
    }

    /// Check: the engine is present. Always succeeds.
    pub fn check(&self) -> (r: bool)
        ensures
            r,
    {
        true
    }

    /// QueryUi: the title of the whole confirmation, whatever the session holds.
    pub fn query_ui(&self) -> (r: Vec<u8>)
        ensures
            r@ == session_title(),
    {
        slice_to_vec("STARKNET CALL".as_bytes())
    }

    /// GetUi: the title and message of screen `index`. The same session and
    /// index always give the same screen.
    pub fn get_ui(&self, buffer: HostBuffer, ctx: &SessionContext, index: usize) -> (r: Result<
        UiScreen,
        StageError,
    >)
        ensures
            screen_result(r) == screen_outcome(self.tokens@, buffer, ctx@, index),
    {
        if locate_context(buffer).is_err() {
            return Err(StageError::ContextTooSmall);
        }
        if ctx.stage != Stage::Finalized {
            return Err(StageError::OutOfOrder);
        }
        if index >= ctx.num_screens {
            return Err(StageError::UnknownScreenIndex);
        }
        let (title, message) = match ctx.method {
            Some(Method::DomainToAddress) | None => (
                slice_to_vec("DOMAIN:".as_bytes()),
                ctx.domain.clone(),
            ),
            Some(m) => {
                let i = match ctx.token {
                    Some(i) => i,
                    None => {
                        return Err(StageError::UnknownToken);
                    },
                };
                if i >= self.tokens.len() {
                    return Err(StageError::UnknownToken);
                }
                let token = &self.tokens[i];
                if index == 0 {
                    (slice_to_vec("TOKEN:".as_bytes()), token.name.clone())
                } else if index == 1 {
                    (slice_to_vec("METHOD:".as_bytes()), m.name())
                } else if index == 2 {
                    (slice_to_vec("TO:".as_bytes()), ctx.destination.clone())
                } else {
                    (
                        slice_to_vec("AMOUNT:".as_bytes()),
                        format_amount(&ctx.amount, token.decimals),
                    )
                }
            },
        };
        if message.len() > MESSAGE_CAPACITY {
            return Err(StageError::OutOfCapacity);
        }
        Ok(UiScreen { title, message })
    }

    /// Runs one stage for the host: the single entry point of the engine.
    /// Each request gives what its stage gives; an unknown stage tag gives
    /// `Unsupported` and leaves the session as it was.
    pub fn dispatch(&self, buffer: HostBuffer, ctx: &mut SessionContext, request: StageRequest) -> (r:
        StageReply)
        ensures
            match request {
                StageRequest::Check => r is Present && final(ctx)@ == old(ctx)@,
                StageRequest::Init(call) => unit_stage(
                    init_outcome(self.selectors@, buffer, old(ctx)@, call.target@, call.selector@),
                    r,
                    old(ctx)@,
                    final(ctx)@,
                ),
                StageRequest::Feed(calldata, strings) => unit_stage(
                    feed_outcome(buffer, old(ctx)@, calldata@, strings@),
                    r,
                    old(ctx)@,
                    final(ctx)@,
                ),
                StageRequest::Finalize => match finalize_outcome(self.tokens@, buffer, old(ctx)@) {
                    Ok(v) => r == StageReply::Screens(v.num_screens) && final(ctx)@ == v,
                    Err(e) => {
                        &&& r == StageReply::Failed(e)
                        &&& final(ctx)@ == if e == StageError::UnknownToken {
                            closed_view(old(ctx)@)
                        } else {
                            old(ctx)@
                        }
                    },
                },
                StageRequest::QueryUi => (r matches StageReply::Title(t) && t@ == session_title())
                    && final(ctx)@ == old(ctx)@,
                StageRequest::GetUi(index) => final(ctx)@ == old(ctx)@ && match screen_outcome(
                    self.tokens@,
                    buffer,
                    old(ctx)@,
                    index,
                ) {
                    Ok((title, message)) => r matches StageReply::Screen(s) && s.title@ == title
                        && s.message@ == message,
                    Err(e) => r == StageReply::Failed(e),
                },
                StageRequest::Unsupported(_) => r is Unsupported && final(ctx)@ == old(ctx)@,
            },
    {
        match request {
            StageRequest::Check => StageReply::Present,
            StageRequest::Init(call) => match self.init(buffer, ctx, &call) {
                Ok(()) => StageReply::Accepted,
                Err(e) => StageReply::Failed(e),
            },
            StageRequest::Feed(calldata, strings) => match self.feed(
                buffer,
                ctx,
                calldata.as_slice(),
                strings.as_slice(),
            ) {
                Ok(()) => StageReply::Accepted,
                Err(e) => StageReply::Failed(e),
            },
            StageRequest::Finalize => match self.finalize(buffer, ctx) {
                Ok(n) => StageReply::Screens(n),
                Err(e) => StageReply::Failed(e),
            },
            StageRequest::QueryUi => StageReply::Title(self.query_ui()),
            StageRequest::GetUi(index) => match self.get_ui(buffer, ctx, index) {
                Ok(screen) => StageReply::Screen(screen),
                Err(e) => StageReply::Failed(e),
            },
            StageRequest::Unsupported(_) => StageReply::Unsupported,
        }
    }
}

} // verus!
