//! The wake-up signal between request handlers and the scheduling loop: at
//! most one live cancellation token, which the loop waits on and which an
//! interrupt takes and fires.
use vstd::prelude::*;

use tokio_util::sync::CancellationToken;

verus! {

#[verifier::external_type_specification]
#[verifier::external_body]
pub struct ExCancellationToken(CancellationToken);

/// The state of the signal: the live token, if any; how many tokens have
/// been made so far; and the tokens fired so far, in order.
pub struct SignalView {
    pub token: Option<CancellationToken>,
    pub minted: nat,
    pub fired: Seq<CancellationToken>,
}

/// Holds the live wait token, if any. Callers share it behind one lock.
pub struct WaitSignal {
    live: Option<CancellationToken>,
    minted: Ghost<nat>,
    fired: Ghost<Seq<CancellationToken>>,
}

impl View for WaitSignal {
    type V = SignalView;

    closed spec fn view(&self) -> SignalView {
        SignalView { token: self.live, minted: self.minted@, fired: self.fired@ }
    }
}

impl WaitSignal {
    /// A signal with no live token.
    pub fn new() -> (r: WaitSignal)
        ensures
            r@.token is None,
            r@.minted == 0,
            r@.fired == Seq::<CancellationToken>::empty(),
    {
        WaitSignal { live: None, minted: Ghost(0), fired: Ghost(Seq::empty()) }
    }

    /// Whether a token is live.
    pub fn is_live(&self) -> (r: bool)
        ensures
            r == self@.token is Some,
    {
        self.live.is_some()
    }

    /// A handle on the live token, made first where none is live: a token
    /// that is live stays live, and after an interrupt a new one is made.
    pub fn get_or_create(&mut self) -> (r: CancellationToken)
        ensures
            final(self)@.token == Some(r),
            old(self)@.token is Some ==> final(self)@.token == old(self)@.token
                && final(self)@.minted == old(self)@.minted,
            old(self)@.token is None ==> final(self)@.minted == old(self)@.minted + 1,
            final(self)@.fired == old(self)@.fired,
    {
        match &self.live {
            Some(token) => token_handle(token),
            None => {
                let token = token_new();
                let handle = token_handle(&token);
                self.live = Some(token);
                self.minted = Ghost(self.minted@ + 1);
                handle
            },
        }
    }

    /// Takes the live token, if any, and fires it, waking every waiter on
    /// it. Says whether there was one; with none live this changes nothing.
    pub fn interrupt(&mut self) -> (r: bool)
        ensures
            r == old(self)@.token is Some,
            final(self)@.token is None,
            final(self)@.minted == old(self)@.minted,
            old(self)@.token matches Some(k) ==> final(self)@.fired == old(self)@.fired.push(k),
            old(self)@.token is None ==> final(self)@.fired == old(self)@.fired,
    {
        match self.live.take() {
            Some(token) => {
                token_cancel(&token);
                self.fired = Ghost(self.fired@.push(token));
                true
            },
            None => false,
        }
    }
}

/// Relies on tokio_util's `CancellationToken::new`: a token that is not
/// cancelled.
#[verifier::external_body]
fn token_new() -> (r: CancellationToken) {
    CancellationToken::new()
}

/// Relies on tokio_util's `Clone` for `CancellationToken`: a handle that is
/// cancelled together with the token it was taken from.
#[verifier::external_body]
fn token_handle(token: &CancellationToken) -> (r: CancellationToken)
    ensures
        r == *token,
{
    token.clone()
}

/// Relies on tokio_util's `CancellationToken::cancel`: wakes every task that
/// waits on the token or a handle of it.
#[verifier::external_body]
fn token_cancel(token: &CancellationToken) {
    token.cancel()
}

} // verus!
