//! The next way to reach the API, asked for at each retry.
//!
//! An [`ApiConfigProvider`] stands between a connection that is retried and
//! the authority that decides which proxy configuration to try next. Its
//! first configuration is the one it was created with, and nobody is told of
//! it. For every later one it makes a request that carries a counter of the
//! attempts and a single-use channel for the reply. Whoever drives the
//! provider sends the request on and awaits the reply;
//! [`resolve_reply`] then settles the configuration: the reply, or a
//! direct connection where the authority let the channel go without a reply.
use vstd::prelude::*;
use futures::channel::oneshot::Canceled;
use futures::channel::oneshot::Receiver;
use futures::channel::oneshot::Sender;

verus! {

/// The sending half of a single-use channel of the `futures` crate. Verus
/// sees nothing inside it.
#[verifier::external_type_specification]
#[verifier::external_body]
#[verifier::reject_recursive_types(T)]
pub struct ExSender<T>(Sender<T>);

/// The receiving half of a single-use channel of the `futures` crate. Verus
/// sees nothing inside it.
#[verifier::external_type_specification]
#[verifier::external_body]
#[verifier::reject_recursive_types(T)]
pub struct ExReceiver<T>(Receiver<T>);

/// The error with which the receiving half of a single-use channel of the
/// `futures` crate answers when the sending half was dropped.
#[verifier::external_type_specification]
#[verifier::external_body]
pub struct ExCanceled(Canceled);

/// Makes a fresh single-use channel, by `futures::channel::oneshot::channel`.
/// Nothing is claimed of the two halves.
#[verifier::external_body]
fn reply_channel<T>() -> (halves: (Sender<T>, Receiver<T>)) {
    futures::channel::oneshot::channel()
}

/// One way to reach the API. What a proxy is made of is the business of
/// whoever chooses and uses it: `S` holds it.
#[derive(Debug, PartialEq, Eq)]
pub enum ProxyConfig<S> {
    /// A direct connection, without a proxy.
    Tls,
    /// A connection through the proxy that the settings describe.
    Proxied(S),
}

/// A request for the proxy configuration to try next.
#[verifier::reject_recursive_types(S)]
pub struct ApiProxyRequest<S> {
    /// Where the reply goes. It takes one reply.
    pub response_tx: Sender<ProxyConfig<S>>,
    /// The counter of attempts: a hint for the authority's choice.
    pub retry_attempt: u32,
}

/// The counter that follows `attempt`; after the largest one it starts
/// again at zero.
pub open spec fn next_attempt(attempt: u32) -> u32 {
    if attempt == u32::MAX {
        0
    } else {
        (attempt + 1) as u32
    }
}

/// The mathematical state of an [`ApiConfigProvider`].
pub struct ProviderView<S> {
    /// The initial configuration, for as long as it has not been handed out.
    pub initial: Option<ProxyConfig<S>>,
    /// The counter that the latest request carried; 1 before any request.
    pub attempt: u32,
}

impl<S> ProviderView<S> {
    /// The state after the next configuration has been handed out or
    /// requested.
    pub open spec fn step(self) -> ProviderView<S> {
        match self.initial {
            Some(_) => ProviderView { initial: None, attempt: self.attempt },
            None => ProviderView { initial: None, attempt: next_attempt(self.attempt) },
        }
    }

    /// The state after `n` configurations.
    pub open spec fn after(self, n: nat) -> ProviderView<S>
        decreases n,
    {
        if n == 0 {
            self
        } else {
            self.after((n - 1) as nat).step()
        }
    }

    /// From a provider that still holds its initial configuration, that
    /// configuration comes first and takes no request. Each configuration
    /// after it takes one request, whose counter is one more than that of
    /// the request before, starting again at zero after the largest counter:
    /// the `n`-th configuration (counted from 0, `n >= 1`) is asked for with
    /// the counter `attempt + n`, reduced modulo 2^32.
    pub proof fn lemma_counter_after(self, n: nat)
        requires
            self.initial is Some,
            n >= 1,
        ensures
            self.after(n).initial is None,
            self.after(n).attempt == (self.attempt + n - 1) % 0x1_0000_0000,
            self.after(n + 1).attempt == next_attempt(self.after(n).attempt),
        decreases n,
    {
        if n > 1 {
            self.lemma_counter_after((n - 1) as nat);
        } else {
            assert(self.after(0) == self);
        }
        assert(self.after(n + 1) == self.after(n).step());
    }
}

/// What an [`ApiConfigProvider`] hands out for the next configuration.
#[verifier::reject_recursive_types(S)]
pub enum NextConfig<S> {
    /// The configuration itself: nothing has to be asked.
    Ready(ProxyConfig<S>),
    /// A request to send to the authority, and the receiving half of the
    /// channel on which its reply will come.
    Request(ApiProxyRequest<S>, Receiver<ProxyConfig<S>>),
}

/// Provides the proxy configurations to try, one after the other.
pub struct ApiConfigProvider<S> {
    initial: Option<ProxyConfig<S>>,
    attempt: u32,
}

impl<S> View for ApiConfigProvider<S> {
    type V = ProviderView<S>;

    closed spec fn view(&self) -> ProviderView<S> {
        ProviderView { initial: self.initial, attempt: self.attempt }
    }
}

impl<S> ApiConfigProvider<S> {
    /// Hands out the next configuration, or the request by which it is to
    /// be asked for.
    ///
    /// The initial configuration is handed out first, as it is. After that
    /// every call counts one attempt more and makes a request with that
    /// counter and a fresh channel for the reply.
    pub fn next(&mut self) -> (next: NextConfig<S>)
        ensures
            final(self)@ == old(self)@.step(),
            match old(self)@.initial {
                Some(initial) => next == NextConfig::Ready(initial),
                None => next matches NextConfig::Request(request, _) && request.retry_attempt
                    == next_attempt(old(self)@.attempt),
            },
    {
        match self.initial.take() {
            Some(initial) => NextConfig::Ready(initial),
            None => {
                self.attempt = self.attempt.wrapping_add(1);
                let (response_tx, response_rx) = reply_channel();
                NextConfig::Request(
                    ApiProxyRequest { response_tx, retry_attempt: self.attempt },
                    response_rx,
                )
            },
        }
    }
}

/// Returns a provider of the API proxy configurations to try.
/// `initial_config` is the first configuration that it hands out; the
/// authority is not told of it.
pub fn create_api_config_provider<S>(initial_config: ProxyConfig<S>) -> (provider:
    ApiConfigProvider<S>)
    ensures
        provider@ == (ProviderView { initial: Some(initial_config), attempt: 1 }),
{
    ApiConfigProvider { initial: Some(initial_config), attempt: 1 }
}

/// Settles the configuration after a request: the reply where one came, and
/// a direct connection where the channel was closed without one.
pub fn resolve_reply<S>(reply: Result<ProxyConfig<S>, Canceled>) -> (config: ProxyConfig<S>)
    ensures
        config == match reply {
            Ok(new_config) => new_config,
            Err(_) => ProxyConfig::Tls,
        },
{
    match reply {
        Ok(new_config) => new_config,
        Err(_) => ProxyConfig::Tls,
    }
}

} // verus!
