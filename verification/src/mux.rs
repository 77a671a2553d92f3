//! Dispatch of agent requests across the upstream agents.
//!
//! Before a request is handled, the ordered view of the registry is
//! captured; the request then runs against that snapshot, whatever happens to
//! the registry meanwhile.  Listing identities asks every upstream and joins
//! the answers in the order of the snapshot.  Signing tries one upstream after
//! another, in the order of the snapshot, until one signs.  Nothing else is
//! served, for the multiplexer holds no keys of its own.  Talking to the
//! upstream agents is the caller's.

use vstd::prelude::*;

verus! {

/// A key as an upstream agent lists it: the public key in wire form and its
/// comment.
#[derive(Debug, Clone, PartialEq, Eq)]
pub struct Identity {
    pub key_blob: Vec<u8>,
    pub comment: String,
}

/// The mathematical form of an [`Identity`].
pub ghost struct IdentityView {
    pub key_blob: Seq<u8>,
    pub comment: Seq<char>,
}

impl DeepView for Identity {
    type V = IdentityView;

    open spec fn deep_view(&self) -> IdentityView {
        IdentityView { key_blob: self.key_blob@, comment: self.comment@ }
    }
}

impl Identity {
    fn duplicate(&self) -> (copy: Identity)
        ensures
            copy.deep_view() == self.deep_view(),
    {
        let mut key_blob: Vec<u8> = Vec::new();
        let mut i: usize = 0;
        while i < self.key_blob.len()
            invariant
                i <= self.key_blob.len(),
                key_blob@ == self.key_blob@.take(i as int),
            decreases self.key_blob.len() - i,
        {
            key_blob.push(self.key_blob[i]);
            assert(key_blob@ =~= self.key_blob@.take(i + 1));
            i += 1;
        }
        assert(self.key_blob@.take(self.key_blob.len() as int) =~= self.key_blob@);
        Identity { key_blob, comment: self.comment.clone() }
    }
}

/// The kinds of request of the SSH agent protocol.
#[derive(Clone, Copy, Debug, PartialEq, Eq, Structural)]
pub enum RequestKind {
    RequestIdentities,
    SignRequest,
    AddIdentity,
    RemoveIdentity,
    RemoveAllIdentities,
    AddIdConstrained,
    AddSmartcardKey,
    RemoveSmartcardKey,
    Lock,
    Unlock,
    AddSmartcardKeyConstrained,
    Extension,
}

/// How a request is served.
#[derive(Clone, Copy, Debug, PartialEq, Eq, Structural)]
pub enum Dispatch {
    /// Ask every upstream and join the answers.
    ListAll,
    /// Try the upstreams in turn until one signs.
    SignFirst,
    /// Answer with a failure: the request is not served.
    Reject,
}

/// How a request of kind `kind` is served: identities are listed from all
/// upstreams, a signature comes from the first upstream that gives one, and
/// every other request is rejected.
pub fn dispatch_of(kind: RequestKind) -> (dispatch: Dispatch)
    ensures
        dispatch == match kind {
            RequestKind::RequestIdentities => Dispatch::ListAll,
            RequestKind::SignRequest => Dispatch::SignFirst,
            _ => Dispatch::Reject,
        },
{
    match kind {
        RequestKind::RequestIdentities => Dispatch::ListAll,
        RequestKind::SignRequest => Dispatch::SignFirst,
        _ => Dispatch::Reject,
    }
}

/// The identities of all upstreams that answered, in the order of the
/// upstreams and within each in the order listed.  An upstream that failed
/// (`None`) adds nothing; identities that several upstreams hold appear once
/// for each.
pub open spec fn identities_listed(replies: Seq<Option<Seq<IdentityView>>>) -> Seq<IdentityView>
    decreases replies.len(),
{
    if replies.len() == 0 {
        Seq::empty()
    } else {
        let before = identities_listed(replies.drop_last());
        match replies.last() {
            Some(identities) => before + identities,
            None => before,
        }
    }
}

/// Where every upstream failed, the list is empty.
pub proof fn lemma_all_failed_lists_nothing(replies: Seq<Option<Seq<IdentityView>>>)
    requires
        forall|i: int| 0 <= i < replies.len() ==> (#[trigger] replies[i]) is None,
    ensures
        identities_listed(replies).len() == 0,
    decreases replies.len(),
{
    if replies.len() > 0 {
        assert(replies[replies.len() - 1] is None);
        lemma_all_failed_lists_nothing(replies.drop_last());
    }
}

/// The identities of a later upstream follow those of an earlier one: the
/// list for two runs of upstreams is the list for the first run followed by
/// the list for the second.
pub proof fn lemma_listing_follows_order(
    first: Seq<Option<Seq<IdentityView>>>,
    second: Seq<Option<Seq<IdentityView>>>,
)
    ensures
        identities_listed(first + second) == identities_listed(first) + identities_listed(second),
    decreases second.len(),
{
    if second.len() == 0 {
        assert(first + second =~= first);
        assert(identities_listed(first) + identities_listed(second) =~= identities_listed(first));
    } else {
        lemma_listing_follows_order(first, second.drop_last());
        assert((first + second).drop_last() =~= first + second.drop_last());
        assert((first + second).last() == second.last());
        match second.last() {
            Some(identities) => {
                assert(identities_listed(first) + identities_listed(second.drop_last())
                    + identities =~= identities_listed(first) + (identities_listed(
                    second.drop_last(),
                ) + identities));
            },
            None => {},
        }
    }
}

/// Joins what the upstreams answered to a request for identities, where
/// `replies[i]` is the answer of the `i`-th upstream of the snapshot, or
/// `None` where that upstream could not be reached or did not answer.
pub fn merge_identities(replies: &Vec<Option<Vec<Identity>>>) -> (identities: Vec<Identity>)
    ensures
        identities.deep_view() == identities_listed(replies.deep_view()),
{
    let mut merged: Vec<Identity> = Vec::new();
    let mut i: usize = 0;
    assert(merged.deep_view() =~= Seq::empty());
    while i < replies.len()
        invariant
            i <= replies.len(),
            merged.deep_view() == identities_listed(replies.deep_view().take(i as int)),
        decreases replies.len() - i,
    {
        assert(replies.deep_view().take(i + 1).drop_last() =~= replies.deep_view().take(i as int));
        assert(replies.deep_view().take(i + 1).last() == replies@[i as int].deep_view());
        match &replies[i] {
            Some(identities) => {
                let ghost before = merged.deep_view();
                let mut j: usize = 0;
                assert(merged.deep_view() =~= before + identities.deep_view().take(0));
                while j < identities.len()
                    invariant
                        j <= identities.len(),
                        merged.deep_view() == before + identities.deep_view().take(j as int),
                    decreases identities.len() - j,
                {
                    let ghost sofar = merged.deep_view();
                    merged.push(identities[j].duplicate());
                    assert(merged.deep_view() =~= sofar.push(identities.deep_view()[j as int]));
                    assert(merged.deep_view() =~= before + identities.deep_view().take(j + 1));
                    j += 1;
                }
                assert(identities.deep_view().take(identities.len() as int)
                    =~= identities.deep_view());
            },
            None => {},
        }
        i += 1;
    }
    assert(replies.deep_view().take(replies.len() as int) =~= replies.deep_view());
    merged
}

/// What an upstream made of a request to sign.
#[derive(Debug, Clone, PartialEq, Eq)]
pub enum SignOutcome {
    /// The upstream signed; here is the signature in wire form.
    Signed(Vec<u8>),
    /// The upstream answered, but not with a signature: it lacks the key or
    /// refused.
    Refused,
    /// The upstream could not be reached or broke the protocol.
    Unreachable,
}

/// What to do next for a request to sign.
#[derive(Debug, Clone, PartialEq, Eq)]
pub enum SignStep {
    /// Open a fresh connection to this upstream and ask it to sign.
    Try(String),
    /// Answer the client with this signature.
    Done(Vec<u8>),
    /// Answer the client with a failure: no upstream signed.
    Failed,
}

/// The mathematical form of a [`SignStep`].
pub ghost enum SignStepView {
    Try(Seq<char>),
    Done(Seq<u8>),
    Failed,
}

impl DeepView for SignStep {
    type V = SignStepView;

    open spec fn deep_view(&self) -> SignStepView {
        match self {
            SignStep::Try(socket) => SignStepView::Try(socket@),
            SignStep::Done(signature) => SignStepView::Done(signature@),
            SignStep::Failed => SignStepView::Failed,
        }
    }
}

/// The progress of one request to sign through a snapshot of the upstreams.
#[derive(Debug)]
pub struct SignDispatch {
    snapshot: Vec<String>,
    /// How many upstreams have been asked so far
    tried: usize,
}

/// The mathematical form of a [`SignDispatch`].
pub ghost struct SignDispatchView {
    pub snapshot: Seq<Seq<char>>,
    pub tried: nat,
}

impl View for SignDispatch {
    type V = SignDispatchView;

    closed spec fn view(&self) -> SignDispatchView {
        SignDispatchView { snapshot: self.snapshot.deep_view(), tried: self.tried as nat }
    }
}

/// The step that asks the upstream at position `at` of `snapshot`, or gives
/// up where the snapshot has no such upstream.
pub open spec fn try_at(snapshot: Seq<Seq<char>>, at: nat) -> SignStepView {
    if at < snapshot.len() {
        SignStepView::Try(snapshot[at as int])
    } else {
        SignStepView::Failed
    }
}

impl SignDispatch {
    #[verifier::type_invariant]
    spec fn inv(self) -> bool {
        self.tried <= self.snapshot.len()
    }

    /// Starts on a request to sign with a snapshot of the ordered view: the
    /// first upstream is tried first, and with no upstream the request fails.
    pub fn start(snapshot: Vec<String>) -> (started: (SignDispatch, SignStep))
        ensures
            started.0@ == (SignDispatchView {
                snapshot: snapshot.deep_view(),
                tried: if snapshot.len() > 0 {
                    1
                } else {
                    0
                },
            }),
            started.1.deep_view() == try_at(snapshot.deep_view(), 0),
    {
        assert(snapshot.deep_view().len() == snapshot.len());
        if snapshot.len() > 0 {
            let step = SignStep::Try(snapshot[0].clone());
            (SignDispatch { snapshot, tried: 1 }, step)
        } else {
            (SignDispatch { snapshot, tried: 0 }, SignStep::Failed)
        }
    }

    /// Takes in what the upstream just tried made of the request.  A
    /// signature ends the request; otherwise the next upstream of the
    /// snapshot is tried, and after the last the request fails.
    pub fn advance(&mut self, outcome: SignOutcome) -> (step: SignStep)
        ensures
            final(self)@.snapshot == old(self)@.snapshot,
            match outcome {
                SignOutcome::Signed(signature) => step.deep_view() == SignStepView::Done(
                    signature@,
                ) && final(self)@.tried == old(self)@.tried,
                _ => step.deep_view() == try_at(old(self)@.snapshot, old(self)@.tried)
                    && final(self)@.tried == if old(self)@.tried < old(self)@.snapshot.len() {
                    old(self)@.tried + 1
                } else {
                    old(self)@.tried
                },
            },
    {
        proof {
            use_type_invariant(&*self);
        }
        assert(self.snapshot.deep_view().len() == self.snapshot.len());
        match outcome {
            SignOutcome::Signed(signature) => SignStep::Done(signature),
            _ => {
                if self.tried < self.snapshot.len() {
                    let step = SignStep::Try(self.snapshot[self.tried].clone());
                    self.tried = self.tried + 1;
                    step
                } else {
                    SignStep::Failed
                }
            },
        }
    }
}

} // verus!
