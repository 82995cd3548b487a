//! The withdrawal queue: every request that was ever made, in the order of
//! its making, and for each owner the list of its requests.
//!
//! A request is numbered by its place in the queue. It is never removed and
//! changes once, when it is claimed. A number that was never handed out
//! reads as a request of nobody, for nothing, made at time zero.

use vstd::prelude::*;
use crate::address::Address;
use crate::table::{distinct_keys, has_key, lemma_position, lemma_put, lookup, put};
use crate::u256::U256;

verus! {

/// A request to redeem receipt tokens after the withdrawal delay.
#[derive(Clone, Copy, Debug)]
pub struct WithdrawalRequest {
    /// Who made the request and may claim it.
    pub user: Address,
    /// The receipt tokens that were destroyed for it.
    pub st_eth_amount: U256,
    /// When it was made.
    pub request_time: U256,
    /// Whether it was paid out.
    pub claimed: bool,
}

impl WithdrawalRequest {
    /// What a number that was never handed out reads as.
    pub open spec fn spec_absent() -> WithdrawalRequest {
        WithdrawalRequest {
            user: Address::spec_zero(),
            st_eth_amount: U256 { l0: 0, l1: 0, l2: 0, l3: 0 },
            request_time: U256 { l0: 0, l1: 0, l2: 0, l3: 0 },
            claimed: false,
        }
    }

    /// What a number that was never handed out reads as.
    #[verifier::when_used_as_spec(spec_absent)]
    pub fn absent() -> (r: WithdrawalRequest)
        ensures
            r == WithdrawalRequest::spec_absent(),
    {
        WithdrawalRequest {
            user: Address::zero(),
            st_eth_amount: U256 { l0: 0, l1: 0, l2: 0, l3: 0 },
            request_time: U256 { l0: 0, l1: 0, l2: 0, l3: 0 },
            claimed: false,
        }
    }

    /// The delay has passed at `now`.
    pub open spec fn matured(self, delay: nat, now: nat) -> bool {
        now >= self.request_time@ + delay
    }

    /// The request is unclaimed and the delay has passed at `now`.
    pub open spec fn claimable(self, delay: nat, now: nat) -> bool {
        !self.claimed && self.matured(delay, now)
    }

    /// The same request, paid out.
    pub open spec fn paid_out(self) -> WithdrawalRequest {
        WithdrawalRequest { claimed: true, ..self }
    }
}

/// The numbers of the requests of `user`, in the order of their making.
pub open spec fn owned_ids(requests: Seq<WithdrawalRequest>, user: Address) -> Seq<u64>
    decreases requests.len(),
{
    if requests.len() == 0 {
        Seq::empty()
    } else if requests.last().user == user {
        owned_ids(requests.drop_last(), user).push((requests.len() - 1) as u64)
    } else {
        owned_ids(requests.drop_last(), user)
    }
}

/// A new request is listed last under its owner and under nobody else.
pub proof fn lemma_owned_push(
    requests: Seq<WithdrawalRequest>,
    request: WithdrawalRequest,
    user: Address,
)
    ensures
        owned_ids(requests.push(request), user) == if request.user == user {
            owned_ids(requests, user).push(requests.len() as u64)
        } else {
            owned_ids(requests, user)
        },
{
    assert(requests.push(request).drop_last() =~= requests);
}

/// Paying a request out changes no list.
pub proof fn lemma_owned_paid_out(requests: Seq<WithdrawalRequest>, id: int, user: Address)
    requires
        0 <= id < requests.len(),
    ensures
        owned_ids(requests.update(id, requests[id].paid_out()), user) == owned_ids(requests, user),
    decreases requests.len(),
{
    let after = requests.update(id, requests[id].paid_out());
    if id == requests.len() - 1 {
        assert(after.drop_last() =~= requests.drop_last());
    } else {
        lemma_owned_paid_out(requests.drop_last(), id, user);
        assert(after.drop_last() =~= requests.drop_last().update(
            id,
            requests.drop_last()[id].paid_out(),
        ));
    }
}

/// The queue as mathematics: the requests by number, and one row per owner
/// with the numbers of its requests.
pub struct QueueView {
    pub requests: Seq<WithdrawalRequest>,
    pub index: Seq<(Address, Seq<u64>)>,
}

impl QueueView {
    /// The numbers listed under `user`: none where it has no row.
    pub open spec fn listed(self, user: Address) -> Seq<u64> {
        match lookup(self.index, user) {
            Some(ids) => ids,
            None => Seq::empty(),
        }
    }

    /// The request numbered `id`, or what stands for a request never made.
    pub open spec fn row(self, id: nat) -> WithdrawalRequest {
        if id < self.requests.len() {
            self.requests[id as int]
        } else {
            WithdrawalRequest::spec_absent()
        }
    }

    /// One row per owner, and under each owner exactly its requests, in the
    /// order of their making.
    pub open spec fn wf(self) -> bool {
        &&& distinct_keys(self.index)
        &&& self.requests.len() <= u64::MAX
        &&& forall|user: Address| #[trigger] self.listed(user) == owned_ids(self.requests, user)
    }

    /// The queue without requests.
    pub open spec fn empty() -> QueueView {
        QueueView { requests: Seq::empty(), index: Seq::empty() }
    }

    /// The queue after `request` is added under the next number.
    pub open spec fn pushed(self, request: WithdrawalRequest) -> QueueView {
        QueueView {
            requests: self.requests.push(request),
            index: put(
                self.index,
                request.user,
                self.listed(request.user).push(self.requests.len() as u64),
            ),
        }
    }

    /// The queue after the request numbered `id` is paid out.
    pub open spec fn claimed(self, id: int) -> QueueView {
        QueueView { requests: self.requests.update(id, self.requests[id].paid_out()), ..self }
    }
}

/// The numbers of one owner's requests.
#[derive(Clone, Debug)]
pub struct OwnerRow {
    owner: Address,
    ids: Vec<u64>,
}

/// The withdrawal requests and the per-owner lists of their numbers.
#[derive(Clone, Debug)]
pub struct WithdrawalQueue {
    requests: Vec<WithdrawalRequest>,
    index: Vec<OwnerRow>,
}

impl View for WithdrawalQueue {
    type V = QueueView;

    closed spec fn view(&self) -> QueueView {
        QueueView {
            requests: self.requests@,
            index: Seq::new(
                self.index@.len(),
                |i: int| (self.index@[i].owner, self.index@[i].ids@),
            ),
        }
    }
}

impl WithdrawalQueue {
    /// One row per owner, and under each owner exactly its requests.
    pub open spec fn wf(&self) -> bool {
        self@.wf()
    }

    /// A queue without requests.
    pub fn new() -> (r: WithdrawalQueue)
        ensures
            r@ == QueueView::empty(),
            r.wf(),
    {
        let r = WithdrawalQueue { requests: Vec::new(), index: Vec::new() };
        assert(r@.index =~= Seq::empty());
        assert forall|user: Address| #[trigger] r@.listed(user) == owned_ids(r@.requests, user) by {
            assert(!has_key(r@.index, user));
        }
        r
    }

    /// The place of the request numbered `id`, if that number was handed out.
    pub fn place(&self, id: U256) -> (r: Option<usize>)
        ensures
            r.is_some() <==> id@ < self@.requests.len(),
            r matches Some(i) ==> i == id@,
    {
        let made: u64 = self.requests.len() as u64;
        match id.to_u64() {
            Some(n) => {
                if n < made {
                    Some(n as usize)
                } else {
                    None
                }
            },
            None => None,
        }
    }

    /// The request numbered `id`, or what stands for a request never made.
    pub fn get(&self, id: U256) -> (r: WithdrawalRequest)
        ensures
            r == self@.row(id@),
    {
        match self.place(id) {
            Some(i) => self.requests[i],
            None => WithdrawalRequest::absent(),
        }
    }

    fn find_owner(&self, user: Address) -> (r: Option<usize>)
        ensures
            match r {
                Some(i) => i < self@.index.len() && self@.index[i as int].0 == user
                    && self@.index[i as int].1 == self.index@[i as int].ids@,
                None => !has_key(self@.index, user),
            },
    {
        let mut i: usize = 0;
        while i < self.index.len()
            invariant
                i <= self.index@.len(),
                forall|j: int| 0 <= j < i ==> self.index@[j].owner != user,
            decreases self.index@.len() - i,
        {
            if self.index[i].owner == user {
                return Some(i);
            }
            i += 1;
        }
        None
    }

    /// Adds `request` under the next number, lists it under its owner, and
    /// hands the number back.
    pub fn push(&mut self, request: WithdrawalRequest) -> (id: U256)
        requires
            old(self).wf(),
        ensures
            final(self).wf(),
            final(self)@ == old(self)@.pushed(request),
            id@ == old(self)@.requests.len(),
    {
        let number: u64 = self.requests.len() as u64;
        let ghost listed = self@.listed(request.user).push(number);
        proof {
            lemma_put(self@.index, request.user, listed);
        }
        match self.find_owner(request.user) {
            Some(i) => {
                proof {
                    lemma_position(self@.index, i as int);
                }
                self.index[i].ids.push(number);
                assert(self@.index =~= old(self)@.index.update(i as int, (request.user, listed)));
            },
            None => {
                let mut ids: Vec<u64> = Vec::new();
                ids.push(number);
                assert(ids@ =~= listed);
                self.index.push(OwnerRow { owner: request.user, ids });
                assert(self@.index =~= old(self)@.index.push((request.user, listed)));
            },
        }
        self.requests.push(request);
        assert(self.requests@.len() == self.requests.len());
        assert(self@ == old(self)@.pushed(request));
        assert forall|user: Address| #[trigger]
            self@.listed(user) == owned_ids(self@.requests, user) by {
            lemma_owned_push(old(self)@.requests, request, user);
            assert(old(self)@.listed(user) == owned_ids(old(self)@.requests, user));
        }
        U256::from_u64(number)
    }

    /// Marks the request numbered `id` as paid out. A number that was never
    /// handed out marks nothing.
    pub fn mark_claimed(&mut self, id: U256)
        requires
            old(self).wf(),
        ensures
            final(self).wf(),
            final(self)@ == (if id@ < old(self)@.requests.len() {
                old(self)@.claimed(id@ as int)
            } else {
                old(self)@
            }),
    {
        let i = match self.place(id) {
            Some(i) => i,
            None => {
                return ;
            },
        };
        let request = self.requests[i];
        self.requests.set(
            i,
            WithdrawalRequest {
                user: request.user,
                st_eth_amount: request.st_eth_amount,
                request_time: request.request_time,
                claimed: true,
            },
        );
        assert(self@.index =~= old(self)@.index);
        assert forall|user: Address| #[trigger]
            self@.listed(user) == owned_ids(self@.requests, user) by {
            lemma_owned_paid_out(old(self)@.requests, i as int, user);
            assert(old(self)@.listed(user) == owned_ids(old(self)@.requests, user));
        }
    }

    /// The numbers of the requests of `user`, in the order of their making.
    pub fn ids_of(&self, user: Address) -> (r: Vec<U256>)
        requires
            self.wf(),
        ensures
            r@.len() == owned_ids(self@.requests, user).len(),
            forall|k: int| 0 <= k < r@.len() ==> r@[k]@ == owned_ids(self@.requests, user)[k],
    {
        let mut out: Vec<U256> = Vec::new();
        assert(self@.listed(user) == owned_ids(self@.requests, user));
        match self.find_owner(user) {
            Some(i) => {
                proof {
                    lemma_position(self@.index, i as int);
                }
                let mut k: usize = 0;
                while k < self.index[i].ids.len()
                    invariant
                        i < self.index@.len(),
                        k <= self.index@[i as int].ids@.len(),
                        out@.len() == k,
                        forall|j: int| 0 <= j < k ==> out@[j]@ == self.index@[i as int].ids@[j],
                    decreases self.index@[i as int].ids@.len() - k,
                {
                    out.push(U256::from_u64(self.index[i].ids[k]));
                    k += 1;
                }
            },
            None => {},
        }
        out
    }
}

} // verus!
