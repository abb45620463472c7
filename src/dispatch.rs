use crate::transaction::{ClientID, Transaction};
use vstd::prelude::*;

verus! {

/// The lane that every transaction of `client` goes to.
pub open spec fn lane_spec(client: ClientID, num_lanes: nat) -> int {
    (client as int) % (num_lanes as int)
}

/// What has been routed so far: the client of each input transaction, in input
/// order, and for each lane the positions (in the input) of the transactions
/// it was handed, in the order it was handed them.
pub struct Routing {
    pub num_lanes: nat,
    pub input: Seq<ClientID>,
    pub lanes: Seq<Seq<int>>,
}

impl Routing {
    pub open spec fn start(num_lanes: nat) -> Routing {
        Routing { num_lanes, input: Seq::empty(), lanes: Seq::new(num_lanes, |k: int| Seq::empty()) }
    }

    /// The routing after one more transaction, of `client`, has come in.
    pub open spec fn after(self, client: ClientID) -> Routing {
        let k = lane_spec(client, self.num_lanes);
        Routing {
            num_lanes: self.num_lanes,
            input: self.input.push(client),
            lanes: self.lanes.update(k, self.lanes[k].push(self.input.len() as int)),
        }
    }

    /// What the lane of `client` has been handed.
    pub open spec fn lane_for(self, client: ClientID) -> Seq<int> {
        self.lanes[lane_spec(client, self.num_lanes)]
    }

    /// The `i`-th input transaction was handed to its client's lane.
    pub open spec fn handed(self, i: int) -> bool {
        exists|p: int|
            0 <= p < self.lane_for(self.input[i]).len() && #[trigger] self.lane_for(self.input[i])[p]
                == i
    }

    /// Each lane holds only transactions of its own clients, in input order, and
    /// every input transaction has been handed to its lane.
    pub open spec fn well_formed(self) -> bool {
        &&& self.num_lanes > 0
        &&& self.lanes.len() == self.num_lanes
        &&& forall|k: int, p: int|
            0 <= k < self.num_lanes && 0 <= p < self.lanes[k].len() ==> {
                &&& 0 <= #[trigger] self.lanes[k][p] < self.input.len()
                &&& lane_spec(self.input[self.lanes[k][p]], self.num_lanes) == k
            }
        &&& forall|k: int, p: int, q: int|
            0 <= k < self.num_lanes && 0 <= p < q < self.lanes[k].len() ==> #[trigger] self.lanes[k][p]
                < #[trigger] self.lanes[k][q]
        &&& forall|i: int| 0 <= i < self.input.len() ==> #[trigger] self.handed(i)
    }
}

pub proof fn lemma_start_well_formed(num_lanes: nat)
    requires
        num_lanes > 0,
    ensures
        Routing::start(num_lanes).well_formed(),
{
}

pub proof fn lemma_after_well_formed(r: Routing, client: ClientID)
    requires
        r.well_formed(),
    ensures
        r.after(client).well_formed(),
{
    let s = r.after(client);
    let k = lane_spec(client, r.num_lanes);
    let n = r.input.len() as int;
    assert(0 <= k < r.num_lanes);
    assert forall|i: int| 0 <= i < s.input.len() implies #[trigger] s.handed(i) by {
        if i < n {
            assert(s.input[i] == r.input[i]);
            let l = lane_spec(r.input[i], r.num_lanes);
            assert(0 <= l < r.num_lanes);
            assert(r.handed(i));
            let p = choose|p: int|
                0 <= p < r.lane_for(r.input[i]).len() && #[trigger] r.lane_for(r.input[i])[p] == i;
            assert(s.lane_for(s.input[i])[p] == i);
        } else {
            assert(s.input[i] == client);
            assert(s.lane_for(s.input[i])[r.lanes[k].len() as int] == i);
        }
    }
    assert forall|kk: int, p: int|
        0 <= kk < s.num_lanes && 0 <= p < s.lanes[kk].len() implies {
            &&& 0 <= #[trigger] s.lanes[kk][p] < s.input.len()
            &&& lane_spec(s.input[s.lanes[kk][p]], s.num_lanes) == kk
        } by {
        if kk == k && p == r.lanes[k].len() {
        } else {
            assert(s.lanes[kk][p] == r.lanes[kk][p]);
        }
    }
    assert forall|kk: int, p: int, q: int|
        0 <= kk < s.num_lanes && 0 <= p < q < s.lanes[kk].len() implies #[trigger] s.lanes[kk][p]
        < #[trigger] s.lanes[kk][q] by {
        assert(s.lanes[kk][p] == r.lanes[kk][p]);
        if kk == k && q == r.lanes[k].len() {
        } else {
            assert(s.lanes[kk][q] == r.lanes[kk][q]);
        }
    }
    assert(s.num_lanes > 0);
    assert(s.lanes.len() == s.num_lanes);
}

/// Transactions of one client reach one lane, and in their input order: if the
/// `i`-th input transaction comes before the `j`-th and both are of the same
/// client, both went to that client's lane and the `i`-th was handed to it
/// first.
pub proof fn lemma_client_order_kept(r: Routing, i: int, j: int)
    requires
        r.well_formed(),
        0 <= i < j < r.input.len(),
        r.input[i] == r.input[j],
    ensures
        exists|p: int, q: int|
            0 <= p < q < r.lane_for(r.input[i]).len() && #[trigger] r.lane_for(r.input[i])[p] == i
                && #[trigger] r.lane_for(r.input[i])[q] == j,
{
    let l = lane_spec(r.input[i], r.num_lanes);
    let lane = r.lane_for(r.input[i]);
    assert(0 <= l < r.num_lanes);
    assert(r.handed(i) && r.handed(j));
    let p = choose|p: int| 0 <= p < r.lane_for(r.input[i]).len() && #[trigger] r.lane_for(r.input[i])[p] == i;
    let q = choose|q: int| 0 <= q < r.lane_for(r.input[j]).len() && #[trigger] r.lane_for(r.input[j])[q] == j;
    if q < p {
        assert(r.lanes[l][q] < r.lanes[l][p]);
    }
    assert(p < q);
    assert(lane[p] == i && lane[q] == j);
}

/// The lane for `client` among `num_lanes`.
pub fn lane_of(client: ClientID, num_lanes: usize) -> (r: usize)
    requires
        num_lanes > 0,
    ensures
        r == lane_spec(client, num_lanes as nat),
        r < num_lanes,
{
    (client as usize) % num_lanes
}

/// Splits one ordered stream of transactions among a fixed number of lanes by
/// client, so that each client is handled by one lane only and in input order.
pub struct ShardRouter {
    num_lanes: usize,
    routing: Ghost<Routing>,
}

impl View for ShardRouter {
    type V = Routing;

    closed spec fn view(&self) -> Routing {
        self.routing@
    }
}

impl ShardRouter {
    #[verifier::type_invariant]
    spec fn inv(self) -> bool {
        &&& self.routing@.well_formed()
        &&& self.routing@.num_lanes == self.num_lanes
    }

    pub fn new(num_lanes: usize) -> (r: ShardRouter)
        requires
            num_lanes > 0,
        ensures
            r@ == Routing::start(num_lanes as nat),
    {
        proof {
            lemma_start_well_formed(num_lanes as nat);
        }
        ShardRouter { num_lanes, routing: Ghost(Routing::start(num_lanes as nat)) }
    }

    pub fn num_lanes(&self) -> (r: usize)
        ensures
            r == self@.num_lanes,
            r > 0,
    {
        proof {
            use_type_invariant(self);
        }
        self.num_lanes
    }

    /// The lane that `t` is to be handed to; records that it was.
    pub fn route(&mut self, t: &Transaction) -> (r: usize)
        ensures
            r == lane_spec(t.client, old(self)@.num_lanes),
            r < old(self)@.num_lanes,
            final(self)@ == old(self)@.after(t.client),
            final(self)@.well_formed(),
    {
        proof {
            use_type_invariant(&*self);
            lemma_after_well_formed(self.routing@, t.client);
        }
        let lane = lane_of(t.client, self.num_lanes);
        self.routing = Ghost(self.routing@.after(t.client));
        lane
    }
}

} // verus!
