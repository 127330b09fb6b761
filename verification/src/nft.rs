//! Positions as non-fungible tokens: each position is a token owned by its
//! trader, who may approve spenders for one token, or operators for all of
//! their tokens, until an expiration. A transfer moves the token and clears
//! its approvals.
use crate::cw20::{expiration_is_expired, spec_is_expired, Expiration};
use crate::error::PerpError;
use vstd::prelude::*;

verus! {

/// A spender allowed to move one token, until `expires`.
#[derive(Clone, Debug)]
pub struct Approval {
    pub spender: String,
    pub expires: Expiration,
}

/// A token: the position's identifier, its owner, and its approvals.
#[derive(Debug)]
pub struct NftToken {
    pub id: u64,
    pub owner: String,
    pub approvals: Vec<Approval>,
}

/// An operator allowed by `owner` to move all of its tokens, until
/// `expires`.
#[derive(Clone, Debug)]
pub struct Operator {
    pub owner: String,
    pub operator: String,
    pub expires: Expiration,
}

/// The tokens, the operators, and the number of tokens.
#[derive(Debug)]
pub struct NftRegistry {
    pub tokens: Vec<NftToken>,
    pub operators: Vec<Operator>,
    pub count: u64,
}

/// Index of the token `id`, or -1.
pub open spec fn token_index(tokens: Seq<NftToken>, id: u64) -> int {
    if exists|i: int| 0 <= i < tokens.len() && tokens[i].id == id {
        choose|i: int| 0 <= i < tokens.len() && tokens[i].id == id
    } else {
        -1
    }
}

/// Index of the operator entry of `owner` for `operator`, or -1.
pub open spec fn operator_index(ops: Seq<Operator>, owner: Seq<char>, operator: Seq<char>) -> int {
    if exists|i: int| 0 <= i < ops.len() && ops[i].owner@ == owner && ops[i].operator@ == operator {
        choose|i: int| 0 <= i < ops.len() && ops[i].owner@ == owner && ops[i].operator@ == operator
    } else {
        -1
    }
}

/// Whether `operator` may act for `owner` at a block of `height` and
/// `time`: it is registered and has not expired.
pub open spec fn operator_active(ops: Seq<Operator>, owner: Seq<char>, operator: Seq<char>, height: u64, time: u64) -> bool {
    let i = operator_index(ops, owner, operator);
    i >= 0 && !spec_is_expired(ops[i].expires, height, time)
}

/// Whether some approval for `spender` has not expired.
pub open spec fn approved(approvals: Seq<Approval>, spender: Seq<char>, height: u64, time: u64) -> bool {
    exists|i: int|
        0 <= i < approvals.len() && #[trigger] approvals[i].spender@ == spender && !spec_is_expired(
            approvals[i].expires,
            height,
            time,
        )
}

/// The approvals that have not expired, or all of them.
pub open spec fn visible_approvals(approvals: Seq<Approval>, include_expired: bool, height: u64, time: u64) -> Seq<
    Approval,
> {
    approvals.filter(|a: Approval| include_expired || !spec_is_expired(a.expires, height, time))
}

/// The expiration of `owner`'s operator `operator`, if registered.
pub open spec fn operator_expiry(ops: Seq<Operator>, owner: Seq<char>, operator: Seq<char>) -> Option<Expiration> {
    let i = operator_index(ops, owner, operator);
    if i >= 0 {
        Some(ops[i].expires)
    } else {
        None
    }
}

/// Filtering after a push: the pushed item is kept when it passes.
proof fn lemma_filter_push<A>(s: Seq<A>, x: A, p: spec_fn(A) -> bool)
    ensures
        s.push(x).filter(p) == if p(x) {
            s.filter(p).push(x)
        } else {
            s.filter(p)
        },
{
    reveal(Seq::filter);
    assert(s.push(x).drop_last() =~= s);
}

/// With unique identifiers, the token found for `id` is the one at `i`.
proof fn lemma_token_index_at(tokens: Seq<NftToken>, id: u64, i: int)
    requires
        forall|a: int, b: int| 0 <= a < b < tokens.len() ==> #[trigger] tokens[a].id != #[trigger] tokens[b].id,
        0 <= i < tokens.len(),
        tokens[i].id == id,
    ensures
        token_index(tokens, id) == i,
{
    let j = token_index(tokens, id);
    if j != i {
        if j < i {
            assert(tokens[j].id != tokens[i].id);
        } else {
            assert(tokens[i].id != tokens[j].id);
        }
    }
}

/// With unique pairs, the operator entry found is the one at `i`.
proof fn lemma_operator_index_at(ops: Seq<Operator>, owner: Seq<char>, operator: Seq<char>, i: int)
    requires
        forall|a: int, b: int|
            0 <= a < b < ops.len() ==> !(#[trigger] ops[a].owner@ == #[trigger] ops[b].owner@ && ops[a].operator@
                == ops[b].operator@),
        0 <= i < ops.len(),
        ops[i].owner@ == owner && ops[i].operator@ == operator,
    ensures
        operator_index(ops, owner, operator) == i,
{
    let j = operator_index(ops, owner, operator);
    if j != i {
        if j < i {
            assert(!(ops[j].owner@ == ops[i].owner@ && ops[j].operator@ == ops[i].operator@));
        } else {
            assert(!(ops[i].owner@ == ops[j].owner@ && ops[i].operator@ == ops[j].operator@));
        }
    }
}

/// The token `id` among `tokens`, if there.
pub open spec fn token_in(tokens: Seq<NftToken>, id: u64) -> Option<NftToken> {
    let i = token_index(tokens, id);
    if i >= 0 {
        Some(tokens[i])
    } else {
        None
    }
}

/// Token identifiers are unique.
pub open spec fn unique_ids(tokens: Seq<NftToken>) -> bool {
    forall|a: int, b: int| 0 <= a < b < tokens.len() ==> #[trigger] tokens[a].id != #[trigger] tokens[b].id
}

/// Replacing a token by one with the same identifier keeps every lookup
/// of another identifier.
proof fn lemma_update_token(tokens: Seq<NftToken>, i: int, t: NftToken)
    requires
        unique_ids(tokens),
        0 <= i < tokens.len(),
        t.id == tokens[i].id,
    ensures
        unique_ids(tokens.update(i, t)),
        token_index(tokens.update(i, t), t.id) == i,
        forall|x: u64| x != t.id ==> #[trigger] token_index(tokens.update(i, t), x) == token_index(tokens, x),
{
    let n = tokens.update(i, t);
    assert forall|a: int, b: int| 0 <= a < b < n.len() implies #[trigger] n[a].id != #[trigger] n[b].id by {
        assert(n[a].id == tokens[a].id && n[b].id == tokens[b].id);
    }
    lemma_token_index_at(n, t.id, i);
    assert forall|x: u64| x != t.id implies #[trigger] token_index(n, x) == token_index(tokens, x) by {
        if exists|j: int| 0 <= j < tokens.len() && tokens[j].id == x {
            let j = choose|j: int| 0 <= j < tokens.len() && tokens[j].id == x;
            lemma_token_index_at(tokens, x, j);
            lemma_token_index_at(n, x, j);
        } else {
            assert(!exists|j: int| 0 <= j < n.len() && n[j].id == x) by {
                if exists|j: int| 0 <= j < n.len() && n[j].id == x {
                    let j = choose|j: int| 0 <= j < n.len() && n[j].id == x;
                    assert(tokens[j].id == x);
                }
            }
        }
    }
}

/// Appending a token with a new identifier keeps every other lookup.
proof fn lemma_push_token(tokens: Seq<NftToken>, t: NftToken)
    requires
        unique_ids(tokens),
        token_index(tokens, t.id) == -1,
    ensures
        unique_ids(tokens.push(t)),
        token_index(tokens.push(t), t.id) == tokens.len(),
        forall|x: u64| x != t.id ==> #[trigger] token_index(tokens.push(t), x) == token_index(tokens, x),
{
    let n = tokens.push(t);
    assert forall|a: int, b: int| 0 <= a < b < n.len() implies #[trigger] n[a].id != #[trigger] n[b].id by {
        if b == tokens.len() {
            assert(!(0 <= a < tokens.len() && tokens[a].id == t.id));
        }
    }
    lemma_token_index_at(n, t.id, tokens.len() as int);
    assert forall|x: u64| x != t.id implies #[trigger] token_index(n, x) == token_index(tokens, x) by {
        if exists|j: int| 0 <= j < tokens.len() && tokens[j].id == x {
            let j = choose|j: int| 0 <= j < tokens.len() && tokens[j].id == x;
            lemma_token_index_at(tokens, x, j);
            lemma_token_index_at(n, x, j);
        } else {
            assert(!exists|j: int| 0 <= j < n.len() && n[j].id == x) by {
                if exists|j: int| 0 <= j < n.len() && n[j].id == x {
                    let j = choose|j: int| 0 <= j < n.len() && n[j].id == x;
                    assert(j < tokens.len());
                }
            }
        }
    }
}

/// Removing the token at `i` keeps every other lookup.
proof fn lemma_remove_token(tokens: Seq<NftToken>, i: int)
    requires
        unique_ids(tokens),
        0 <= i < tokens.len(),
    ensures
        unique_ids(tokens.remove(i)),
        token_index(tokens.remove(i), tokens[i].id) == -1,
        forall|x: u64| x != tokens[i].id ==> #[trigger] token_in(tokens.remove(i), x) == token_in(tokens, x),
{
    let n = tokens.remove(i);
    let id = tokens[i].id;
    assert forall|a: int, b: int| 0 <= a < b < n.len() implies #[trigger] n[a].id != #[trigger] n[b].id by {
        let a0 = if a < i { a } else { a + 1 };
        let b0 = if b < i { b } else { b + 1 };
        assert(n[a] == tokens[a0] && n[b] == tokens[b0]);
        assert(tokens[a0].id != tokens[b0].id);
    }
    assert(!exists|j: int| 0 <= j < n.len() && n[j].id == id) by {
        if exists|j: int| 0 <= j < n.len() && n[j].id == id {
            let j = choose|j: int| 0 <= j < n.len() && n[j].id == id;
            let j0 = if j < i { j } else { j + 1 };
            assert(n[j] == tokens[j0]);
            if j0 < i {
                assert(tokens[j0].id != tokens[i].id);
            } else {
                assert(tokens[i].id != tokens[j0].id);
            }
        }
    }
    assert forall|x: u64| x != id implies #[trigger] token_in(n, x) == token_in(tokens, x) by {
        if exists|j: int| 0 <= j < tokens.len() && tokens[j].id == x {
            let j = choose|j: int| 0 <= j < tokens.len() && tokens[j].id == x;
            lemma_token_index_at(tokens, x, j);
            assert(j != i);
            let j1 = if j < i { j } else { j - 1 };
            assert(n[j1] == tokens[j]);
            lemma_token_index_at(n, x, j1);
        } else {
            assert(!exists|j: int| 0 <= j < n.len() && n[j].id == x) by {
                if exists|j: int| 0 <= j < n.len() && n[j].id == x {
                    let j = choose|j: int| 0 <= j < n.len() && n[j].id == x;
                    let j0 = if j < i { j } else { j + 1 };
                    assert(n[j] == tokens[j0]);
                }
            }
        }
    }
}

/// Operator pairs are unique.
pub open spec fn unique_pairs(ops: Seq<Operator>) -> bool {
    forall|a: int, b: int|
        0 <= a < b < ops.len() ==> !(#[trigger] ops[a].owner@ == #[trigger] ops[b].owner@ && ops[a].operator@
            == ops[b].operator@)
}

/// The lookups of every pair but the one at `i` agree between `ops` and
/// `n`, whose entries are those of `ops` but at `i`, shifted by `shift`
/// after `i`.
proof fn lemma_other_pairs(ops: Seq<Operator>, n: Seq<Operator>, i: int, o: Seq<char>, p: Seq<char>)
    requires
        unique_pairs(ops),
        unique_pairs(n),
        0 <= i < ops.len(),
        !(ops[i].owner@ == o && ops[i].operator@ == p),
        n.len() == ops.len() || n.len() == ops.len() - 1,
        n.len() == ops.len() ==> forall|j: int| 0 <= j < ops.len() && j != i ==> n[j] == ops[j],
        n.len() == ops.len() ==> !(n[i].owner@ == o && n[i].operator@ == p),
        n.len() == ops.len() - 1 ==> forall|j: int| 0 <= j < i ==> n[j] == ops[j],
        n.len() == ops.len() - 1 ==> forall|j: int| i < j < ops.len() ==> n[j - 1] == ops[j],
    ensures
        operator_expiry(n, o, p) == operator_expiry(ops, o, p),
{
    if exists|j: int| 0 <= j < ops.len() && ops[j].owner@ == o && ops[j].operator@ == p {
        let j = choose|j: int| 0 <= j < ops.len() && ops[j].owner@ == o && ops[j].operator@ == p;
        lemma_operator_index_at(ops, o, p, j);
        let j1 = if n.len() == ops.len() || j < i { j } else { j - 1 };
        assert(n[j1] == ops[j]);
        lemma_operator_index_at(n, o, p, j1);
    } else {
        assert(!exists|j: int| 0 <= j < n.len() && n[j].owner@ == o && n[j].operator@ == p) by {
            if exists|j: int| 0 <= j < n.len() && n[j].owner@ == o && n[j].operator@ == p {
                let j = choose|j: int| 0 <= j < n.len() && n[j].owner@ == o && n[j].operator@ == p;
                let j0 = if n.len() == ops.len() || j < i { j } else { j + 1 };
                assert(n[j] == ops[j0]);
            }
        }
    }
}

fn copy_approval(a: &Approval) -> (r: Approval)
    ensures
        r == *a,
{
    Approval { spender: a.spender.clone(), expires: a.expires }
}

/// The approvals that have not expired, or all of them.
pub fn filter_approvals(approvals: &Vec<Approval>, include_expired: bool, height: u64, time: u64) -> (r: Vec<Approval>)
    ensures
        r@ == visible_approvals(approvals@, include_expired, height, time),
{
    let ghost p = |a: Approval| include_expired || !spec_is_expired(a.expires, height, time);
    let mut out: Vec<Approval> = Vec::new();
    let mut i: usize = 0;
    while i < approvals.len()
        invariant
            i <= approvals@.len(),
            p == (|a: Approval| include_expired || !spec_is_expired(a.expires, height, time)),
            out@ == approvals@.take(i as int).filter(p),
        decreases approvals@.len() - i,
    {
        proof {
            assert(approvals@.take(i as int + 1) =~= approvals@.take(i as int).push(approvals@[i as int]));
            lemma_filter_push(approvals@.take(i as int), approvals@[i as int], p);
        }
        if include_expired || !expiration_is_expired(approvals[i].expires, height, time) {
            out.push(copy_approval(&approvals[i]));
        }
        i += 1;
    }
    proof {
        assert(approvals@.take(i as int) =~= approvals@);
    }
    out
}

/// The approvals without those of `spender`.
fn without_spender(approvals: &Vec<Approval>, spender: &String) -> (r: Vec<Approval>)
    ensures
        r@ == approvals@.filter(|a: Approval| a.spender@ != spender@),
{
    let ghost p = |a: Approval| a.spender@ != spender@;
    let mut out: Vec<Approval> = Vec::new();
    let mut i: usize = 0;
    while i < approvals.len()
        invariant
            i <= approvals@.len(),
            p == (|a: Approval| a.spender@ != spender@),
            out@ == approvals@.take(i as int).filter(p),
        decreases approvals@.len() - i,
    {
        proof {
            assert(approvals@.take(i as int + 1) =~= approvals@.take(i as int).push(approvals@[i as int]));
            lemma_filter_push(approvals@.take(i as int), approvals@[i as int], p);
        }
        if approvals[i].spender != *spender {
            out.push(copy_approval(&approvals[i]));
        }
        i += 1;
    }
    proof {
        assert(approvals@.take(i as int) =~= approvals@);
    }
    out
}

impl NftRegistry {
    /// Token identifiers and operator pairs are unique, and the count is the
    /// number of tokens.
    pub open spec fn wf(&self) -> bool {
        &&& forall|i: int, j: int|
            0 <= i < j < self.tokens@.len() ==> #[trigger] self.tokens@[i].id != #[trigger] self.tokens@[j].id
        &&& forall|i: int, j: int|
            0 <= i < j < self.operators@.len() ==> !(#[trigger] self.operators@[i].owner@
                == #[trigger] self.operators@[j].owner@ && self.operators@[i].operator@
                == self.operators@[j].operator@)
        &&& self.count == self.tokens@.len()
    }

    /// The token `id`, if minted.
    pub open spec fn token(&self, id: u64) -> Option<NftToken> {
        token_in(self.tokens@, id)
    }

    /// Whether `sender` may approve spenders of token `id`: its owner, or
    /// an active operator of the owner.
    pub open spec fn can_approve(&self, sender: Seq<char>, id: u64, height: u64, time: u64) -> bool {
        match self.token(id) {
            Some(t) => t.owner@ == sender || operator_active(self.operators@, t.owner@, sender, height, time),
            None => false,
        }
    }

    /// Whether `sender` may move token `id`: its owner or the market, a
    /// spender with an approval that has not expired, or an active operator
    /// of the owner.
    pub open spec fn can_send(&self, sender: Seq<char>, market: Seq<char>, id: u64, height: u64, time: u64) -> bool {
        match self.token(id) {
            Some(t) => t.owner@ == sender || market == sender || approved(t.approvals@, sender, height, time)
                || operator_active(self.operators@, t.owner@, sender, height, time),
            None => false,
        }
    }

    /// An empty registry.
    pub fn new() -> (r: NftRegistry)
        ensures
            r.wf(),
            r.tokens@.len() == 0 && r.operators@.len() == 0,
    {
        NftRegistry { tokens: Vec::new(), operators: Vec::new(), count: 0 }
    }

    fn find_token(&self, id: u64) -> (r: Option<usize>)
        requires
            self.wf(),
        ensures
            match r {
                Some(i) => i == token_index(self.tokens@, id) && i < self.tokens@.len(),
                None => token_index(self.tokens@, id) == -1,
            },
    {
        let mut i: usize = 0;
        while i < self.tokens.len()
            invariant
                self.wf(),
                i <= self.tokens@.len(),
                forall|k: int| 0 <= k < i ==> self.tokens@[k].id != id,
            decreases self.tokens@.len() - i,
        {
            if self.tokens[i].id == id {
                proof {
                    let j = token_index(self.tokens@, id);
                    if j != i as int {
                        if j < i as int {
                            assert(self.tokens@[j].id != id);
                        } else {
                            assert(self.tokens@[i as int].id != self.tokens@[j].id);
                        }
                    }
                }
                return Some(i);
            }
            i += 1;
        }
        None
    }

    fn find_operator(&self, owner: &String, operator: &String) -> (r: Option<usize>)
        requires
            self.wf(),
        ensures
            match r {
                Some(i) => i == operator_index(self.operators@, owner@, operator@) && i < self.operators@.len(),
                None => operator_index(self.operators@, owner@, operator@) == -1,
            },
    {
        let mut i: usize = 0;
        while i < self.operators.len()
            invariant
                self.wf(),
                i <= self.operators@.len(),
                forall|k: int|
                    0 <= k < i ==> !(self.operators@[k].owner@ == owner@ && self.operators@[k].operator@ == operator@),
            decreases self.operators@.len() - i,
        {
            if self.operators[i].owner == *owner && self.operators[i].operator == *operator {
                proof {
                    let j = operator_index(self.operators@, owner@, operator@);
                    if j != i as int {
                        if j < i as int {
                            assert(!(self.operators@[j].owner@ == owner@ && self.operators@[j].operator@ == operator@));
                        } else {
                            assert(!(self.operators@[i as int].owner@ == self.operators@[j].owner@
                                && self.operators@[i as int].operator@ == self.operators@[j].operator@));
                        }
                    }
                }
                return Some(i);
            }
            i += 1;
        }
        None
    }

    fn operator_is_active(&self, owner: &String, operator: &String, height: u64, time: u64) -> (r: bool)
        requires
            self.wf(),
        ensures
            r == operator_active(self.operators@, owner@, operator@, height, time),
    {
        match self.find_operator(owner, operator) {
            Some(i) => !expiration_is_expired(self.operators[i].expires, height, time),
            None => false,
        }
    }

    /// Refuses unless `sender` may approve spenders of token `id`.
    pub fn nft_check_can_approve(&self, sender: &String, id: u64, height: u64, time: u64) -> (r: Result<(), PerpError>)
        requires
            self.wf(),
        ensures
            self.token(id) is None ==> r == Err::<(), PerpError>(PerpError::MissingPosition { id }),
            self.token(id) is Some ==> (r is Ok <==> self.can_approve(sender@, id, height, time)),
            self.token(id) is Some && r is Err ==> r == Err::<(), PerpError>(PerpError::Unauthorized),
    {
        let i = match self.find_token(id) {
            Some(i) => i,
            None => return Err(PerpError::MissingPosition { id }),
        };
        let owner = &self.tokens[i].owner;
        if *owner == *sender {
            return Ok(());
        }
        if self.operator_is_active(owner, sender, height, time) {
            Ok(())
        } else {
            Err(PerpError::Unauthorized)
        }
    }
}

/// Whether some approval for `spender` has not expired.
fn any_approved(approvals: &Vec<Approval>, spender: &String, height: u64, time: u64) -> (r: bool)
    ensures
        r == approved(approvals@, spender@, height, time),
{
    let mut i: usize = 0;
    while i < approvals.len()
        invariant
            i <= approvals@.len(),
            forall|k: int|
                0 <= k < i ==> !(#[trigger] approvals@[k].spender@ == spender@ && !spec_is_expired(
                    approvals@[k].expires,
                    height,
                    time,
                )),
        decreases approvals@.len() - i,
    {
        if approvals[i].spender == *spender && !expiration_is_expired(approvals[i].expires, height, time) {
            return true;
        }
        i += 1;
    }
    false
}

impl NftRegistry {
    /// Refuses unless `sender` may move token `id`.
    pub fn nft_check_can_send(&self, sender: &String, market: &String, id: u64, height: u64, time: u64) -> (r: Result<
        (),
        PerpError,
    >)
        requires
            self.wf(),
        ensures
            self.token(id) is None ==> r == Err::<(), PerpError>(PerpError::MissingPosition { id }),
            self.token(id) is Some ==> (r is Ok <==> self.can_send(sender@, market@, id, height, time)),
            self.token(id) is Some && r is Err ==> r == Err::<(), PerpError>(PerpError::Unauthorized),
    {
        let i = match self.find_token(id) {
            Some(i) => i,
            None => return Err(PerpError::MissingPosition { id }),
        };
        let owner = &self.tokens[i].owner;
        if *owner == *sender || *market == *sender {
            return Ok(());
        }
        if any_approved(&self.tokens[i].approvals, sender, height, time) {
            return Ok(());
        }
        if self.operator_is_active(owner, sender, height, time) {
            Ok(())
        } else {
            Err(PerpError::Unauthorized)
        }
    }
}

/// The approvals of `spender` that have not expired, or all of its.
pub open spec fn spender_approvals(
    approvals: Seq<Approval>,
    spender: Seq<char>,
    include_expired: bool,
    height: u64,
    time: u64,
) -> Seq<Approval> {
    approvals.filter(
        |a: Approval| a.spender@ == spender && (include_expired || !spec_is_expired(a.expires, height, time)),
    )
}

fn matching_approvals(approvals: &Vec<Approval>, spender: &String, include_expired: bool, height: u64, time: u64) -> (r: Vec<
    Approval,
>)
    ensures
        r@ == spender_approvals(approvals@, spender@, include_expired, height, time),
{
    let ghost p = |a: Approval| a.spender@ == spender@ && (include_expired || !spec_is_expired(a.expires, height, time));
    let mut out: Vec<Approval> = Vec::new();
    let mut i: usize = 0;
    while i < approvals.len()
        invariant
            i <= approvals@.len(),
            p == (|a: Approval|
                a.spender@ == spender@ && (include_expired || !spec_is_expired(a.expires, height, time))),
            out@ == approvals@.take(i as int).filter(p),
        decreases approvals@.len() - i,
    {
        proof {
            assert(approvals@.take(i as int + 1) =~= approvals@.take(i as int).push(approvals@[i as int]));
            lemma_filter_push(approvals@.take(i as int), approvals@[i as int], p);
        }
        if approvals[i].spender == *spender && (include_expired || !expiration_is_expired(
            approvals[i].expires,
            height,
            time,
        )) {
            out.push(copy_approval(&approvals[i]));
        }
        i += 1;
    }
    proof {
        assert(approvals@.take(i as int) =~= approvals@);
    }
    out
}

/// The expiration given, or never.
pub open spec fn expiration_or_never(expires: Option<Expiration>) -> Expiration {
    match expires {
        Some(e) => e,
        None => Expiration::Never,
    }
}

/// The approvals of a token after `spender`'s are replaced: removed, and,
/// when adding, one expiring at `expires` put last.
pub open spec fn replaced_approvals(approvals: Seq<Approval>, spender: String, add: bool, expires: Expiration) -> Seq<
    Approval,
> {
    let kept = approvals.filter(|a: Approval| a.spender@ != spender@);
    if add {
        kept.push(Approval { spender, expires })
    } else {
        kept
    }
}

impl NftRegistry {
    /// Mints token `id` for `owner`, with no approvals.
    pub fn nft_mint(&mut self, owner: String, id: u64)
        requires
            old(self).wf(),
            old(self).token(id) is None,
            old(self).count < u64::MAX,
        ensures
            final(self).wf(),
            final(self).token(id) matches Some(t) && t.owner@ == owner@ && t.approvals@.len() == 0,
            forall|x: u64| x != id ==> #[trigger] final(self).token(x) == old(self).token(x),
            final(self).operators@ == old(self).operators@,
            final(self).count == old(self).count + 1,
    {
        let t = NftToken { id, owner, approvals: Vec::new() };
        proof {
            lemma_push_token(self.tokens@, t);
        }
        self.tokens.push(t);
        self.count = self.count + 1;
    }

    /// Burns token `id`.
    pub fn nft_burn(&mut self, id: u64)
        requires
            old(self).wf(),
            old(self).token(id) is Some,
        ensures
            final(self).wf(),
            final(self).token(id) is None,
            forall|x: u64| x != id ==> #[trigger] final(self).token(x) == old(self).token(x),
            final(self).operators@ == old(self).operators@,
            final(self).count == old(self).count - 1,
    {
        let i = self.find_token(id).unwrap();
        proof {
            lemma_remove_token(self.tokens@, i as int);
        }
        self.tokens.remove(i);
        self.count = self.count - 1;
    }

    fn replace_token(&mut self, i: usize, t: NftToken)
        requires
            old(self).wf(),
            i < old(self).tokens@.len(),
            t.id == old(self).tokens@[i as int].id,
        ensures
            final(self).wf(),
            final(self).token(t.id) == Some(t),
            forall|x: u64| x != t.id ==> #[trigger] final(self).token(x) == old(self).token(x),
            final(self).operators@ == old(self).operators@,
            final(self).count == old(self).count,
    {
        proof {
            lemma_update_token(self.tokens@, i as int, t);
        }
        self.tokens.set(i, t);
    }

    /// Replaces `spender`'s approvals of token `id`, by one expiring at
    /// `expires` (never, when none is given) when adding, by none when not.
    /// Only the owner or an operator may; an approval cannot be given
    /// already expired.
    pub fn nft_update_approvals(
        &mut self,
        sender: &String,
        spender: &String,
        id: u64,
        add: bool,
        expires: Option<Expiration>,
        height: u64,
        time: u64,
    ) -> (r: Result<(), PerpError>)
        requires
            old(self).wf(),
        ensures
            final(self).wf(),
            r is Err ==> *final(self) == *old(self),
            old(self).token(id) is None ==> r == Err::<(), PerpError>(PerpError::MissingPosition { id }),
            old(self).token(id) is Some && !old(self).can_approve(sender@, id, height, time) ==> r == Err::<
                (),
                PerpError,
            >(PerpError::Unauthorized),
            old(self).can_approve(sender@, id, height, time) && add && spec_is_expired(
                expiration_or_never(expires),
                height,
                time,
            ) ==> r == Err::<(), PerpError>(PerpError::Expired),
            old(self).can_approve(sender@, id, height, time) && !(add && spec_is_expired(
                expiration_or_never(expires),
                height,
                time,
            )) ==> r is Ok,
            r is Ok ==> (old(self).token(id) matches Some(t) && final(self).token(id) matches Some(n) && n.id == id
                && n.owner == t.owner && n.approvals@ == replaced_approvals(
                t.approvals@,
                *spender,
                add,
                expiration_or_never(expires),
            )),
            r is Ok ==> forall|x: u64| x != id ==> #[trigger] final(self).token(x) == old(self).token(x),
            r is Ok ==> final(self).operators@ == old(self).operators@ && final(self).count == old(self).count,
    {
        let i = match self.find_token(id) {
            Some(i) => i,
            None => return Err(PerpError::MissingPosition { id }),
        };
        self.nft_check_can_approve(sender, id, height, time)?;
        let mut approvals = without_spender(&self.tokens[i].approvals, spender);
        if add {
            let e = match expires {
                Some(e) => e,
                None => Expiration::Never,
            };
            if expiration_is_expired(e, height, time) {
                return Err(PerpError::Expired);
            }
            approvals.push(Approval { spender: spender.clone(), expires: e });
        }
        let t = NftToken { id, owner: self.tokens[i].owner.clone(), approvals };
        self.replace_token(i, t);
        Ok(())
    }

    /// Approves `spender` for token `id` until `expires` (never, when none
    /// is given), replacing its earlier approval.
    pub fn nft_approve(
        &mut self,
        sender: &String,
        spender: &String,
        id: u64,
        expires: Option<Expiration>,
        height: u64,
        time: u64,
    ) -> (r: Result<(), PerpError>)
        requires
            old(self).wf(),
        ensures
            final(self).wf(),
            r is Err ==> *final(self) == *old(self),
            old(self).token(id) is None ==> r == Err::<(), PerpError>(PerpError::MissingPosition { id }),
            old(self).token(id) is Some && !old(self).can_approve(sender@, id, height, time) ==> r == Err::<
                (),
                PerpError,
            >(PerpError::Unauthorized),
            old(self).can_approve(sender@, id, height, time) ==> (r is Ok <==> !spec_is_expired(
                expiration_or_never(expires),
                height,
                time,
            )),
            r is Err && old(self).can_approve(sender@, id, height, time) ==> r == Err::<(), PerpError>(PerpError::Expired),
            r is Ok ==> (old(self).token(id) matches Some(t) && final(self).token(id) matches Some(n) && n.id == id
                && n.owner == t.owner && n.approvals@ == replaced_approvals(
                t.approvals@,
                *spender,
                true,
                expiration_or_never(expires),
            )),
            r is Ok ==> forall|x: u64| x != id ==> #[trigger] final(self).token(x) == old(self).token(x),
            r is Ok ==> final(self).operators@ == old(self).operators@ && final(self).count == old(self).count,
    {
        self.nft_update_approvals(sender, spender, id, true, expires, height, time)
    }

    /// Revokes `spender`'s approval of token `id`.
    pub fn nft_revoke(&mut self, sender: &String, spender: &String, id: u64, height: u64, time: u64) -> (r: Result<
        (),
        PerpError,
    >)
        requires
            old(self).wf(),
        ensures
            final(self).wf(),
            r is Err ==> *final(self) == *old(self),
            old(self).token(id) is None ==> r == Err::<(), PerpError>(PerpError::MissingPosition { id }),
            old(self).token(id) is Some ==> (r is Ok <==> old(self).can_approve(sender@, id, height, time)),
            old(self).token(id) is Some && r is Err ==> r == Err::<(), PerpError>(PerpError::Unauthorized),
            r is Ok ==> (old(self).token(id) matches Some(t) && final(self).token(id) matches Some(n) && n.id == id
                && n.owner == t.owner && n.approvals@ == t.approvals@.filter(|a: Approval| a.spender@ != spender@)),
            r is Ok ==> forall|x: u64| x != id ==> #[trigger] final(self).token(x) == old(self).token(x),
            r is Ok ==> final(self).operators@ == old(self).operators@ && final(self).count == old(self).count,
    {
        self.nft_update_approvals(sender, spender, id, false, None, height, time)
    }
}

impl NftRegistry {
    /// Makes `operator` an operator of all of `sender`'s tokens until
    /// `expires` (never, when none is given); an expiration already past is
    /// refused.
    pub fn nft_approve_all(
        &mut self,
        sender: &String,
        operator: &String,
        expires: Option<Expiration>,
        height: u64,
        time: u64,
    ) -> (r: Result<(), PerpError>)
        requires
            old(self).wf(),
        ensures
            final(self).wf(),
            spec_is_expired(expiration_or_never(expires), height, time) ==> r == Err::<(), PerpError>(
                PerpError::Expired,
            ) && *final(self) == *old(self),
            !spec_is_expired(expiration_or_never(expires), height, time) ==> r is Ok,
            r is Ok ==> operator_expiry(final(self).operators@, sender@, operator@) == Some(
                expiration_or_never(expires),
            ),
            r is Ok ==> forall|o: Seq<char>, p: Seq<char>|
                !(o == sender@ && p == operator@) ==> #[trigger] operator_expiry(final(self).operators@, o, p)
                    == operator_expiry(old(self).operators@, o, p),
            final(self).tokens@ == old(self).tokens@ && final(self).count == old(self).count,
    {
        let e = match expires {
            Some(e) => e,
            None => Expiration::Never,
        };
        if expiration_is_expired(e, height, time) {
            return Err(PerpError::Expired);
        }
        let entry = Operator { owner: sender.clone(), operator: operator.clone(), expires: e };
        match self.find_operator(sender, operator) {
            Some(i) => {
                let ghost ops = self.operators@;
                self.operators.set(i, entry);
                proof {
                    let n = self.operators@;
                    assert forall|a: int, b: int| 0 <= a < b < n.len() implies !(#[trigger] n[a].owner@
                        == #[trigger] n[b].owner@ && n[a].operator@ == n[b].operator@) by {
                        assert(n[a].owner@ == ops[a].owner@ && n[a].operator@ == ops[a].operator@);
                        assert(n[b].owner@ == ops[b].owner@ && n[b].operator@ == ops[b].operator@);
                    }
                    lemma_operator_index_at(n, sender@, operator@, i as int);
                    assert forall|o: Seq<char>, p: Seq<char>| !(o == sender@ && p == operator@) implies #[trigger] operator_expiry(
                        n,
                        o,
                        p,
                    ) == operator_expiry(ops, o, p) by {
                        lemma_other_pairs(ops, n, i as int, o, p);
                    }
                }
            },
            None => {
                let ghost ops = self.operators@;
                self.operators.push(entry);
                proof {
                    let n = self.operators@;
                    assert forall|a: int, b: int| 0 <= a < b < n.len() implies !(#[trigger] n[a].owner@
                        == #[trigger] n[b].owner@ && n[a].operator@ == n[b].operator@) by {
                        if b == ops.len() {
                            assert(!(0 <= a < ops.len() && ops[a].owner@ == sender@ && ops[a].operator@ == operator@));
                        }
                    }
                    lemma_operator_index_at(n, sender@, operator@, ops.len() as int);
                    assert forall|o: Seq<char>, p: Seq<char>| !(o == sender@ && p == operator@) implies #[trigger] operator_expiry(
                        n,
                        o,
                        p,
                    ) == operator_expiry(ops, o, p) by {
                        if exists|j: int| 0 <= j < ops.len() && ops[j].owner@ == o && ops[j].operator@ == p {
                            let j = choose|j: int| 0 <= j < ops.len() && ops[j].owner@ == o && ops[j].operator@ == p;
                            lemma_operator_index_at(ops, o, p, j);
                            lemma_operator_index_at(n, o, p, j);
                        } else {
                            assert(!exists|j: int| 0 <= j < n.len() && n[j].owner@ == o && n[j].operator@ == p) by {
                                if exists|j: int| 0 <= j < n.len() && n[j].owner@ == o && n[j].operator@ == p {
                                    let j = choose|j: int| 0 <= j < n.len() && n[j].owner@ == o && n[j].operator@ == p;
                                    assert(j < ops.len());
                                }
                            }
                        }
                    }
                }
            },
        }
        Ok(())
    }

    /// Removes `operator` as an operator of `sender`'s tokens.
    pub fn nft_revoke_all(&mut self, sender: &String, operator: &String)
        requires
            old(self).wf(),
        ensures
            final(self).wf(),
            operator_expiry(final(self).operators@, sender@, operator@) is None,
            forall|o: Seq<char>, p: Seq<char>|
                !(o == sender@ && p == operator@) ==> #[trigger] operator_expiry(final(self).operators@, o, p)
                    == operator_expiry(old(self).operators@, o, p),
            final(self).tokens@ == old(self).tokens@ && final(self).count == old(self).count,
    {
        match self.find_operator(sender, operator) {
            Some(i) => {
                let ghost ops = self.operators@;
                self.operators.remove(i);
                proof {
                    let n = self.operators@;
                    assert(n =~= ops.remove(i as int));
                    assert forall|a: int, b: int| 0 <= a < b < n.len() implies !(#[trigger] n[a].owner@
                        == #[trigger] n[b].owner@ && n[a].operator@ == n[b].operator@) by {
                        let a0 = if a < i { a } else { a + 1 };
                        let b0 = if b < i { b } else { b + 1 };
                        assert(n[a] == ops[a0] && n[b] == ops[b0]);
                    }
                    assert(!exists|j: int| 0 <= j < n.len() && n[j].owner@ == sender@ && n[j].operator@ == operator@)
                        by {
                        if exists|j: int| 0 <= j < n.len() && n[j].owner@ == sender@ && n[j].operator@ == operator@ {
                            let j = choose|j: int|
                                0 <= j < n.len() && n[j].owner@ == sender@ && n[j].operator@ == operator@;
                            let j0 = if j < i { j } else { j + 1 };
                            assert(n[j] == ops[j0]);
                        }
                    }
                    assert forall|o: Seq<char>, p: Seq<char>| !(o == sender@ && p == operator@) implies #[trigger] operator_expiry(
                        n,
                        o,
                        p,
                    ) == operator_expiry(ops, o, p) by {
                        lemma_other_pairs(ops, n, i as int, o, p);
                    }
                }
            },
            None => {},
        }
    }

    /// Moves token `id` to `recipient`, clearing its approvals; only who
    /// may send it may.
    pub fn nft_transfer(
        &mut self,
        sender: &String,
        market: &String,
        recipient: String,
        id: u64,
        height: u64,
        time: u64,
    ) -> (r: Result<(), PerpError>)
        requires
            old(self).wf(),
        ensures
            final(self).wf(),
            r is Err ==> *final(self) == *old(self),
            old(self).token(id) is None ==> r == Err::<(), PerpError>(PerpError::MissingPosition { id }),
            old(self).token(id) is Some ==> (r is Ok <==> old(self).can_send(sender@, market@, id, height, time)),
            old(self).token(id) is Some && r is Err ==> r == Err::<(), PerpError>(PerpError::Unauthorized),
            r is Ok ==> (final(self).token(id) matches Some(n) && n.id == id && n.owner@ == recipient@
                && n.approvals@.len() == 0),
            r is Ok ==> forall|x: u64| x != id ==> #[trigger] final(self).token(x) == old(self).token(x),
            r is Ok ==> final(self).operators@ == old(self).operators@ && final(self).count == old(self).count,
    {
        let i = match self.find_token(id) {
            Some(i) => i,
            None => return Err(PerpError::MissingPosition { id }),
        };
        self.nft_check_can_send(sender, market, id, height, time)?;
        let t = NftToken { id, owner: recipient, approvals: Vec::new() };
        self.replace_token(i, t);
        Ok(())
    }

    /// The owner of token `id` and its approvals, leaving out expired ones
    /// unless asked.
    pub fn nft_owner_of(&self, id: u64, include_expired: bool, height: u64, time: u64) -> (r: Result<
        (String, Vec<Approval>),
        PerpError,
    >)
        requires
            self.wf(),
        ensures
            match self.token(id) {
                None => r == Err::<(String, Vec<Approval>), PerpError>(PerpError::MissingPosition { id }),
                Some(t) => r matches Ok((owner, approvals)) && owner == t.owner && approvals@ == visible_approvals(
                    t.approvals@,
                    include_expired,
                    height,
                    time,
                ),
            },
    {
        match self.find_token(id) {
            None => Err(PerpError::MissingPosition { id }),
            Some(i) => Ok(
                (
                    self.tokens[i].owner.clone(),
                    filter_approvals(&self.tokens[i].approvals, include_expired, height, time),
                ),
            ),
        }
    }

    /// The approvals of token `id`, leaving out expired ones unless asked.
    pub fn nft_approvals(&self, id: u64, include_expired: bool, height: u64, time: u64) -> (r: Result<
        Vec<Approval>,
        PerpError,
    >)
        requires
            self.wf(),
        ensures
            match self.token(id) {
                None => r == Err::<Vec<Approval>, PerpError>(PerpError::MissingPosition { id }),
                Some(t) => r matches Ok(approvals) && approvals@ == visible_approvals(
                    t.approvals@,
                    include_expired,
                    height,
                    time,
                ),
            },
    {
        match self.find_token(id) {
            None => Err(PerpError::MissingPosition { id }),
            Some(i) => Ok(filter_approvals(&self.tokens[i].approvals, include_expired, height, time)),
        }
    }

    /// The approval of `spender` for token `id`: the owner's own, which
    /// never expires, or the first of the spender's approvals (leaving out
    /// expired ones unless asked); refused when there is none.
    pub fn nft_approval(&self, id: u64, spender: &String, include_expired: bool, height: u64, time: u64) -> (r: Result<
        Approval,
        PerpError,
    >)
        requires
            self.wf(),
        ensures
            match self.token(id) {
                None => r == Err::<Approval, PerpError>(PerpError::MissingPosition { id }),
                Some(t) => if t.owner@ == spender@ {
                    r matches Ok(a) && a.spender == t.owner && a.expires == Expiration::Never
                } else {
                    let found = spender_approvals(t.approvals@, spender@, include_expired, height, time);
                    if found.len() == 0 {
                        r == Err::<Approval, PerpError>(PerpError::ApprovalNotFound)
                    } else {
                        r == Ok::<Approval, PerpError>(found[0])
                    }
                },
            },
    {
        let i = match self.find_token(id) {
            None => return Err(PerpError::MissingPosition { id }),
            Some(i) => i,
        };
        if self.tokens[i].owner == *spender {
            return Ok(Approval { spender: self.tokens[i].owner.clone(), expires: Expiration::Never });
        }
        let found = matching_approvals(&self.tokens[i].approvals, spender, include_expired, height, time);
        if found.len() == 0 {
            Err(PerpError::ApprovalNotFound)
        } else {
            Ok(copy_approval(&found[0]))
        }
    }

    /// The number of tokens.
    pub fn nft_num_tokens(&self) -> (r: u64)
        requires
            self.wf(),
        ensures
            r == self.tokens@.len(),
    {
        self.count
    }
}

/// A spender approved for a token, until an expiration that has not passed,
/// may move it: what an approval leaves behind
/// ([`NftRegistry::nft_approve`]) grants [`NftRegistry::can_send`].
pub proof fn lemma_approval_grants_send(
    before: NftRegistry,
    after: NftRegistry,
    id: u64,
    spender: String,
    market: Seq<char>,
    expires: Expiration,
    height: u64,
    time: u64,
)
    requires
        before.token(id) matches Some(t) && after.token(id) matches Some(n) && n.owner == t.owner
            && n.approvals@ == replaced_approvals(t.approvals@, spender, true, expires),
        !spec_is_expired(expires, height, time),
    ensures
        after.can_send(spender@, market, id, height, time),
{
    let n = after.token(id)->0;
    let last = n.approvals@.len() - 1;
    assert(n.approvals@[last] == Approval { spender, expires });
    assert(n.approvals@[last].spender@ == spender@);
}

/// A revoked spender keeps no approval of the token, expired or not.
pub proof fn lemma_revoke_removes_approval(approvals: Seq<Approval>, spender: String, expires: Expiration, height: u64, time: u64)
    ensures
        !approved(replaced_approvals(approvals, spender, false, expires), spender@, height, time),
        forall|i: int|
            0 <= i < replaced_approvals(approvals, spender, false, expires).len() ==> (#[trigger] replaced_approvals(
                approvals,
                spender,
                false,
                expires,
            )[i]).spender@ != spender@,
{
    let kept = replaced_approvals(approvals, spender, false, expires);
    let p = |a: Approval| a.spender@ != spender@;
    assert forall|i: int| 0 <= i < kept.len() implies #[trigger] kept[i].spender@ != spender@ by {
        approvals.lemma_filter_pred(p, i);
    }
}

/// Once a token has moved, no earlier approval gives a right to it: only
/// its new owner, the market and the new owner's operators may move it.
pub proof fn lemma_transfer_clears_rights(reg: NftRegistry, id: u64, sender: Seq<char>, market: Seq<char>, height: u64, time: u64)
    requires
        reg.token(id) matches Some(n) && n.approvals@.len() == 0,
    ensures
        reg.can_send(sender, market, id, height, time) <==> (reg.token(id)->0.owner@ == sender || market == sender
            || operator_active(reg.operators@, reg.token(id)->0.owner@, sender, height, time)),
{
}

} // verus!
