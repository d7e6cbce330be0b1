//! Routing an ordered stream of transaction records to per-client accounts.
//!
//! The ledger is a map from client id to [`Client`] account. Each record is
//! dispatched to the account it names, which is created lazily on first
//! reference; a record whose operation fails leaves its account unchanged
//! and never stops the stream, and a deposit or withdrawal record without an
//! amount is skipped altogether. The whole run is specified by the
//! spec-level interpreter [`spec_process`].

use crate::client::chargeback_fits;
use crate::client::deposit_fits;
use crate::client::dispute_fits;
use crate::client::resolve_fits;
use crate::client::spec_chargeback;
use crate::client::spec_deposit;
use crate::client::spec_dispute;
use crate::client::spec_resolve;
use crate::client::spec_withdrawal;
use crate::client::AccountModel;
use crate::client::Client;
use crate::money::Money;
use crate::Error;
use std::collections::BTreeMap;
use vstd::prelude::*;

verus! {

broadcast use
    crate::money::lemma_money_fits,
    vstd::laws_cmp::group_laws_cmp,
    vstd::std_specs::btree::group_btree_axioms,
;

/// The kind of operation an input record asks for.
#[derive(Debug, Clone, Copy, PartialEq, Eq, Structural)]
pub enum TransactionType {
    Deposit,
    Withdrawal,
    Dispute,
    Resolve,
    Chargeback,
}

/// The mathematical content of a [`Token`]: the same fields with the amount
/// as an unbounded integer.
pub struct TokenModel {
    pub transaction_type: TransactionType,
    pub client_id: u16,
    pub transaction_id: u32,
    pub amount: Option<int>,
}

/// One parsed input record: an operation kind, the client it addresses, the
/// transaction id it creates or refers to, and — for deposits and
/// withdrawals only — an amount.
#[derive(Debug, Clone, Copy)]
pub struct Token {
    pub transaction_type: TransactionType,
    pub client_id: u16,
    pub transaction_id: u32,
    pub amount: Option<Money>,
}

impl View for Token {
    type V = TokenModel;

    open spec fn view(&self) -> TokenModel {
        TokenModel {
            transaction_type: self.transaction_type,
            client_id: self.client_id,
            transaction_id: self.transaction_id,
            amount: match self.amount {
                Some(m) => Some(m@),
                None => None,
            },
        }
    }
}

/// The whole ledger seen mathematically: each created account by client id.
pub open spec fn ledger_view(m: Map<u16, Client>) -> Map<u16, AccountModel> {
    m.map_values(|c: Client| c@)
}

/// Every account of the ledger keeps the balance-sheet invariant
/// `total == available + held`.
pub open spec fn ledger_balanced(l: Map<u16, AccountModel>) -> bool {
    forall|id: u16| l.contains_key(id) ==> (#[trigger] l[id]).balanced()
}

/// The account a record addresses: the stored one, or — on first reference
/// to this client — a fresh one.
pub open spec fn account_of(l: Map<u16, AccountModel>, client_id: u16) -> AccountModel {
    if l.contains_key(client_id) {
        l[client_id]
    } else {
        AccountModel::fresh(client_id)
    }
}

/// A record's amount, where it carries one, is non-negative — the sign of
/// its effect is decided by the operation kind, never stored.
pub open spec fn token_amount_ok(t: TokenModel) -> bool {
    match t.amount {
        Some(amount) => amount >= 0,
        None => true,
    }
}

/// Every record of a stream satisfies [`token_amount_ok`].
pub open spec fn tokens_amounts_ok(tokens: Seq<TokenModel>) -> bool {
    forall|i: int| 0 <= i < tokens.len() ==> token_amount_ok(#[trigger] tokens[i])
}

/// What routing one record does to the ledger, and what the operation
/// answered: the addressed account is fetched or created and the matching
/// operation applied; a deposit or withdrawal without an amount changes
/// nothing and answers nothing.
pub open spec fn spec_route(l: Map<u16, AccountModel>, t: TokenModel) -> (
    Map<u16, AccountModel>,
    Option<Result<(), Error>>,
) {
    let a = account_of(l, t.client_id);
    match t.transaction_type {
        TransactionType::Deposit => match t.amount {
            Some(amount) => {
                let (b, res) = spec_deposit(a, t.transaction_id, amount);
                (l.insert(t.client_id, b), Some(res))
            },
            None => (l, None),
        },
        TransactionType::Withdrawal => match t.amount {
            Some(amount) => {
                let (b, res) = spec_withdrawal(a, t.transaction_id, amount);
                (l.insert(t.client_id, b), Some(res))
            },
            None => (l, None),
        },
        TransactionType::Dispute => {
            let (b, res) = spec_dispute(a, t.transaction_id);
            (l.insert(t.client_id, b), Some(res))
        },
        TransactionType::Resolve => {
            let (b, res) = spec_resolve(a, t.transaction_id);
            (l.insert(t.client_id, b), Some(res))
        },
        TransactionType::Chargeback => {
            let (b, res) = spec_chargeback(a, t.transaction_id);
            (l.insert(t.client_id, b), Some(res))
        },
    }
}

/// Routing a whole stream of records, first record first.
pub open spec fn spec_process(l: Map<u16, AccountModel>, tokens: Seq<TokenModel>) -> Map<
    u16,
    AccountModel,
>
    decreases tokens.len(),
{
    if tokens.len() == 0 {
        l
    } else {
        spec_process(spec_route(l, tokens[0]).0, tokens.skip(1))
    }
}

/// Routing one record keeps all its arithmetic within the fixed-point range.
pub open spec fn route_fits(l: Map<u16, AccountModel>, t: TokenModel) -> bool {
    let a = account_of(l, t.client_id);
    match t.transaction_type {
        TransactionType::Deposit => match t.amount {
            Some(amount) => deposit_fits(a, amount),
            None => true,
        },
        TransactionType::Withdrawal => true,
        TransactionType::Dispute => dispute_fits(a, t.transaction_id),
        TransactionType::Resolve => resolve_fits(a, t.transaction_id),
        TransactionType::Chargeback => chargeback_fits(a, t.transaction_id),
    }
}

/// Routing a whole stream keeps every step's arithmetic within the
/// fixed-point range.
pub open spec fn stream_fits(l: Map<u16, AccountModel>, tokens: Seq<TokenModel>) -> bool
    decreases tokens.len(),
{
    tokens.len() == 0 || (route_fits(l, tokens[0]) && stream_fits(
        spec_route(l, tokens[0]).0,
        tokens.skip(1),
    ))
}

proof fn lemma_ledger_view_reinsert(m: Map<u16, Client>, k: u16, c: Client)
    ensures
        ledger_view(m.remove(k).insert(k, c)) =~= ledger_view(m).insert(k, c@),
{
}

/// Take the addressed account out of the ledger, creating it on first
/// reference.
fn take_or_create(clients: &mut BTreeMap<u16, Client>, client_id: u16) -> (c: Client)
    ensures
        c@ == account_of(ledger_view(old(clients)@), client_id),
        final(clients)@ == old(clients)@.remove(client_id),
{
    match clients.remove(&client_id) {
        Some(c) => c,
        None => {
            proof {
                assert(old(clients)@.remove(client_id) =~= old(clients)@);
            }
            Client::new(client_id)
        },
    }
}

/// Route one record: fetch or create the addressed account, apply the
/// matching operation, and answer what it answered — `None` for a deposit
/// or withdrawal without an amount, which is skipped without any change.
pub fn route(clients: &mut BTreeMap<u16, Client>, token: Token) -> (r: Option<Result<(), Error>>)
    requires
        ledger_balanced(ledger_view(old(clients)@)),
        token_amount_ok(token@),
        route_fits(ledger_view(old(clients)@), token@),
    ensures
        ledger_view(final(clients)@) == spec_route(ledger_view(old(clients)@), token@).0,
        r == spec_route(ledger_view(old(clients)@), token@).1,
        ledger_balanced(ledger_view(final(clients)@)),
{
    let ghost l0 = ledger_view(clients@);
    match token.transaction_type {
        TransactionType::Deposit => match token.amount {
            Some(amount) => {
                let mut account = take_or_create(clients, token.client_id);
                let res = account.deposit(token.transaction_id, amount);
                clients.insert(token.client_id, account);
                proof {
                    lemma_ledger_view_reinsert(old(clients)@, token.client_id, account);
                    assert(ledger_view(clients@) =~= spec_route(l0, token@).0);
                }
                Some(res)
            },
            None => None,
        },
        TransactionType::Withdrawal => match token.amount {
            Some(amount) => {
                let mut account = take_or_create(clients, token.client_id);
                let res = account.withdrawal(token.transaction_id, amount);
                clients.insert(token.client_id, account);
                proof {
                    lemma_ledger_view_reinsert(old(clients)@, token.client_id, account);
                    assert(ledger_view(clients@) =~= spec_route(l0, token@).0);
                }
                Some(res)
            },
            None => None,
        },
        TransactionType::Dispute => {
            let mut account = take_or_create(clients, token.client_id);
            let res = account.dispute(token.transaction_id);
            clients.insert(token.client_id, account);
            proof {
                lemma_ledger_view_reinsert(old(clients)@, token.client_id, account);
                assert(ledger_view(clients@) =~= spec_route(l0, token@).0);
            }
            Some(res)
        },
        TransactionType::Resolve => {
            let mut account = take_or_create(clients, token.client_id);
            let res = account.resolve(token.transaction_id);
            clients.insert(token.client_id, account);
            proof {
                lemma_ledger_view_reinsert(old(clients)@, token.client_id, account);
                assert(ledger_view(clients@) =~= spec_route(l0, token@).0);
            }
            Some(res)
        },
        TransactionType::Chargeback => {
            let mut account = take_or_create(clients, token.client_id);
            let res = account.chargeback(token.transaction_id);
            clients.insert(token.client_id, account);
            proof {
                lemma_ledger_view_reinsert(old(clients)@, token.client_id, account);
                assert(ledger_view(clients@) =~= spec_route(l0, token@).0);
            }
            Some(res)
        },
    }
}

proof fn lemma_process_push(l: Map<u16, AccountModel>, s: Seq<TokenModel>, t: TokenModel)
    ensures
        spec_process(l, s.push(t)) == spec_route(spec_process(l, s), t).0,
    decreases s.len(),
{
    if s.len() == 0 {
        assert(s.push(t)[0] == t);
        assert(s.push(t).skip(1) =~= Seq::<TokenModel>::empty());
        assert(spec_process(l, s.push(t)) == spec_process(
            spec_route(l, t).0,
            s.push(t).skip(1),
        ));
        assert(spec_process(spec_route(l, t).0, s.push(t).skip(1)) == spec_route(l, t).0);
        assert(spec_process(l, s) == l);
    } else {
        let l1 = spec_route(l, s[0]).0;
        assert(s.push(t)[0] == s[0]);
        assert(s.push(t).skip(1) =~= s.skip(1).push(t));
        lemma_process_push(l1, s.skip(1), t);
        assert(spec_process(l, s.push(t)) == spec_process(l1, s.push(t).skip(1)));
        assert(spec_process(l, s) == spec_process(l1, s.skip(1)));
    }
}

/// Apply a whole stream of records in arrival order, creating accounts on
/// first reference. One record's failure never stops the stream, and the
/// final ledger is exactly what [`spec_process`] says of the input.
pub fn process_requests(tokens: Vec<Token>, clients: BTreeMap<u16, Client>) -> (r: BTreeMap<
    u16,
    Client,
>)
    requires
        ledger_balanced(ledger_view(clients@)),
        tokens_amounts_ok(tokens@.map_values(|t: Token| t@)),
        stream_fits(ledger_view(clients@), tokens@.map_values(|t: Token| t@)),
    ensures
        ledger_view(r@) == spec_process(ledger_view(clients@), tokens@.map_values(|t: Token| t@)),
        ledger_balanced(ledger_view(r@)),
{
    let ghost l0 = ledger_view(clients@);
    let ghost ts = tokens@.map_values(|t: Token| t@);
    let mut clients = clients;
    let n = tokens.len();
    let mut i: usize = 0;
    proof {
        assert(ts.skip(0) =~= ts);
        assert(ts.take(0) =~= Seq::<TokenModel>::empty());
    }
    while i < n
        invariant
            i <= n,
            n == tokens.len(),
            ts == tokens@.map_values(|t: Token| t@),
            tokens_amounts_ok(ts),
            ledger_balanced(ledger_view(clients@)),
            ledger_view(clients@) == spec_process(l0, ts.take(i as int)),
            stream_fits(ledger_view(clients@), ts.skip(i as int)),
        decreases n - i,
    {
        let token = tokens[i];
        proof {
            assert(ts.skip(i as int)[0] == ts[i as int]);
            assert(ts[i as int] == token@);
        }
        let _ = route(&mut clients, token);
        proof {
            assert(ts.take(i as int).push(ts[i as int]) =~= ts.take(i as int + 1));
            lemma_process_push(l0, ts.take(i as int), ts[i as int]);
            assert(ts.skip(i as int).skip(1) =~= ts.skip(i as int + 1));
        }
        i += 1;
    }
    proof {
        assert(ts.take(n as int) =~= ts);
    }
    clients
}

proof fn lemma_stream_fits_push(l: Map<u16, AccountModel>, s: Seq<TokenModel>, t: TokenModel)
    ensures
        stream_fits(l, s.push(t)) <==> (stream_fits(l, s) && route_fits(spec_process(l, s), t)),
    decreases s.len(),
{
    if s.len() == 0 {
        assert(s.push(t)[0] == t);
        assert(s.push(t).skip(1) =~= Seq::<TokenModel>::empty());
        assert(stream_fits(spec_route(l, t).0, Seq::<TokenModel>::empty()));
        assert(spec_process(l, s) == l);
        assert(stream_fits(l, s.push(t)) <==> route_fits(l, t));
    } else {
        let l1 = spec_route(l, s[0]).0;
        assert(s.push(t)[0] == s[0]);
        assert(s.push(t).skip(1) =~= s.skip(1).push(t));
        lemma_stream_fits_push(l1, s.skip(1), t);
        assert(spec_process(l, s) == spec_process(l1, s.skip(1)));
        assert(stream_fits(l, s.push(t)) <==> (route_fits(l, s[0]) && stream_fits(
            l1,
            s.skip(1).push(t),
        )));
        assert(stream_fits(l, s) <==> (route_fits(l, s[0]) && stream_fits(l1, s.skip(1))));
    }
}

proof fn lemma_stream_fits_prefix_step(l: Map<u16, AccountModel>, s: Seq<TokenModel>, i: int)
    requires
        0 <= i < s.len(),
        stream_fits(l, s),
    ensures
        route_fits(spec_process(l, s.take(i)), s[i]),
    decreases i,
{
    if i == 0 {
        assert(s.take(0) =~= Seq::<TokenModel>::empty());
        assert(spec_process(l, s.take(0)) == l);
    } else {
        let l1 = spec_route(l, s[0]).0;
        lemma_stream_fits_prefix_step(l1, s.skip(1), i - 1);
        assert(s.take(i)[0] == s[0]);
        assert(s.take(i).skip(1) =~= s.skip(1).take(i - 1));
        assert(spec_process(l, s.take(i)) == spec_process(l1, s.take(i).skip(1)));
        assert(s.skip(1)[i - 1] == s[i]);
    }
}

/// Does routing this record keep all its arithmetic within the fixed-point
/// range, and is its amount, where it has one, non-negative? Decided at run
/// time, without touching the ledger.
fn route_fits_check(clients: &BTreeMap<u16, Client>, token: Token) -> (b: bool)
    ensures
        b == (token_amount_ok(token@) && route_fits(ledger_view(clients@), token@)),
{
    let amount_ok = match token.amount {
        Some(m) => !m.is_negative(),
        None => true,
    };
    if !amount_ok {
        return false;
    }
    match clients.get(&token.client_id) {
        None => {
            proof {
                assert(!ledger_view(clients@).contains_key(token.client_id));
            }
            true
        },
        Some(c) => {
            proof {
                assert(ledger_view(clients@).contains_key(token.client_id));
                assert(ledger_view(clients@)[token.client_id] == c@);
            }
            match token.transaction_type {
                TransactionType::Deposit => match token.amount {
                    Some(amount) => {
                        if c.is_locked() {
                            true
                        } else {
                            c.available().checked_plus(amount).is_some() && c.total().checked_plus(
                                amount,
                            ).is_some()
                        }
                    },
                    None => true,
                },
                TransactionType::Withdrawal => true,
                TransactionType::Dispute => {
                    if c.is_locked() {
                        true
                    } else {
                        match c.get_transaction(token.transaction_id) {
                            Some(t) => {
                                let amt = t.get_amount();
                                c.held().checked_plus(amt).is_some() && c.available()
                                    .checked_minus(amt)
                                    .is_some()
                            },
                            None => true,
                        }
                    }
                },
                TransactionType::Resolve => {
                    if c.is_locked() {
                        true
                    } else {
                        match c.get_transaction(token.transaction_id) {
                            Some(t) => {
                                if !t.get_dispute_status() {
                                    true
                                } else {
                                    let amt = t.get_amount();
                                    c.held().checked_minus(amt).is_some() && c.available()
                                        .checked_plus(amt)
                                        .is_some()
                                }
                            },
                            None => true,
                        }
                    }
                },
                TransactionType::Chargeback => {
                    if c.is_locked() {
                        true
                    } else {
                        match c.get_transaction(token.transaction_id) {
                            Some(t) => {
                                if !t.get_dispute_status() {
                                    true
                                } else {
                                    let amt = t.get_amount();
                                    c.held().checked_minus(amt).is_some() && c.total()
                                        .checked_minus(amt)
                                        .is_some()
                                }
                            },
                            None => true,
                        }
                    }
                },
            }
        },
    }
}

/// Apply a whole stream like [`process_requests`], but test each record's
/// arithmetic at run time instead of assuming it. The answer is the final
/// ledger exactly when every recorded amount is non-negative and every
/// step's arithmetic stays within the fixed-point range; otherwise it is
/// `None`.
pub fn checked_process_requests(tokens: Vec<Token>, clients: BTreeMap<u16, Client>) -> (r: Option<
    BTreeMap<u16, Client>,
>)
    requires
        ledger_balanced(ledger_view(clients@)),
    ensures
        ({
            let l0 = ledger_view(clients@);
            let ts = tokens@.map_values(|t: Token| t@);
            match r {
                Some(res) => {
                    &&& tokens_amounts_ok(ts)
                    &&& stream_fits(l0, ts)
                    &&& ledger_view(res@) == spec_process(l0, ts)
                    &&& ledger_balanced(ledger_view(res@))
                },
                None => !(tokens_amounts_ok(ts) && stream_fits(l0, ts)),
            }
        }),
{
    let ghost l0 = ledger_view(clients@);
    let ghost ts = tokens@.map_values(|t: Token| t@);
    let mut ledger = clients;
    let n = tokens.len();
    let mut i: usize = 0;
    let mut failed = false;
    proof {
        assert(ts.take(0) =~= Seq::<TokenModel>::empty());
    }
    while i < n && !failed
        invariant
            i <= n,
            n == tokens.len(),
            ts == tokens@.map_values(|t: Token| t@),
            ledger_balanced(ledger_view(ledger@)),
            ledger_view(ledger@) == spec_process(l0, ts.take(i as int)),
            stream_fits(l0, ts.take(i as int)),
            tokens_amounts_ok(ts.take(i as int)),
            failed ==> !(tokens_amounts_ok(ts) && stream_fits(l0, ts)),
        decreases n - i + (if failed {
            0int
        } else {
            1int
        }),
    {
        let token = tokens[i];
        proof {
            assert(ts[i as int] == token@);
        }
        if !route_fits_check(&ledger, token) {
            failed = true;
            proof {
                assert(ts.len() == n as int);
                if !token_amount_ok(ts[i as int]) {
                    assert(!tokens_amounts_ok(ts));
                } else {
                    assert(!route_fits(ledger_view(ledger@), ts[i as int]));
                    if stream_fits(l0, ts) {
                        lemma_stream_fits_prefix_step(l0, ts, i as int);
                        assert(false);
                    }
                }
            }
        } else {
            let _ = route(&mut ledger, token);
            proof {
                assert(ts.take(i as int).push(ts[i as int]) =~= ts.take(i as int + 1));
                lemma_process_push(l0, ts.take(i as int), ts[i as int]);
                lemma_stream_fits_push(l0, ts.take(i as int), ts[i as int]);
                assert forall|j: int| 0 <= j < i as int + 1 implies token_amount_ok(
                    #[trigger] ts.take(i as int + 1)[j],
                ) by {
                    if j < i as int {
                        assert(ts.take(i as int + 1)[j] == ts.take(i as int)[j]);
                    } else {
                        assert(ts.take(i as int + 1)[j] == ts[i as int]);
                    }
                }
            }
            i += 1;
        }
    }
    if failed {
        return None;
    }
    proof {
        assert(ts.take(n as int) =~= ts);
    }
    Some(ledger)
}

proof fn lemma_route_keeps_balanced(l: Map<u16, AccountModel>, t: TokenModel)
    requires
        ledger_balanced(l),
    ensures
        ledger_balanced(spec_route(l, t).0),
{
    if l.contains_key(t.client_id) {
        assert(l[t.client_id].balanced());
    }
    assert(account_of(l, t.client_id).balanced());
    assert forall|id: u16| spec_route(l, t).0.contains_key(id) implies (#[trigger] spec_route(
        l,
        t,
    ).0[id]).balanced() by {
        if id != t.client_id {
            assert(l.contains_key(id) && spec_route(l, t).0[id] == l[id]);
        }
    }
}

/// Law: every account of a ledger reached by routing any stream of records
/// from a ledger of balanced accounts is balanced — its total is exactly
/// its available funds plus its held funds.
pub proof fn lemma_process_keeps_balanced(l: Map<u16, AccountModel>, tokens: Seq<TokenModel>)
    requires
        ledger_balanced(l),
    ensures
        ledger_balanced(spec_process(l, tokens)),
    decreases tokens.len(),
{
    if tokens.len() > 0 {
        lemma_route_keeps_balanced(l, tokens[0]);
        lemma_process_keeps_balanced(spec_route(l, tokens[0]).0, tokens.skip(1));
    }
}

/// Law: a frozen account is terminal. Once an account is locked, no later
/// record of any stream changes it in any way — every operation on it is
/// rejected.
pub proof fn lemma_locked_account_is_terminal(
    l: Map<u16, AccountModel>,
    tokens: Seq<TokenModel>,
    client_id: u16,
)
    requires
        l.contains_key(client_id),
        l[client_id].locked,
    ensures
        spec_process(l, tokens).contains_key(client_id),
        spec_process(l, tokens)[client_id] == l[client_id],
    decreases tokens.len(),
{
    if tokens.len() > 0 {
        let l1 = spec_route(l, tokens[0]).0;
        assert(l1.contains_key(client_id) && l1[client_id] == l[client_id]);
        lemma_locked_account_is_terminal(l1, tokens.skip(1), client_id);
    }
}

} // verus!
