//! Lamport balances and the moves between them.
use crate::pubkey::Pubkey;
use vstd::prelude::*;

verus! {

/// An order to take lamports from one account and give them to another.
#[derive(Clone, Copy, Debug, PartialEq, Eq)]
pub struct LamportMove {
    pub from: Pubkey,
    pub to: Pubkey,
    pub lamports: u64,
}

/// The balance of one account.
#[derive(Clone, Copy, Debug, PartialEq, Eq)]
pub struct LamportEntry {
    pub key: Pubkey,
    pub lamports: u64,
}

/// The balances of the accounts that an instruction was handed.
///
/// An account that plays several parts in an instruction has one balance here,
/// so a move to one of its parts is seen by all of them.
#[derive(Debug)]
pub struct Ledger {
    entries: Vec<LamportEntry>,
}

/// The balances that a list of entries holds, a later entry over an earlier one.
pub open spec fn entry_map(entries: Seq<LamportEntry>) -> Map<Pubkey, u64>
    decreases entries.len(),
{
    if entries.len() == 0 {
        Map::empty()
    } else {
        entry_map(entries.drop_last()).insert(entries.last().key, entries.last().lamports)
    }
}

/// No two entries are of the same account.
pub open spec fn one_entry_each(entries: Seq<LamportEntry>) -> bool {
    forall|i: int, j: int|
        0 <= i < entries.len() && 0 <= j < entries.len() && i != j ==> #[trigger] entries[i].key
            != #[trigger] entries[j].key
}

/// The balances after one move, or nothing where the move cannot be made: an
/// account is unknown, the source holds too little, or the target cannot hold
/// the sum. The source is debited before the target is credited.
pub open spec fn after_move(balances: Map<Pubkey, u64>, m: LamportMove) -> Option<Map<Pubkey, u64>> {
    if balances.contains_key(m.from) && balances.contains_key(m.to) && balances[m.from]
        >= m.lamports {
        let debited = balances.insert(m.from, (balances[m.from] - m.lamports) as u64);
        if debited[m.to] + m.lamports <= u64::MAX {
            Some(debited.insert(m.to, (debited[m.to] + m.lamports) as u64))
        } else {
            None
        }
    } else {
        None
    }
}

/// The balances after all the moves in turn, or nothing where one of them
/// cannot be made.
pub open spec fn after_moves(balances: Map<Pubkey, u64>, moves: Seq<LamportMove>) -> Option<
    Map<Pubkey, u64>,
>
    decreases moves.len(),
{
    if moves.len() == 0 {
        Some(balances)
    } else {
        match after_moves(balances, moves.drop_last()) {
            Some(before) => after_move(before, moves.last()),
            None => None,
        }
    }
}

/// The sum of all balances.
pub open spec fn total(balances: Map<Pubkey, u64>) -> int
    decreases balances.dom().len(),
{
    if balances.dom().finite() && balances.dom().len() > 0 {
        let key = balances.dom().choose();
        balances[key] + total(balances.remove(key))
    } else {
        0
    }
}

/// The sum of the lamports that a list of moves carries.
pub open spec fn moved_sum(moves: Seq<LamportMove>) -> int
    decreases moves.len(),
{
    if moves.len() == 0 {
        0
    } else {
        moved_sum(moves.drop_last()) + moves.last().lamports
    }
}

/// With one entry for each account, the map gives back each entry and holds
/// nothing else.
proof fn lemma_entry_map(entries: Seq<LamportEntry>)
    requires
        one_entry_each(entries),
    ensures
        forall|i: int|
            0 <= i < entries.len() ==> entry_map(entries).contains_key(
                (#[trigger] entries[i]).key,
            ) && entry_map(entries)[entries[i].key] == entries[i].lamports,
        forall|key: Pubkey| #[trigger]
            entry_map(entries).contains_key(key) ==> exists|i: int|
                0 <= i < entries.len() && (#[trigger] entries[i]).key == key,
        entry_map(entries).dom().finite(),
    decreases entries.len(),
{
    if entries.len() > 0 {
        let shorter = entries.drop_last();
        assert(forall|i: int| 0 <= i < shorter.len() ==> shorter[i] == entries[i]);
        assert(one_entry_each(shorter));
        lemma_entry_map(shorter);
        assert forall|i: int| 0 <= i < entries.len() implies entry_map(entries).contains_key(
            (#[trigger] entries[i]).key,
        ) && entry_map(entries)[entries[i].key] == entries[i].lamports by {
            if i < shorter.len() {
                assert(shorter[i] == entries[i]);
            }
        }
        assert forall|key: Pubkey| #[trigger] entry_map(entries).contains_key(key) implies exists|
            i: int,
        |
            0 <= i < entries.len() && (#[trigger] entries[i]).key == key by {
            if key == entries.last().key {
                assert(entries[entries.len() - 1].key == key);
            } else {
                assert(entry_map(shorter).contains_key(key));
                let i = choose|i: int| 0 <= i < shorter.len() && (#[trigger] shorter[i]).key == key;
                assert(entries[i].key == key);
            }
        }
    }
}

/// Replacing the balance of one entry replaces that account's balance.
proof fn lemma_entry_update(entries: Seq<LamportEntry>, at: int, lamports: u64)
    requires
        one_entry_each(entries),
        0 <= at < entries.len(),
    ensures
        one_entry_each(entries.update(at, LamportEntry { key: entries[at].key, lamports })),
        entry_map(entries.update(at, LamportEntry { key: entries[at].key, lamports }))
            == entry_map(entries).insert(entries[at].key, lamports),
{
    let changed = entries.update(at, LamportEntry { key: entries[at].key, lamports });
    assert(forall|i: int| 0 <= i < entries.len() ==> changed[i].key == entries[i].key);
    assert(one_entry_each(changed));
    lemma_entry_map(entries);
    lemma_entry_map(changed);
    let left = entry_map(changed);
    let right = entry_map(entries).insert(entries[at].key, lamports);
    assert forall|key: Pubkey| left.contains_key(key) == right.contains_key(key) by {
        if left.contains_key(key) {
            let i = choose|i: int| 0 <= i < changed.len() && (#[trigger] changed[i]).key == key;
            assert(entries[i].key == key);
        }
        if right.contains_key(key) && key != entries[at].key {
            assert(entry_map(entries).contains_key(key));
            let i = choose|i: int| 0 <= i < entries.len() && (#[trigger] entries[i]).key == key;
            assert(changed[i].key == key);
        }
        assert(changed[at].key == entries[at].key);
    }
    assert forall|key: Pubkey| left.contains_key(key) implies left[key] == right[key] by {
        let i = choose|i: int| 0 <= i < changed.len() && (#[trigger] changed[i]).key == key;
        assert(changed[i].key == entries[i].key);
    }
    assert(left =~= right);
}

impl View for Ledger {
    type V = Map<Pubkey, u64>;

    closed spec fn view(&self) -> Map<Pubkey, u64> {
        entry_map(self.entries@)
    }
}

impl Ledger {
    /// Each account has one balance.
    pub closed spec fn wf(&self) -> bool {
        one_entry_each(self.entries@)
    }

    /// A ledger knows finitely many accounts.
    pub proof fn knows_finitely_many(&self)
        requires
            self.wf(),
        ensures
            self@.dom().finite(),
    {
        lemma_entry_map(self.entries@);
    }

    /// A ledger of no accounts.
    pub fn new() -> (ledger: Ledger)
        ensures
            ledger.wf(),
            ledger@ == Map::<Pubkey, u64>::empty(),
    {
        Ledger { entries: Vec::new() }
    }

    /// Where the account's entry stands.
    fn position(&self, key: Pubkey) -> (at: Option<usize>)
        requires
            self.wf(),
        ensures
            match at {
                Some(i) => i < self.entries@.len() && self.entries@[i as int].key == key
                    && self@.contains_key(key) && self@[key] == self.entries@[i as int].lamports,
                None => !self@.contains_key(key) && forall|i: int|
                    0 <= i < self.entries@.len() ==> (#[trigger] self.entries@[i]).key != key,
            },
    {
        proof {
            lemma_entry_map(self.entries@);
        }
        let mut i: usize = 0;
        while i < self.entries.len()
            invariant
                self.wf(),
                i <= self.entries@.len(),
                forall|j: int| 0 <= j < i ==> (#[trigger] self.entries@[j]).key != key,
            decreases self.entries@.len() - i,
        {
            if self.entries[i].key == key {
                proof {
                    lemma_entry_map(self.entries@);
                }
                return Some(i);
            }
            i = i + 1;
        }
        None
    }

    /// The balance of an account, if the ledger knows it.
    pub fn balance(&self, key: Pubkey) -> (lamports: Option<u64>)
        requires
            self.wf(),
        ensures
            lamports == (if self@.contains_key(key) {
                Some(self@[key])
            } else {
                None
            }),
    {
        match self.position(key) {
            Some(i) => Some(self.entries[i].lamports),
            None => None,
        }
    }

    /// Sets the balance of an account, known before or not.
    pub fn record(&mut self, key: Pubkey, lamports: u64)
        requires
            old(self).wf(),
        ensures
            final(self).wf(),
            final(self)@ == old(self)@.insert(key, lamports),
    {
        match self.position(key) {
            Some(i) => {
                proof {
                    lemma_entry_update(self.entries@, i as int, lamports);
                }
                self.entries.set(i, LamportEntry { key, lamports });
            },
            None => {
                let ghost before = self.entries@;
                self.entries.push(LamportEntry { key, lamports });
                assert(self.entries@.drop_last() =~= before);
            },
        }
    }

    /// Makes one move. Tells whether it could be made; if not, nothing changed.
    pub fn apply_move(&mut self, m: LamportMove) -> (done: bool)
        requires
            old(self).wf(),
        ensures
            final(self).wf(),
            match after_move(old(self)@, m) {
                Some(balances) => done && final(self)@ == balances,
                None => !done && *final(self) == *old(self),
            },
    {
        match (self.balance(m.from), self.balance(m.to)) {
            (Some(source), Some(target)) => {
                if source < m.lamports {
                    return false;
                }
                let debited: u64 = source - m.lamports;
                let target: u64 = if m.from == m.to {
                    debited
                } else {
                    target
                };
                match target.checked_add(m.lamports) {
                    Some(credited) => {
                        self.record(m.from, debited);
                        self.record(m.to, credited);
                        true
                    },
                    None => false,
                }
            },
            _ => false,
        }
    }

    /// Makes all the moves in turn. Tells whether all of them could be made; if
    /// not, nothing changed.
    pub fn apply(&mut self, moves: &Vec<LamportMove>) -> (done: bool)
        requires
            old(self).wf(),
        ensures
            final(self).wf(),
            match after_moves(old(self)@, moves@) {
                Some(balances) => done && final(self)@ == balances,
                None => !done && *final(self) == *old(self),
            },
    {
        let mut work: Ledger = Ledger { entries: self.entries.clone() };
        assert(work.entries@ =~= self.entries@);
        let mut i: usize = 0;
        assert(moves@.take(0) =~= Seq::empty());
        while i < moves.len()
            invariant
                i <= moves@.len(),
                self.wf(),
                *self == *old(self),
                work.wf(),
                after_moves(self@, moves@.take(i as int)) == Some(work@),
            decreases moves@.len() - i,
        {
            proof {
                assert(moves@.take(i + 1).drop_last() =~= moves@.take(i as int));
                assert(moves@.take(i + 1).last() == moves@[i as int]);
            }
            if !work.apply_move(moves[i]) {
                proof {
                    lemma_failed_move_fails_all(self@, moves@, i + 1);
                }
                return false;
            }
            i = i + 1;
        }
        assert(moves@.take(i as int) =~= moves@);
        self.entries = work.entries;
        true
    }
}

/// Once a move cannot be made, no later one mends it.
proof fn lemma_failed_move_fails_all(
    balances: Map<Pubkey, u64>,
    moves: Seq<LamportMove>,
    upto: int,
)
    requires
        0 <= upto <= moves.len(),
        after_moves(balances, moves.take(upto)) is None,
    ensures
        after_moves(balances, moves) is None,
    decreases moves.len() - upto,
{
    if upto < moves.len() {
        assert(moves.take(upto + 1).drop_last() =~= moves.take(upto));
        lemma_failed_move_fails_all(balances, moves, upto + 1);
    } else {
        assert(moves.take(upto) =~= moves);
    }
}

/// The sum of the balances may be split off at any account.
proof fn lemma_total_remove(balances: Map<Pubkey, u64>, key: Pubkey)
    requires
        balances.dom().finite(),
        balances.contains_key(key),
    ensures
        total(balances) == balances[key] + total(balances.remove(key)),
    decreases balances.dom().len(),
{
    let first = balances.dom().choose();
    assert(balances.dom().contains(first));
    if first != key {
        let rest = balances.remove(first);
        lemma_total_remove(rest, key);
        let other = balances.remove(key);
        assert(other.contains_key(first));
        lemma_total_remove(other, first);
        assert(rest.remove(key) =~= other.remove(first));
    }
}

/// Setting the balance of a known account changes the sum by the difference.
proof fn lemma_total_insert(balances: Map<Pubkey, u64>, key: Pubkey, lamports: u64)
    requires
        balances.dom().finite(),
        balances.contains_key(key),
    ensures
        total(balances.insert(key, lamports)) == total(balances) - balances[key] + lamports,
{
    let changed = balances.insert(key, lamports);
    lemma_total_remove(balances, key);
    lemma_total_remove(changed, key);
    assert(changed.remove(key) =~= balances.remove(key));
}

/// No balance is above the sum.
proof fn lemma_balance_within_total(balances: Map<Pubkey, u64>, key: Pubkey)
    requires
        balances.dom().finite(),
        balances.contains_key(key),
    ensures
        0 <= balances[key] <= total(balances),
{
    lemma_total_remove(balances, key);
    lemma_total_nonnegative(balances.remove(key));
}

proof fn lemma_total_nonnegative(balances: Map<Pubkey, u64>)
    ensures
        total(balances) >= 0,
    decreases balances.dom().len(),
{
    if balances.dom().finite() && balances.dom().len() > 0 {
        lemma_total_nonnegative(balances.remove(balances.dom().choose()));
    }
}

/// When a move can be made, and what it leaves: the source has to hold the amount,
/// the target, if it is another account, has to be able to hold it too, the two
/// balances change by it, a move to oneself changes none, and no other does.
pub proof fn a_move_takes_and_gives(balances: Map<Pubkey, u64>, m: LamportMove, key: Pubkey)
    ensures
        after_move(balances, m) is Some <==> {
            &&& balances.contains_key(m.from)
            &&& balances.contains_key(m.to)
            &&& balances[m.from] >= m.lamports
            &&& m.from != m.to ==> balances[m.to] + m.lamports <= u64::MAX
        },
        after_move(balances, m) is Some ==> {
            let after = after_move(balances, m)->0;
            &&& after.contains_key(key) <==> balances.contains_key(key)
            &&& m.from == m.to ==> after[key] == balances[key]
            &&& m.from != m.to && key == m.from ==> after[key] == balances[key] - m.lamports
            &&& m.from != m.to && key == m.to ==> after[key] == balances[key] + m.lamports
            &&& key != m.from && key != m.to ==> after[key] == balances[key]
        },
{
}

/// Moves are made one after the other: first those of one list and then those of
/// another is the same as those of both, and where the first cannot be made nothing
/// is. No moves change nothing.
pub proof fn moves_follow_each_other(
    balances: Map<Pubkey, u64>,
    first: Seq<LamportMove>,
    second: Seq<LamportMove>,
)
    ensures
        after_moves(balances, Seq::empty()) == Some(balances),
        after_moves(balances, first + second) == (match after_moves(balances, first) {
            Some(between) => after_moves(between, second),
            None => None,
        }),
    decreases second.len(),
{
    if second.len() == 0 {
        assert(first + second =~= first);
    } else {
        assert((first + second).drop_last() =~= first + second.drop_last());
        moves_follow_each_other(balances, first, second.drop_last());
    }
}

/// A list of one move is that move.
pub proof fn one_move_is_itself(balances: Map<Pubkey, u64>, m: LamportMove)
    ensures
        after_moves(balances, seq![m]) == after_move(balances, m),
{
    reveal_with_fuel(after_moves, 2);
    assert(seq![m].drop_last() =~= Seq::empty());
}

/// A move keeps the accounts and the sum of their balances.
pub proof fn move_conserves_lamports(balances: Map<Pubkey, u64>, m: LamportMove)
    requires
        balances.dom().finite(),
        after_move(balances, m) is Some,
    ensures
        after_move(balances, m)->0.dom() == balances.dom(),
        total(after_move(balances, m)->0) == total(balances),
{
    let debited = balances.insert(m.from, (balances[m.from] - m.lamports) as u64);
    lemma_total_insert(balances, m.from, (balances[m.from] - m.lamports) as u64);
    lemma_total_insert(debited, m.to, (debited[m.to] + m.lamports) as u64);
    assert(after_move(balances, m)->0.dom() =~= balances.dom());
}

/// Any list of moves keeps the accounts and the sum of their balances.
pub proof fn moves_conserve_lamports(balances: Map<Pubkey, u64>, moves: Seq<LamportMove>)
    requires
        balances.dom().finite(),
        after_moves(balances, moves) is Some,
    ensures
        after_moves(balances, moves)->0.dom() == balances.dom(),
        total(after_moves(balances, moves)->0) == total(balances),
    decreases moves.len(),
{
    if moves.len() > 0 {
        moves_conserve_lamports(balances, moves.drop_last());
        move_conserves_lamports(after_moves(balances, moves.drop_last())->0, moves.last());
    }
}

/// Where the sum of all balances can be counted, the moves out of one account
/// can be made whenever it holds their sum, whatever accounts they go to and
/// however often; and it is then debited by that sum, less what it was itself
/// given.
pub proof fn covered_moves_can_be_made(
    balances: Map<Pubkey, u64>,
    source: Pubkey,
    moves: Seq<LamportMove>,
)
    requires
        balances.dom().finite(),
        total(balances) <= u64::MAX,
        balances.contains_key(source),
        balances[source] >= moved_sum(moves),
        forall|i: int|
            0 <= i < moves.len() ==> (#[trigger] moves[i]).from == source && balances.contains_key(
                moves[i].to,
            ),
    ensures
        after_moves(balances, moves) is Some,
        after_moves(balances, moves)->0.contains_key(source),
        after_moves(balances, moves)->0[source] >= balances[source] - moved_sum(moves),
        (forall|i: int| 0 <= i < moves.len() ==> (#[trigger] moves[i]).to != source)
            ==> after_moves(balances, moves)->0[source] == balances[source] - moved_sum(moves),
    decreases moves.len(),
{
    if moves.len() > 0 {
        let shorter = moves.drop_last();
        let last = moves.last();
        assert(forall|i: int| 0 <= i < shorter.len() ==> shorter[i] == moves[i]);
        assert(last == moves[moves.len() - 1]);
        covered_moves_can_be_made(balances, source, shorter);
        let before = after_moves(balances, shorter)->0;
        moves_conserve_lamports(balances, shorter);
        assert(before.contains_key(last.to));
        let debited = before.insert(last.from, (before[last.from] - last.lamports) as u64);
        lemma_total_insert(before, last.from, (before[last.from] - last.lamports) as u64);
        lemma_balance_within_total(debited, last.to);
    }
}

/// What a list of moves gives to an account.
pub open spec fn credited(moves: Seq<LamportMove>, key: Pubkey) -> int
    decreases moves.len(),
{
    if moves.len() == 0 {
        0
    } else {
        credited(moves.drop_last(), key) + if moves.last().to == key {
            moves.last().lamports as int
        } else {
            0
        }
    }
}

/// What a list of moves takes from an account.
pub open spec fn debited(moves: Seq<LamportMove>, key: Pubkey) -> int
    decreases moves.len(),
{
    if moves.len() == 0 {
        0
    } else {
        debited(moves.drop_last(), key) + if moves.last().from == key {
            moves.last().lamports as int
        } else {
            0
        }
    }
}

/// After a list of moves every account holds what it held, plus what the moves
/// gave it, less what they took from it.
pub proof fn moves_change_balances(
    balances: Map<Pubkey, u64>,
    moves: Seq<LamportMove>,
    key: Pubkey,
)
    requires
        after_moves(balances, moves) is Some,
        balances.contains_key(key),
    ensures
        after_moves(balances, moves)->0.contains_key(key),
        after_moves(balances, moves)->0[key] == balances[key] + credited(moves, key) - debited(
            moves,
            key,
        ),
    decreases moves.len(),
{
    if moves.len() > 0 {
        moves_change_balances(balances, moves.drop_last(), key);
    }
}

/// The moves by which each payer in turn pays the same to one account.
pub open spec fn collection(payers: Seq<Pubkey>, to: Pubkey, lamports: u64) -> Seq<LamportMove> {
    Seq::new(payers.len(), |i: int| LamportMove { from: payers[i], to, lamports })
}

/// How often an account is among the payers.
pub open spec fn times(payers: Seq<Pubkey>, key: Pubkey) -> nat
    decreases payers.len(),
{
    if payers.len() == 0 {
        0
    } else {
        times(payers.drop_last(), key) + if payers.last() == key {
            1nat
        } else {
            0nat
        }
    }
}

proof fn lemma_times_of_others(payers: Seq<Pubkey>, key: Pubkey)
    requires
        !payers.contains(key),
    ensures
        times(payers, key) == 0,
    decreases payers.len(),
{
    if payers.len() > 0 {
        let shorter = payers.drop_last();
        assert(payers.contains(payers.last())) by {
            assert(payers[payers.len() - 1] == payers.last());
        }
        assert(!shorter.contains(key)) by {
            if shorter.contains(key) {
                let i = choose|i: int| 0 <= i < shorter.len() && shorter[i] == key;
                assert(payers[i] == key);
            }
        }
        lemma_times_of_others(shorter, key);
    }
}

proof fn lemma_collection_sums(payers: Seq<Pubkey>, to: Pubkey, lamports: u64, key: Pubkey)
    ensures
        credited(collection(payers, to, lamports), key) == (if key == to {
            lamports * payers.len()
        } else {
            0
        }),
        debited(collection(payers, to, lamports), key) == lamports * times(payers, key),
    decreases payers.len(),
{
    let moves = collection(payers, to, lamports);
    if payers.len() > 0 {
        let shorter = payers.drop_last();
        lemma_collection_sums(shorter, to, lamports, key);
        assert(moves.drop_last() =~= collection(shorter, to, lamports));
        let n = shorter.len();
        let t = times(shorter, key);
        assert(lamports * n + lamports == lamports * (n + 1) && lamports * t + lamports == lamports
            * (t + 1)) by (nonlinear_arith);
    } else {
        assert(lamports * 0 == 0) by (nonlinear_arith);
    }
}

/// Once everybody has paid, the account that collects holds as many payments more
/// as there were payers, and each payer one payment less for every time that it
/// paid. An account that collects and pays nothing itself gains them all.
pub proof fn collections_add_up(
    balances: Map<Pubkey, u64>,
    payers: Seq<Pubkey>,
    to: Pubkey,
    lamports: u64,
    key: Pubkey,
)
    requires
        after_moves(balances, collection(payers, to, lamports)) is Some,
        balances.contains_key(key),
    ensures
        after_moves(balances, collection(payers, to, lamports))->0[key] == balances[key] + (if key
            == to {
            lamports * payers.len()
        } else {
            0
        }) - lamports * times(payers, key),
        !payers.contains(key) ==> times(payers, key) == 0,
        key == to && !payers.contains(to) ==> after_moves(
            balances,
            collection(payers, to, lamports),
        )->0[to] == balances[to] + lamports * payers.len(),
{
    moves_change_balances(balances, collection(payers, to, lamports), key);
    lemma_collection_sums(payers, to, lamports, key);
    if !payers.contains(key) {
        lemma_times_of_others(payers, key);
        assert(lamports * 0 == 0) by (nonlinear_arith);
    }
}

} // verus!
