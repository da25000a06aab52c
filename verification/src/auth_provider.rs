//! The accounts that the server knows. An alias belongs to whoever used it
//! first, with the password given then.

use vstd::prelude::*;

verus! {

/// The accounts as a mathematical value: alias and password, in the order
/// in which the accounts were made.
pub type AccountsView = Seq<(Seq<char>, Seq<char>)>;

/// The place of the account with the alias, or the number of accounts if
/// there is none.
pub open spec fn account_index(accounts: AccountsView, alias: Seq<char>) -> int
    decreases accounts.len(),
{
    if accounts.len() == 0 {
        0
    } else if accounts[0].0 == alias {
        0
    } else {
        1 + account_index(accounts.drop_first(), alias)
    }
}

/// Whether the credentials pass: the alias is free, or it is taken with
/// this password.
pub open spec fn query_accepts(accounts: AccountsView, alias: Seq<char>, password: Seq<char>) -> bool {
    let i = account_index(accounts, alias);
    i < accounts.len() ==> accounts[i].1 == password
}

/// The accounts after a query: a free alias is taken, with the password.
pub open spec fn query_accounts(
    accounts: AccountsView,
    alias: Seq<char>,
    password: Seq<char>,
) -> AccountsView {
    if account_index(accounts, alias) < accounts.len() {
        accounts
    } else {
        accounts.push((alias, password))
    }
}

/// Whether no alias occurs twice among the accounts.
pub open spec fn aliases_differ(accounts: AccountsView) -> bool {
    forall|i: int, j: int|
        0 <= i < j < accounts.len() ==> (#[trigger] accounts[i]).0 != (#[trigger] accounts[j]).0
}

/// The place that [`account_index`] gives is within bounds or one past them;
/// the account there has the alias, and none before it has.
pub proof fn lemma_account_index(accounts: AccountsView, alias: Seq<char>)
    ensures
        0 <= account_index(accounts, alias) <= accounts.len(),
        account_index(accounts, alias) < accounts.len() ==> accounts[account_index(
            accounts,
            alias,
        )].0 == alias,
        forall|j: int|
            0 <= j < account_index(accounts, alias) ==> (#[trigger] accounts[j]).0 != alias,
    decreases accounts.len(),
{
    if accounts.len() > 0 && accounts[0].0 != alias {
        lemma_account_index(accounts.drop_first(), alias);
        assert forall|j: int| 0 <= j < account_index(accounts, alias) implies (
        #[trigger] accounts[j]).0 != alias by {
            if j > 0 {
                assert(accounts.drop_first()[j - 1] == accounts[j]);
            }
        }
    }
}

/// A query leaves the aliases of the accounts apart: an alias is taken only
/// if no account has it.
pub proof fn lemma_query_keeps_aliases_apart(
    accounts: AccountsView,
    alias: Seq<char>,
    password: Seq<char>,
)
    requires
        aliases_differ(accounts),
    ensures
        aliases_differ(query_accounts(accounts, alias, password)),
{
    lemma_account_index(accounts, alias);
    let after = query_accounts(accounts, alias, password);
    assert forall|i: int, j: int| 0 <= i < j < after.len() implies (#[trigger] after[i]).0 != (
    #[trigger] after[j]).0 by {
        if j < accounts.len() {
            assert(accounts[i].0 != accounts[j].0);
        } else {
            assert(accounts[i].0 != alias);
        }
    }
}

/// Credentials that passed once pass again, and leave the accounts as they
/// are.
pub proof fn lemma_query_is_stable(accounts: AccountsView, alias: Seq<char>, password: Seq<char>)
    requires
        query_accepts(accounts, alias, password),
    ensures
        query_accepts(query_accounts(accounts, alias, password), alias, password),
        query_accounts(query_accounts(accounts, alias, password), alias, password)
            == query_accounts(accounts, alias, password),
{
    let after = query_accounts(accounts, alias, password);
    lemma_account_index(accounts, alias);
    lemma_index_after_push(accounts, alias, password);
}

/// In accounts that lack an alias, the alias is found at the end once it is
/// added.
proof fn lemma_index_after_push(accounts: AccountsView, alias: Seq<char>, password: Seq<char>)
    ensures
        account_index(accounts, alias) == accounts.len() ==> account_index(
            accounts.push((alias, password)),
            alias,
        ) == accounts.len(),
    decreases accounts.len(),
{
    let more = accounts.push((alias, password));
    if accounts.len() == 0 {
        assert(more[0].0 == alias);
    } else if accounts[0].0 != alias {
        lemma_index_after_push(accounts.drop_first(), alias, password);
        assert(more.drop_first() =~= accounts.drop_first().push((alias, password)));
    }
}

/// The accounts, in the order in which they were made. No alias occurs
/// twice: [`AuthProvider::new`] and [`AuthProvider::query`] keep it so.
#[derive(Debug, PartialEq, Eq)]
pub struct AuthProvider {
    pub accounts: Vec<(String, String)>,
}

impl View for AuthProvider {
    type V = AccountsView;

    open spec fn view(&self) -> AccountsView {
        self.accounts@.map_values(|a: (String, String)| (a.0@, a.1@))
    }
}

impl AuthProvider {
    /// No accounts.
    pub fn new() -> (provider: AuthProvider)
        ensures
            provider@ == Seq::<(Seq<char>, Seq<char>)>::empty(),
            aliases_differ(provider@),
    {
        let provider = AuthProvider { accounts: Vec::new() };
        assert(provider@ =~= Seq::<(Seq<char>, Seq<char>)>::empty());
        provider
    }

    /// Checks credentials. An alias that nobody has used is taken with the
    /// password and passes; an alias in use passes with its password alone.
    pub fn query(&mut self, username: String, password: String) -> (accepted: bool)
        ensures
            accepted == query_accepts(old(self)@, username@, password@),
            final(self)@ == query_accounts(old(self)@, username@, password@),
            aliases_differ(old(self)@) ==> aliases_differ(final(self)@),
    {
        proof {
            if aliases_differ(old(self)@) {
                lemma_query_keeps_aliases_apart(old(self)@, username@, password@);
            }
        }
        let mut i: usize = 0;
        assert(self@.skip(0) =~= self@);
        while i < self.accounts.len()
            invariant
                i <= self.accounts.len(),
                self.accounts == old(self).accounts,
                account_index(self@, username@) == i + account_index(self@.skip(i as int), username@),
            decreases self.accounts.len() - i,
        {
            assert(self@.skip(i as int)[0] == self@[i as int]);
            if self.accounts[i].0 == username {
                return self.accounts[i].1 == password;
            }
            assert(self@.skip(i as int).drop_first() =~= self@.skip(i as int + 1));
            i = i + 1;
        }
        self.accounts.push((username, password));
        assert(self@ =~= old(self)@.push((username@, password@)));
        true
    }
}

} // verus!
