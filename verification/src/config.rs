//! The configuration: what the file says, what it leaves out, and what is
//! refused.
use crate::domain::{CodexPromptTemplates, GitHubUserId, RepoSlug, TrustedAccount};
use crate::github::{GitHubApiRequestRate, GitHubNotificationWindow};
use crate::{domain, github, numeral, path, text};
use vstd::prelude::*;

verus! {

pub const DEFAULT_METRICS_BIND_ADDRESS: &'static str = "127.0.0.1:9464";

// ---------------------------------------------------------------------------
// Errors
// ---------------------------------------------------------------------------
/// Why a configuration is refused: messages, the outermost first, each explained
/// by the one that follows.
#[derive(Debug, Eq, PartialEq)]
pub struct ConfigError {
    chain: Vec<String>,
}

impl View for ConfigError {
    type V = Seq<Seq<char>>;

    closed spec fn view(&self) -> Seq<Seq<char>> {
        text::views(self.chain@)
    }
}

impl ConfigError {
    #[verifier::type_invariant]
    spec fn says_something(self) -> bool {
        self.chain@.len() > 0
    }

    pub fn new(message: String) -> (r: ConfigError)
        ensures
            r@ == seq![message@],
    {
        let mut chain: Vec<String> = Vec::new();
        chain.push(message);
        assert(text::views(chain@) =~= seq![message@]);
        ConfigError { chain }
    }

    /// The error with a message that says what it led to.
    pub fn within(self, message: String) -> (r: ConfigError)
        ensures
            r@ == seq![message@] + self@,
    {
        let mut chain = self.chain;
        let ghost before = chain@;
        chain.insert(0, message);
        assert(text::views(chain@) =~= seq![message@] + text::views(before));
        ConfigError { chain }
    }

    /// The outermost message.
    pub fn message(&self) -> (r: String)
        ensures
            self@.len() > 0,
            r@ == self@[0],
    {
        proof {
            use_type_invariant(self);
        }
        self.chain[0].clone()
    }

    /// All messages in one line.
    pub fn full_message(&self) -> (r: String)
        ensures
            r@ == text::joined(self@, ": "@),
    {
        text::join(&self.chain, ": ")
    }
}

// ---------------------------------------------------------------------------
// Strings
// ---------------------------------------------------------------------------
/// A value without white space around it; a blank one counts as none.
pub open spec fn non_empty_text(value: Option<Seq<char>>) -> Option<Seq<char>> {
    match value {
        Some(s) if text::trimmed(s).len() > 0 => Some(text::trimmed(s)),
        _ => None,
    }
}

pub fn non_empty(value: Option<String>) -> (r: Option<String>)
    ensures
        text::opt_view(r) == non_empty_text(text::opt_view(value)),
{
    match value {
        None => None,
        Some(s) => {
            let trimmed = text::trim(s.as_str());
            if trimmed.as_str().is_empty() {
                None
            } else {
                Some(trimmed)
            }
        },
    }
}

pub open spec fn required_text(value: Option<Seq<char>>, key: Seq<char>) -> Result<
    Seq<char>,
    Seq<Seq<char>>,
> {
    match non_empty_text(value) {
        Some(s) => Ok(s),
        None => Err(seq![key + " must not be empty"@]),
    }
}

pub fn required_string(value: Option<String>, key: &str) -> (r: Result<String, ConfigError>)
    ensures
        match (required_text(text::opt_view(value), key@), r) {
            (Ok(s), Ok(string)) => string@ == s,
            (Err(chain), Err(error)) => error@ == chain,
            _ => false,
        },
{
    match non_empty(value) {
        Some(s) => Ok(s),
        None => Err(ConfigError::new(text::cat2(key, " must not be empty"))),
    }
}

// ---------------------------------------------------------------------------
// Accounts
// ---------------------------------------------------------------------------
#[derive(Debug, Eq, PartialEq)]
pub struct TrustedAccountFile {
    pub login: String,
    pub id: u64,
}

/// A login and a numeric user ID.
pub open spec fn identity(account: TrustedAccount) -> (Seq<char>, u64) {
    (account.login@, account.id.number())
}

pub open spec fn identities(accounts: Seq<TrustedAccount>) -> Seq<(Seq<char>, u64)> {
    accounts.map_values(|account: TrustedAccount| identity(account))
}

/// The first of `accounts` from `from` on that shares the login or the ID.
pub open spec fn first_conflict(
    accounts: Seq<(Seq<char>, u64)>,
    login: Seq<char>,
    id: u64,
    from: int,
) -> int
    decreases accounts.len() - from,
{
    if 0 <= from < accounts.len() && accounts[from].0 != login && accounts[from].1 != id {
        first_conflict(accounts, login, id, from + 1)
    } else {
        from
    }
}

/// The accounts that the first `upto` records give: logins trimmed and in small
/// letters, no login and no ID twice, no ID zero. The first record that breaks a
/// rule counts.
pub open spec fn accounts_upto(
    records: Seq<TrustedAccountFile>,
    upto: int,
    key: Seq<char>,
) -> Result<Seq<(Seq<char>, u64)>, Seq<Seq<char>>>
    decreases upto,
{
    if upto <= 0 {
        Ok(Seq::empty())
    } else {
        match accounts_upto(records, upto - 1, key) {
            Err(chain) => Err(chain),
            Ok(accounts) => {
                let login = text::lowered(text::trimmed(records[upto - 1].login@));
                let id = records[upto - 1].id;
                let conflict = first_conflict(accounts, login, id, 0);
                if login.len() == 0 {
                    Err(seq![key + " cannot contain an empty GitHub login"@])
                } else if id == 0 {
                    Err(seq!["invalid "@ + key + " ID"@])
                } else if conflict < accounts.len() {
                    Err(
                        seq![
                            key + " contains a duplicate or conflicting GitHub identity: "@
                                + accounts[conflict].0 + " ("@ + numeral::decimal(
                                accounts[conflict].1 as nat,
                            ) + ")"@,
                        ],
                    )
                } else {
                    Ok(accounts.push((login, id)))
                }
            },
        }
    }
}

/// A list of accounts has to be there and to have at least one account.
pub open spec fn accounts_of(records: Option<Vec<TrustedAccountFile>>, key: Seq<char>) -> Result<
    Seq<(Seq<char>, u64)>,
    Seq<Seq<char>>,
> {
    match records {
        Some(list) if list@.len() > 0 => accounts_upto(list@, list@.len() as int, key),
        _ => Err(seq![key + " must list at least one { login, id } GitHub identity"@]),
    }
}

proof fn lemma_first_conflict(
    accounts: Seq<(Seq<char>, u64)>,
    login: Seq<char>,
    id: u64,
    from: int,
)
    requires
        0 <= from <= accounts.len(),
    ensures
        ({
            let at = first_conflict(accounts, login, id, from);
            &&& from <= at <= accounts.len()
            &&& forall|k: int|
                from <= k < at ==> (#[trigger] accounts[k]).0 != login && accounts[k].1 != id
            &&& at < accounts.len() ==> accounts[at].0 == login || accounts[at].1 == id
        }),
    decreases accounts.len() - from,
{
    if from < accounts.len() && accounts[from].0 != login && accounts[from].1 != id {
        lemma_first_conflict(accounts, login, id, from + 1);
    }
}

pub fn required_accounts(value: Option<Vec<TrustedAccountFile>>, key: &str) -> (r: Result<
    Vec<TrustedAccount>,
    ConfigError,
>)
    ensures
        match (accounts_of(value, key@), r) {
            (Ok(list), Ok(accounts)) => identities(accounts@) == list,
            (Err(chain), Err(error)) => error@ == chain,
            _ => false,
        },
{
    let ghost expected = accounts_of(value, key@);
    let records = match value {
        Some(list) => list,
        None => {
            return Err(
                ConfigError::new(
                    text::cat2(key, " must list at least one { login, id } GitHub identity"),
                ),
            );
        },
    };
    if records.len() == 0 {
        return Err(
            ConfigError::new(
                text::cat2(key, " must list at least one { login, id } GitHub identity"),
            ),
        );
    }
    let mut accounts: Vec<TrustedAccount> = Vec::new();
    let mut i: usize = 0;
    assert(identities(accounts@) =~= Seq::<(Seq<char>, u64)>::empty());
    while i < records.len()
        invariant
            i <= records@.len(),
            accounts_upto(records@, i as int, key@) == Ok::<
                Seq<(Seq<char>, u64)>,
                Seq<Seq<char>>,
            >(identities(accounts@)),
            expected == accounts_of(value, key@),
            expected == accounts_upto(records@, records@.len() as int, key@),
        decreases records@.len() - i,
    {
        let ghost known = identities(accounts@);
        let login = text::to_lower(text::trim(records[i].login.as_str()).as_str());
        if login.as_str().is_empty() {
            proof {
                lemma_accounts_fail(records@, i + 1, key@);
            }
            return Err(
                ConfigError::new(text::cat2(key, " cannot contain an empty GitHub login")),
            );
        }
        let id = match GitHubUserId::new(records[i].id) {
            Some(id) => id,
            None => {
                proof {
                    lemma_accounts_fail(records@, i + 1, key@);
                }
                return Err(ConfigError::new(text::cat3("invalid ", key, " ID")));
            },
        };
        let mut at: usize = 0;
        while at < accounts.len() && !text::same(accounts[at].login.as_str(), login.as_str())
            && accounts[at].id.get() != id.get()
            invariant
                at <= accounts@.len(),
                known == identities(accounts@),
                first_conflict(known, login@, id.number(), 0) == first_conflict(
                    known,
                    login@,
                    id.number(),
                    at as int,
                ),
            decreases accounts@.len() - at,
        {
            assert(known[at as int] == identity(accounts@[at as int]));
            at = at + 1;
        }
        proof {
            lemma_first_conflict(known, login@, id.number(), 0);
        }
        if at < accounts.len() {
            proof {
                assert(known[at as int] == identity(accounts@[at as int]));
                lemma_accounts_fail(records@, i + 1, key@);
            }
            let existing = text::cat4(
                accounts[at].login.as_str(),
                " (",
                numeral::to_decimal(accounts[at].id.get()).as_str(),
                ")",
            );
            let message = text::cat3(
                key,
                " contains a duplicate or conflicting GitHub identity: ",
                existing.as_str(),
            );
            proof {
                let account = known[at as int];
                assert(message@ =~= key@
                    + " contains a duplicate or conflicting GitHub identity: "@ + account.0
                    + " ("@ + numeral::decimal(account.1 as nat) + ")"@);
            }
            return Err(ConfigError::new(message));
        }
        accounts.push(TrustedAccount { login, id });
        assert(identities(accounts@) =~= known.push((login@, id.number())));
        i = i + 1;
    }
    Ok(accounts)
}

/// Once a record breaks a rule, the rest of the list makes no difference.
proof fn lemma_accounts_fail(records: Seq<TrustedAccountFile>, upto: int, key: Seq<char>)
    requires
        0 <= upto <= records.len(),
        accounts_upto(records, upto, key) is Err,
    ensures
        accounts_upto(records, records.len() as int, key) == accounts_upto(records, upto, key),
    decreases records.len() - upto,
{
    if upto < records.len() {
        lemma_accounts_fail(records, upto + 1, key);
    }
}

/// The accounts of a configuration: no login twice, no ID twice, no ID zero, no
/// login blank or with capitals.
pub proof fn law_trusted_identities_are_unambiguous(
    records: Seq<TrustedAccountFile>,
    upto: int,
    key: Seq<char>,
)
    requires
        0 <= upto <= records.len(),
        accounts_upto(records, upto, key) is Ok,
    ensures
        ({
            let accounts = accounts_upto(records, upto, key)->Ok_0;
            &&& accounts.len() == upto
            &&& forall|i: int|
                0 <= i < accounts.len() ==> {
                    let account = #[trigger] accounts[i];
                    account.0.len() > 0 && account.1 != 0 && account.1 == records[i].id
                        && text::lowered(account.0) == account.0
                }
            &&& forall|i: int, j: int|
                0 <= i < j < accounts.len() ==> (#[trigger] accounts[i]).0 != (
                #[trigger] accounts[j]).0 && accounts[i].1 != accounts[j].1
        }),
    decreases upto,
{
    if upto > 0 {
        law_trusted_identities_are_unambiguous(records, upto - 1, key);
        let earlier = accounts_upto(records, upto - 1, key)->Ok_0;
        let login = text::lowered(text::trimmed(records[upto - 1].login@));
        lemma_first_conflict(earlier, login, records[upto - 1].id, 0);
        text::lemma_lowered_idempotent(text::trimmed(records[upto - 1].login@));
    }
}

/// The logins that the first `upto` entries give: trimmed, in small letters, each
/// once. A blank entry is refused.
pub open spec fn logins_upto(entries: Seq<Seq<char>>, upto: int, key: Seq<char>) -> Result<
    Seq<Seq<char>>,
    Seq<Seq<char>>,
>
    decreases upto,
{
    if upto <= 0 {
        Ok(Seq::empty())
    } else {
        match logins_upto(entries, upto - 1, key) {
            Err(chain) => Err(chain),
            Ok(logins) => {
                let trimmed = text::trimmed(entries[upto - 1]);
                let login = text::lowered(trimmed);
                if trimmed.len() == 0 {
                    Err(seq![key + " cannot contain empty GitHub logins"@])
                } else if logins.contains(login) {
                    Ok(logins)
                } else {
                    Ok(logins.push(login))
                }
            },
        }
    }
}

proof fn lemma_logins_fail(entries: Seq<Seq<char>>, upto: int, key: Seq<char>)
    requires
        0 <= upto <= entries.len(),
        logins_upto(entries, upto, key) is Err,
    ensures
        logins_upto(entries, entries.len() as int, key) == logins_upto(entries, upto, key),
    decreases entries.len() - upto,
{
    if upto < entries.len() {
        lemma_logins_fail(entries, upto + 1, key);
    }
}

pub fn normalize_logins(raw_logins: &Vec<String>, key: &str) -> (r: Result<
    Vec<String>,
    ConfigError,
>)
    ensures
        match (
            logins_upto(text::views(raw_logins@), raw_logins@.len() as int, key@),
            r,
        ) {
            (Ok(list), Ok(logins)) => text::views(logins@) == list,
            (Err(chain), Err(error)) => error@ == chain,
            _ => false,
        },
{
    let ghost entries = text::views(raw_logins@);
    let mut logins: Vec<String> = Vec::new();
    let mut i: usize = 0;
    assert(text::views(logins@) =~= Seq::<Seq<char>>::empty());
    while i < raw_logins.len()
        invariant
            entries == text::views(raw_logins@),
            i <= raw_logins@.len(),
            logins_upto(entries, i as int, key@) == Ok::<Seq<Seq<char>>, Seq<Seq<char>>>(
                text::views(logins@),
            ),
        decreases raw_logins@.len() - i,
    {
        let ghost known = text::views(logins@);
        let trimmed = text::trim(raw_logins[i].as_str());
        assert(entries[i as int] == raw_logins@[i as int]@);
        if trimmed.as_str().is_empty() {
            proof {
                lemma_logins_fail(entries, i + 1, key@);
            }
            return Err(ConfigError::new(text::cat2(key, " cannot contain empty GitHub logins")));
        }
        let login = text::to_lower(trimmed.as_str());
        if !text::list_contains(&logins, login.as_str()) {
            logins.push(login);
            assert(text::views(logins@) =~= known.push(login@));
        }
        i = i + 1;
    }
    Ok(logins)
}

/// A list of logins that may be missing, or be empty.
pub open spec fn optional_logins_of(entries: Option<Vec<String>>, key: Seq<char>) -> Result<
    Option<Seq<Seq<char>>>,
    Seq<Seq<char>>,
> {
    match entries {
        None => Ok(None),
        Some(list) => match logins_upto(text::views(list@), list@.len() as int, key) {
            Ok(logins) => Ok(Some(logins)),
            Err(chain) => Err(chain),
        },
    }
}

pub open spec fn opt_views(list: Option<Vec<String>>) -> Option<Seq<Seq<char>>> {
    match list {
        Some(list) => Some(text::views(list@)),
        None => None,
    }
}

pub fn optional_logins(value: Option<Vec<String>>, key: &str) -> (r: Result<
    Option<Vec<String>>,
    ConfigError,
>)
    ensures
        match (optional_logins_of(value, key@), r) {
            (Ok(list), Ok(logins)) => opt_views(logins) == list,
            (Err(chain), Err(error)) => error@ == chain,
            _ => false,
        },
{
    match value {
        None => Ok(None),
        Some(list) => match normalize_logins(&list, key) {
            Ok(logins) => Ok(Some(logins)),
            Err(error) => Err(error),
        },
    }
}

/// The first of `accounts` from `from` on that has the login.
pub open spec fn find_login(
    accounts: Seq<(Seq<char>, u64)>,
    login: Seq<char>,
    from: int,
) -> int
    decreases accounts.len() - from,
{
    if 0 <= from < accounts.len() && accounts[from].0 != login {
        find_login(accounts, login, from + 1)
    } else {
        from
    }
}

/// The trusted accounts that the first `upto` logins name, in the order of the
/// logins. A login that is not trusted is refused.
pub open spec fn selected_upto(
    logins: Seq<Seq<char>>,
    upto: int,
    trusted: Seq<(Seq<char>, u64)>,
    key: Seq<char>,
) -> Result<Seq<(Seq<char>, u64)>, Seq<Seq<char>>>
    decreases upto,
{
    if upto <= 0 {
        Ok(Seq::empty())
    } else {
        match selected_upto(logins, upto - 1, trusted, key) {
            Err(chain) => Err(chain),
            Ok(selected) => {
                let at = find_login(trusted, logins[upto - 1], 0);
                if at < trusted.len() {
                    Ok(selected.push(trusted[at]))
                } else {
                    Err(
                        seq![
                            key + " must be a subset of master_accounts: "@ + logins[upto - 1],
                        ],
                    )
                }
            },
        }
    }
}

proof fn lemma_find_login(accounts: Seq<(Seq<char>, u64)>, login: Seq<char>, from: int)
    requires
        0 <= from <= accounts.len(),
    ensures
        from <= find_login(accounts, login, from) <= accounts.len(),
        find_login(accounts, login, from) < accounts.len() ==> accounts[find_login(
            accounts,
            login,
            from,
        )].0 == login,
        forall|k: int|
            from <= k < find_login(accounts, login, from) ==> (#[trigger] accounts[k]).0 != login,
    decreases accounts.len() - from,
{
    if from < accounts.len() && accounts[from].0 != login {
        lemma_find_login(accounts, login, from + 1);
    }
}

proof fn lemma_selected_fail(
    logins: Seq<Seq<char>>,
    upto: int,
    trusted: Seq<(Seq<char>, u64)>,
    key: Seq<char>,
)
    requires
        0 <= upto <= logins.len(),
        selected_upto(logins, upto, trusted, key) is Err,
    ensures
        selected_upto(logins, logins.len() as int, trusted, key) == selected_upto(
            logins,
            upto,
            trusted,
            key,
        ),
    decreases logins.len() - upto,
{
    if upto < logins.len() {
        lemma_selected_fail(logins, upto + 1, trusted, key);
    }
}

/// Accounts that are selected by login are trusted accounts, with the IDs that
/// these have.
pub proof fn law_selected_accounts_are_trusted(
    logins: Seq<Seq<char>>,
    upto: int,
    trusted: Seq<(Seq<char>, u64)>,
    key: Seq<char>,
)
    requires
        0 <= upto <= logins.len(),
        selected_upto(logins, upto, trusted, key) is Ok,
    ensures
        ({
            let selected = selected_upto(logins, upto, trusted, key)->Ok_0;
            &&& selected.len() == upto
            &&& forall|i: int|
                0 <= i < selected.len() ==> trusted.contains(#[trigger] selected[i])
                    && selected[i].0 == logins[i]
        }),
    decreases upto,
{
    if upto > 0 {
        law_selected_accounts_are_trusted(logins, upto - 1, trusted, key);
        lemma_find_login(trusted, logins[upto - 1], 0);
    }
}

/// A selection of trusted accounts that may be missing.
pub open spec fn selection_of(
    logins: Option<Seq<Seq<char>>>,
    trusted: Seq<(Seq<char>, u64)>,
    key: Seq<char>,
) -> Result<Option<Seq<(Seq<char>, u64)>>, Seq<Seq<char>>> {
    match logins {
        None => Ok(None),
        Some(list) => match selected_upto(list, list.len() as int, trusted, key) {
            Ok(selected) => Ok(Some(selected)),
            Err(chain) => Err(chain),
        },
    }
}

pub open spec fn opt_identities(accounts: Option<Vec<TrustedAccount>>) -> Option<
    Seq<(Seq<char>, u64)>,
> {
    match accounts {
        Some(list) => Some(identities(list@)),
        None => None,
    }
}

pub fn select_accounts(
    logins: Option<Vec<String>>,
    trusted_accounts: &Vec<TrustedAccount>,
    key: &str,
) -> (r: Result<Option<Vec<TrustedAccount>>, ConfigError>)
    ensures
        match (selection_of(opt_views(logins), identities(trusted_accounts@), key@), r) {
            (Ok(list), Ok(accounts)) => opt_identities(accounts) == list,
            (Err(chain), Err(error)) => error@ == chain,
            _ => false,
        },
{
    let list = match logins {
        None => {
            return Ok(None);
        },
        Some(list) => list,
    };
    let ghost names = text::views(list@);
    let ghost trusted = identities(trusted_accounts@);
    let mut selected: Vec<TrustedAccount> = Vec::new();
    let mut i: usize = 0;
    assert(identities(selected@) =~= Seq::<(Seq<char>, u64)>::empty());
    while i < list.len()
        invariant
            opt_views(logins) == Some(names),
            names == text::views(list@),
            trusted == identities(trusted_accounts@),
            i <= list@.len(),
            selected_upto(names, i as int, trusted, key@) == Ok::<
                Seq<(Seq<char>, u64)>,
                Seq<Seq<char>>,
            >(identities(selected@)),
        decreases list@.len() - i,
    {
        let ghost chosen = identities(selected@);
        let login: &str = list[i].as_str();
        assert(names[i as int] == login@);
        let mut at: usize = 0;
        while at < trusted_accounts.len() && !text::same(
            trusted_accounts[at].login.as_str(),
            login,
        )
            invariant
                at <= trusted_accounts@.len(),
                trusted == identities(trusted_accounts@),
                find_login(trusted, login@, 0) == find_login(trusted, login@, at as int),
            decreases trusted_accounts@.len() - at,
        {
            assert(trusted[at as int] == identity(trusted_accounts@[at as int]));
            at = at + 1;
        }
        if at >= trusted_accounts.len() {
            proof {
                lemma_selected_fail(names, i + 1, trusted, key@);
            }
            return Err(
                ConfigError::new(
                    text::cat3(key, " must be a subset of master_accounts: ", login),
                ),
            );
        }
        assert(trusted[at as int] == identity(trusted_accounts@[at as int]));
        selected.push(trusted_accounts[at].clone());
        assert(identities(selected@) =~= chosen.push(trusted[at as int]));
        i = i + 1;
    }
    Ok(Some(selected))
}

// ---------------------------------------------------------------------------
// Repositories
// ---------------------------------------------------------------------------
pub open spec fn slug(repo: RepoSlug) -> (Seq<char>, Seq<char>) {
    (repo.owner@, repo.repo@)
}

pub open spec fn slugs(repos: Seq<RepoSlug>) -> Seq<(Seq<char>, Seq<char>)> {
    repos.map_values(|repo: RepoSlug| slug(repo))
}

/// What is wrong with a repository's name, in words.
pub open spec fn slug_fault_text(value: Seq<char>, fault: domain::SlugFault) -> Seq<char> {
    let v = text::trimmed(value);
    let at = text::index_of(v, '/', 0);
    match fault {
        domain::SlugFault::Format => {
            "repository must be formatted as owner/repo: "@ + domain::debug_quoted(v)
        },
        domain::SlugFault::Owner => {
            "invalid "@ + "repository owner"@ + ": "@ + domain::debug_quoted(v.take(at))
        },
        domain::SlugFault::Repo => {
            "invalid "@ + "repository name"@ + ": "@ + domain::debug_quoted(v.skip(at + 1))
        },
    }
}

/// The repositories that the first `upto` entries name, each once.
pub open spec fn repos_upto(entries: Seq<Seq<char>>, upto: int, key: Seq<char>) -> Result<
    Seq<(Seq<char>, Seq<char>)>,
    Seq<Seq<char>>,
>
    decreases upto,
{
    if upto <= 0 {
        Ok(Seq::empty())
    } else {
        match repos_upto(entries, upto - 1, key) {
            Err(chain) => Err(chain),
            Ok(repos) => match domain::slug_parts(entries[upto - 1]) {
                Err(fault) => Err(
                    seq![
                        "invalid "@ + key + " entry"@,
                        slug_fault_text(entries[upto - 1], fault),
                    ],
                ),
                Ok(repo) => if repos.contains(repo) {
                    Ok(repos)
                } else {
                    Ok(repos.push(repo))
                },
            },
        }
    }
}

pub open spec fn repos_of(entries: Option<Vec<String>>, key: Seq<char>) -> Result<
    Seq<(Seq<char>, Seq<char>)>,
    Seq<Seq<char>>,
> {
    match entries {
        None => Ok(Seq::empty()),
        Some(list) => repos_upto(text::views(list@), list@.len() as int, key),
    }
}

proof fn lemma_repos_fail(entries: Seq<Seq<char>>, upto: int, key: Seq<char>)
    requires
        0 <= upto <= entries.len(),
        repos_upto(entries, upto, key) is Err,
    ensures
        repos_upto(entries, entries.len() as int, key) == repos_upto(entries, upto, key),
    decreases entries.len() - upto,
{
    if upto < entries.len() {
        lemma_repos_fail(entries, upto + 1, key);
    }
}

fn holds_repo(repos: &Vec<RepoSlug>, repo: &RepoSlug) -> (r: bool)
    ensures
        r == slugs(repos@).contains(slug(*repo)),
{
    let ghost all = slugs(repos@);
    let mut i: usize = 0;
    while i < repos.len()
        invariant
            all == slugs(repos@),
            i <= repos@.len(),
            forall|k: int| 0 <= k < i ==> all[k] != slug(*repo),
        decreases repos@.len() - i,
    {
        assert(all[i as int] == slug(repos@[i as int]));
        if text::same(repos[i].owner.as_str(), repo.owner.as_str()) && text::same(
            repos[i].repo.as_str(),
            repo.repo.as_str(),
        ) {
            return true;
        }
        i = i + 1;
    }
    false
}

pub fn optional_repos(value: Option<Vec<String>>, key: &str) -> (r: Result<
    Vec<RepoSlug>,
    ConfigError,
>)
    ensures
        match (repos_of(value, key@), r) {
            (Ok(list), Ok(repos)) => slugs(repos@) == list,
            (Err(chain), Err(error)) => error@ == chain,
            _ => false,
        },
{
    let mut repos: Vec<RepoSlug> = Vec::new();
    assert(slugs(repos@) =~= Seq::<(Seq<char>, Seq<char>)>::empty());
    let raw_repos = match value {
        None => {
            return Ok(repos);
        },
        Some(list) => list,
    };
    let ghost entries = text::views(raw_repos@);
    let mut i: usize = 0;
    while i < raw_repos.len()
        invariant
            repos_of(value, key@) == repos_upto(entries, entries.len() as int, key@),
            entries == text::views(raw_repos@),
            i <= raw_repos@.len(),
            repos_upto(entries, i as int, key@) == Ok::<
                Seq<(Seq<char>, Seq<char>)>,
                Seq<Seq<char>>,
            >(slugs(repos@)),
        decreases raw_repos@.len() - i,
    {
        let ghost known = slugs(repos@);
        assert(entries[i as int] == raw_repos@[i as int]@);
        match RepoSlug::parse(raw_repos[i].as_str()) {
            Err(error) => {
                let cause = error.message();
                proof {
                    assert(cause@ == slug_fault_text(
                        entries[i as int],
                        domain::slug_parts(entries[i as int])->Err_0,
                    ));
                    lemma_repos_fail(entries, i + 1, key@);
                }
                let e = ConfigError::new(cause).within(text::cat3("invalid ", key, " entry"));
                assert(e@ =~= seq!["invalid "@ + key@ + " entry"@, cause@]);
                return Err(e);
            },
            Ok(repo) => {
                if !holds_repo(&repos, &repo) {
                    repos.push(repo);
                    assert(slugs(repos@) =~= known.push(slug(repo)));
                }
            },
        }
        i = i + 1;
    }
    Ok(repos)
}

// ---------------------------------------------------------------------------
// Prompts
// ---------------------------------------------------------------------------
#[derive(Debug, Eq, PartialEq)]
pub struct CodexPromptsFile {
    pub mention: Option<String>,
    pub pull_request_opened: Option<String>,
}

/// The two templates that a configuration has to give: for mentions and for
/// opened pull requests.
pub open spec fn prompts_of(value: Option<CodexPromptsFile>) -> Result<
    (Seq<char>, Seq<char>),
    Seq<Seq<char>>,
> {
    match value {
        None => Err(
            seq!["codex_prompts must include mention and pull_request_opened templates"@],
        ),
        Some(prompts) => match (
            required_text(text::opt_view(prompts.mention), "codex_prompts.mention"@),
            required_text(
                text::opt_view(prompts.pull_request_opened),
                "codex_prompts.pull_request_opened"@,
            ),
        ) {
            (Err(chain), _) => Err(chain),
            (_, Err(chain)) => Err(chain),
            (Ok(mention), Ok(opened)) => Ok((mention, opened)),
        },
    }
}

pub open spec fn are_prompts(
    templates: CodexPromptTemplates,
    prompts: (Seq<char>, Seq<char>),
) -> bool {
    &&& templates.mention@ == prompts.0
    &&& templates.pull_request_opened@ == prompts.1
    &&& templates.operator_mention@.len() == 0
}

pub fn required_codex_prompts(value: Option<CodexPromptsFile>) -> (r: Result<
    CodexPromptTemplates,
    ConfigError,
>)
    ensures
        match (prompts_of(value), r) {
            (Ok(prompts), Ok(templates)) => are_prompts(templates, prompts),
            (Err(chain), Err(error)) => error@ == chain,
            _ => false,
        },
{
    match value {
        None => Err(
            ConfigError::new(
                "codex_prompts must include mention and pull_request_opened templates".to_owned(),
            ),
        ),
        Some(prompts) => {
            let mention = required_string(prompts.mention, "codex_prompts.mention")?;
            let pull_request_opened = required_string(
                prompts.pull_request_opened,
                "codex_prompts.pull_request_opened",
            )?;
            Ok(
                CodexPromptTemplates {
                    mention,
                    pull_request_opened,
                    operator_mention: String::new(),
                },
            )
        },
    }
}

// ---------------------------------------------------------------------------
// Directories
// ---------------------------------------------------------------------------
/// What the configuration takes from its surroundings: the user's home directory
/// and the current directory, where they are known.
#[derive(Debug, Eq, PartialEq)]
pub struct Surroundings {
    pub home: Option<String>,
    pub current_dir: Option<String>,
}

/// A path in which `~` stands for the home directory.
pub open spec fn expanded(value: Seq<char>, home: Option<Seq<char>>) -> Result<
    Seq<char>,
    Seq<Seq<char>>,
> {
    if value == "~"@ || text::has_prefix(value, "~/"@) {
        match home {
            None => Err(seq!["could not determine the home directory"@]),
            Some(home) => if value == "~"@ {
                Ok(home)
            } else {
                Ok(path::joined_path(home, value.skip("~/"@.len() as int)))
            },
        }
    } else {
        Ok(value)
    }
}

pub fn expand_home(value: &str, surroundings: &Surroundings) -> (r: Result<String, ConfigError>)
    ensures
        match (expanded(value@, text::opt_view(surroundings.home)), r) {
            (Ok(s), Ok(string)) => string@ == s,
            (Err(chain), Err(error)) => error@ == chain,
            _ => false,
        },
{
    let rest = text::strip_prefix(value, "~/");
    let alone = text::same(value, "~");
    if !alone && rest.is_none() {
        return Ok(value.to_owned());
    }
    match &surroundings.home {
        None => Err(ConfigError::new("could not determine the home directory".to_owned())),
        Some(home) => {
            if alone {
                return Ok(home.clone());
            }
            match rest {
                Some(rest) => Ok(path::join(home.as_str(), rest.as_str())),
                None => Ok(value.to_owned()),
            }
        },
    }
}

/// A path, taken from the current directory unless it is absolute.
pub open spec fn absolute(value: Seq<char>, current_dir: Option<Seq<char>>) -> Result<
    Seq<char>,
    Seq<Seq<char>>,
> {
    if path::is_absolute_path(value) {
        Ok(value)
    } else {
        match current_dir {
            None => Err(seq!["failed to resolve the current directory"@]),
            Some(dir) => Ok(path::joined_path(dir, value)),
        }
    }
}

pub fn absolute_path(value: &str, surroundings: &Surroundings) -> (r: Result<String, ConfigError>)
    ensures
        match (absolute(value@, text::opt_view(surroundings.current_dir)), r) {
            (Ok(s), Ok(string)) => string@ == s,
            (Err(chain), Err(error)) => error@ == chain,
            _ => false,
        },
{
    if path::is_absolute(value) {
        return Ok(value.to_owned());
    }
    match &surroundings.current_dir {
        None => Err(ConfigError::new("failed to resolve the current directory".to_owned())),
        Some(dir) => Ok(path::join(dir.as_str(), value)),
    }
}

/// A path as a user writes it, made absolute.
pub open spec fn located(value: Seq<char>, surroundings: Surroundings) -> Result<
    Seq<char>,
    Seq<Seq<char>>,
> {
    match expanded(value, text::opt_view(surroundings.home)) {
        Err(chain) => Err(chain),
        Ok(s) => absolute(s, text::opt_view(surroundings.current_dir)),
    }
}

fn locate(value: &str, surroundings: &Surroundings) -> (r: Result<String, ConfigError>)
    ensures
        match (located(value@, *surroundings), r) {
            (Ok(s), Ok(string)) => string@ == s,
            (Err(chain), Err(error)) => error@ == chain,
            _ => false,
        },
{
    match expand_home(value, surroundings) {
        Err(error) => Err(error),
        Ok(expanded) => absolute_path(expanded.as_str(), surroundings),
    }
}

/// The bot's own directory: the one that the environment names, or `.maid` in the
/// home directory.
pub open spec fn maid_home_of(named: Option<Seq<char>>, surroundings: Surroundings) -> Result<
    Seq<char>,
    Seq<Seq<char>>,
> {
    match named {
        Some(value) if text::trimmed(value).len() > 0 => located(value, surroundings),
        _ => match text::opt_view(surroundings.home) {
            None => Err(seq!["could not determine the home directory"@]),
            Some(home) => absolute(
                path::joined_path(home, ".maid"@),
                text::opt_view(surroundings.current_dir),
            ),
        },
    }
}

pub fn maid_home(named: Option<String>, surroundings: &Surroundings) -> (r: Result<
    String,
    ConfigError,
>)
    ensures
        match (maid_home_of(text::opt_view(named), *surroundings), r) {
            (Ok(s), Ok(string)) => string@ == s,
            (Err(chain), Err(error)) => error@ == chain,
            _ => false,
        },
{
    if let Some(value) = named {
        if !text::trim(value.as_str()).as_str().is_empty() {
            return locate(value.as_str(), surroundings);
        }
    }
    match &surroundings.home {
        None => Err(ConfigError::new("could not determine the home directory".to_owned())),
        Some(home) => {
            absolute_path(path::join(home.as_str(), ".maid").as_str(), surroundings)
        },
    }
}

/// A directory that the file may name; else one in the bot's own directory.
pub open spec fn directory_of(
    value: Option<Seq<char>>,
    maid_home: Seq<char>,
    name: Seq<char>,
    surroundings: Surroundings,
) -> Result<Seq<char>, Seq<Seq<char>>> {
    match non_empty_text(value) {
        None => Ok(path::joined_path(maid_home, name)),
        Some(s) => located(s, surroundings),
    }
}

fn directory(
    value: Option<String>,
    maid_home: &str,
    name: &str,
    surroundings: &Surroundings,
) -> (r: Result<String, ConfigError>)
    ensures
        match (directory_of(text::opt_view(value), maid_home@, name@, *surroundings), r) {
            (Ok(s), Ok(string)) => string@ == s,
            (Err(chain), Err(error)) => error@ == chain,
            _ => false,
        },
{
    match non_empty(value) {
        None => Ok(path::join(maid_home, name)),
        Some(s) => locate(s.as_str(), surroundings),
    }
}

// ---------------------------------------------------------------------------
// The file
// ---------------------------------------------------------------------------
/// What the configuration file says.
#[derive(Debug, Eq, PartialEq)]
pub struct ConfigFile {
    pub bot_login: Option<String>,
    pub master_accounts: Option<Vec<TrustedAccountFile>>,
    pub auto_review_accounts: Option<Vec<String>>,
    pub auto_review_public_accounts: Option<Vec<String>>,
    pub auto_review_repos: Option<Vec<String>>,
    pub git_dir: Option<String>,
    pub task_limit_per_24h: Option<usize>,
    pub max_concurrent_requests: Option<usize>,
    pub github_api_requests_per_hour: Option<u32>,
    pub github_notification_window_hours: Option<u32>,
    pub codex_home: Option<String>,
    pub codex_model: Option<String>,
    pub codex_reasoning_effort: Option<String>,
    pub codex_prompts: Option<CodexPromptsFile>,
    pub github_api_ip: Option<String>,
    pub metrics_bind_address: Option<String>,
}

/// The settings of a configuration that has been checked as far as the file goes.
#[derive(Debug, Eq, PartialEq)]
pub struct Settings {
    pub bot_login: String,
    pub master_accounts: Vec<TrustedAccount>,
    pub auto_review_accounts: Vec<TrustedAccount>,
    pub auto_review_public_accounts: Vec<TrustedAccount>,
    pub auto_review_repos: Vec<RepoSlug>,
    pub git_dir: String,
    pub task_limit_per_24h: Option<usize>,
    pub max_concurrent_requests: usize,
    pub github_api_requests_per_hour: GitHubApiRequestRate,
    pub github_notification_window: GitHubNotificationWindow,
    pub codex_home: String,
    pub codex_model: String,
    pub codex_reasoning_effort: String,
    pub codex_prompts: CodexPromptTemplates,
    pub github_api_ip: Option<String>,
    pub metrics_bind_address: String,
}

/// Settings with their texts and lists taken as sequences.
pub struct SettingsView {
    pub bot_login: Seq<char>,
    pub master_accounts: Seq<(Seq<char>, u64)>,
    pub auto_review_accounts: Seq<(Seq<char>, u64)>,
    pub auto_review_public_accounts: Seq<(Seq<char>, u64)>,
    pub auto_review_repos: Seq<(Seq<char>, Seq<char>)>,
    pub git_dir: Seq<char>,
    pub task_limit_per_24h: Option<usize>,
    pub max_concurrent_requests: usize,
    pub github_api_requests_per_hour: u32,
    pub github_notification_window: u32,
    pub codex_home: Seq<char>,
    pub codex_model: Seq<char>,
    pub codex_reasoning_effort: Seq<char>,
    pub mention_prompt: Seq<char>,
    pub pull_request_opened_prompt: Seq<char>,
    pub operator_mention_prompt: Seq<char>,
    pub github_api_ip: Option<Seq<char>>,
    pub metrics_bind_address: Seq<char>,
}

impl View for Settings {
    type V = SettingsView;

    open spec fn view(&self) -> SettingsView {
        SettingsView {
            bot_login: self.bot_login@,
            master_accounts: identities(self.master_accounts@),
            auto_review_accounts: identities(self.auto_review_accounts@),
            auto_review_public_accounts: identities(self.auto_review_public_accounts@),
            auto_review_repos: slugs(self.auto_review_repos@),
            git_dir: self.git_dir@,
            task_limit_per_24h: self.task_limit_per_24h,
            max_concurrent_requests: self.max_concurrent_requests,
            github_api_requests_per_hour: self.github_api_requests_per_hour.rate(),
            github_notification_window: self.github_notification_window.length(),
            codex_home: self.codex_home@,
            codex_model: self.codex_model@,
            codex_reasoning_effort: self.codex_reasoning_effort@,
            mention_prompt: self.codex_prompts.mention@,
            pull_request_opened_prompt: self.codex_prompts.pull_request_opened@,
            operator_mention_prompt: self.codex_prompts.operator_mention@,
            github_api_ip: text::opt_view(self.github_api_ip),
            metrics_bind_address: self.metrics_bind_address@,
        }
    }
}

/// The value of a setting, or its default.
pub open spec fn or_default<T>(value: Option<T>, default: T) -> T {
    match value {
        Some(value) => value,
        None => default,
    }
}

/// The messages for a setting that the file has to give and does not give well.
pub open spec fn required_in(key: Seq<char>, config_path: Seq<char>, cause: Seq<Seq<char>>) -> Seq<
    Seq<char>,
> {
    seq![key + " is required in "@ + config_path] + cause
}

/// The settings that a file comes to, or what is wrong with the first setting
/// that is wrong. Without a list of accounts to review, those of all masters are.
pub open spec fn settings_of(
    file: ConfigFile,
    maid_home: Seq<char>,
    config_path: Seq<char>,
    surroundings: Surroundings,
) -> Result<SettingsView, Seq<Seq<char>>> {
    let bot_login = non_empty_text(text::opt_view(file.bot_login));
    let masters = accounts_of(file.master_accounts, "master_accounts"@);
    let review_logins = optional_logins_of(file.auto_review_accounts, "auto_review_accounts"@);
    let review = selection_of(review_logins->Ok_0, masters->Ok_0, "auto_review_accounts"@);
    let public_logins = optional_logins_of(
        file.auto_review_public_accounts,
        "auto_review_public_accounts"@,
    );
    let public = selection_of(public_logins->Ok_0, masters->Ok_0, "auto_review_public_accounts"@);
    let repos = repos_of(file.auto_review_repos, "auto_review_repos"@);
    let git_dir = directory_of(text::opt_view(file.git_dir), maid_home, "git"@, surroundings);
    let concurrent = or_default(file.max_concurrent_requests, 1);
    let rate = or_default(
        file.github_api_requests_per_hour,
        github::DEFAULT_GITHUB_API_REQUESTS_PER_HOUR,
    );
    let window = or_default(
        file.github_notification_window_hours,
        github::DEFAULT_GITHUB_NOTIFICATION_WINDOW_HOURS,
    );
    let codex_home = directory_of(
        text::opt_view(file.codex_home),
        maid_home,
        "codex"@,
        surroundings,
    );
    let model = required_text(text::opt_view(file.codex_model), "codex_model"@);
    let effort = required_text(
        text::opt_view(file.codex_reasoning_effort),
        "codex_reasoning_effort"@,
    );
    let prompts = prompts_of(file.codex_prompts);
    if bot_login is None {
        Err(seq!["bot_login is required; run `just init` and fill out "@ + config_path])
    } else if masters is Err {
        Err(required_in("master_accounts"@, config_path, masters->Err_0))
    } else if review_logins is Err {
        Err(review_logins->Err_0)
    } else if review is Err {
        Err(review->Err_0)
    } else if public_logins is Err {
        Err(public_logins->Err_0)
    } else if public is Err {
        Err(public->Err_0)
    } else if repos is Err {
        Err(repos->Err_0)
    } else if git_dir is Err {
        Err(git_dir->Err_0)
    } else if concurrent == 0 {
        Err(seq!["max_concurrent_requests must be at least 1"@])
    } else if rate == 0 {
        Err(seq![github::GitHubError::ZeroRequestRate.message_text()])
    } else if window == 0 {
        Err(seq![github::GitHubError::ZeroNotificationWindow.message_text()])
    } else if codex_home is Err {
        Err(codex_home->Err_0)
    } else if model is Err {
        Err(required_in("codex_model"@, config_path, model->Err_0))
    } else if effort is Err {
        Err(required_in("codex_reasoning_effort"@, config_path, effort->Err_0))
    } else if prompts is Err {
        Err(required_in("codex_prompts"@, config_path, prompts->Err_0))
    } else {
        Ok(
            SettingsView {
                bot_login: bot_login->0,
                master_accounts: masters->Ok_0,
                auto_review_accounts: or_default(review->Ok_0, masters->Ok_0),
                auto_review_public_accounts: or_default(public->Ok_0, Seq::empty()),
                auto_review_repos: repos->Ok_0,
                git_dir: git_dir->Ok_0,
                task_limit_per_24h: file.task_limit_per_24h,
                max_concurrent_requests: concurrent,
                github_api_requests_per_hour: rate,
                github_notification_window: window,
                codex_home: codex_home->Ok_0,
                codex_model: model->Ok_0,
                codex_reasoning_effort: effort->Ok_0,
                mention_prompt: prompts->Ok_0.0,
                pull_request_opened_prompt: prompts->Ok_0.1,
                operator_mention_prompt: Seq::empty(),
                github_api_ip: non_empty_text(text::opt_view(file.github_api_ip)),
                metrics_bind_address: match file.metrics_bind_address {
                    Some(address) => address@,
                    None => DEFAULT_METRICS_BIND_ADDRESS@,
                },
            },
        )
    }
}

fn required_within(error: ConfigError, key: &str, config_path: &str) -> (r: ConfigError)
    ensures
        r@ == required_in(key@, config_path@, error@),
{
    error.within(text::cat3(key, " is required in ", config_path))
}

/// The accounts that a list of logins selects, or `default` without a list.
fn chosen_accounts(
    list: Option<Vec<String>>,
    masters: &Vec<TrustedAccount>,
    default: Vec<TrustedAccount>,
    key: &str,
) -> (r: Result<Vec<TrustedAccount>, ConfigError>)
    ensures
        ({
            let logins = optional_logins_of(list, key@);
            let selection = selection_of(logins->Ok_0, identities(masters@), key@);
            match r {
                Ok(accounts) => {
                    &&& logins is Ok
                    &&& selection is Ok
                    &&& identities(accounts@) == or_default(
                        selection->Ok_0,
                        identities(default@),
                    )
                },
                Err(error) => {
                    ||| logins is Err && error@ == logins->Err_0
                    ||| logins is Ok && selection is Err && error@ == selection->Err_0
                },
            }
        }),
{
    let logins = match optional_logins(list, key) {
        Ok(logins) => logins,
        Err(error) => {
            return Err(error);
        },
    };
    match select_accounts(logins, masters, key) {
        Err(error) => Err(error),
        Ok(None) => Ok(default),
        Ok(Some(accounts)) => Ok(accounts),
    }
}

impl ConfigFile {
    /// The file that says nothing.
    pub fn empty() -> (r: ConfigFile)
        ensures
            r == (ConfigFile {
                bot_login: None,
                master_accounts: None,
                auto_review_accounts: None,
                auto_review_public_accounts: None,
                auto_review_repos: None,
                git_dir: None,
                task_limit_per_24h: None,
                max_concurrent_requests: None,
                github_api_requests_per_hour: None,
                github_notification_window_hours: None,
                codex_home: None,
                codex_model: None,
                codex_reasoning_effort: None,
                codex_prompts: None,
                github_api_ip: None,
                metrics_bind_address: None,
            }),
    {
        ConfigFile {
            bot_login: None,
            master_accounts: None,
            auto_review_accounts: None,
            auto_review_public_accounts: None,
            auto_review_repos: None,
            git_dir: None,
            task_limit_per_24h: None,
            max_concurrent_requests: None,
            github_api_requests_per_hour: None,
            github_notification_window_hours: None,
            codex_home: None,
            codex_model: None,
            codex_reasoning_effort: None,
            codex_prompts: None,
            github_api_ip: None,
            metrics_bind_address: None,
        }
    }

    /// Checks the file, setting by setting, and fills in the defaults.
    pub fn resolve(self, maid_home: &str, config_path: &str, surroundings: &Surroundings) -> (r:
        Result<Settings, ConfigError>)
        ensures
            match (settings_of(self, maid_home@, config_path@, *surroundings), r) {
                (Ok(view), Ok(settings)) => settings@ == view,
                (Err(chain), Err(error)) => error@ == chain,
                _ => false,
            },
    {
        let bot_login = match non_empty(self.bot_login) {
            Some(login) => login,
            None => {
                return Err(
                    ConfigError::new(
                        text::cat2(
                            "bot_login is required; run `just init` and fill out ",
                            config_path,
                        ),
                    ),
                );
            },
        };
        let master_accounts = match required_accounts(self.master_accounts, "master_accounts") {
            Ok(accounts) => accounts,
            Err(error) => {
                return Err(required_within(error, "master_accounts", config_path));
            },
        };
        let auto_review_accounts = chosen_accounts(
            self.auto_review_accounts,
            &master_accounts,
            domain::copied_accounts(&master_accounts),
            "auto_review_accounts",
        )?;
        let none: Vec<TrustedAccount> = Vec::new();
        assert(identities(none@) =~= Seq::<(Seq<char>, u64)>::empty());
        let auto_review_public_accounts = chosen_accounts(
            self.auto_review_public_accounts,
            &master_accounts,
            none,
            "auto_review_public_accounts",
        )?;
        let auto_review_repos = optional_repos(self.auto_review_repos, "auto_review_repos")?;
        let git_dir = directory(self.git_dir, maid_home, "git", surroundings)?;
        let max_concurrent_requests: usize = match self.max_concurrent_requests {
            Some(count) => count,
            None => 1,
        };
        if max_concurrent_requests == 0 {
            return Err(
                ConfigError::new("max_concurrent_requests must be at least 1".to_owned()),
            );
        }
        let requests: u32 = match self.github_api_requests_per_hour {
            Some(count) => count,
            None => github::DEFAULT_GITHUB_API_REQUESTS_PER_HOUR,
        };
        let github_api_requests_per_hour = match GitHubApiRequestRate::per_hour(requests) {
            Ok(rate) => rate,
            Err(error) => {
                return Err(ConfigError::new(error.message()));
            },
        };
        let hours: u32 = match self.github_notification_window_hours {
            Some(hours) => hours,
            None => github::DEFAULT_GITHUB_NOTIFICATION_WINDOW_HOURS,
        };
        let github_notification_window = match GitHubNotificationWindow::hours(hours) {
            Ok(window) => window,
            Err(error) => {
                return Err(ConfigError::new(error.message()));
            },
        };
        let codex_home = directory(self.codex_home, maid_home, "codex", surroundings)?;
        let codex_model = match required_string(self.codex_model, "codex_model") {
            Ok(model) => model,
            Err(error) => {
                return Err(required_within(error, "codex_model", config_path));
            },
        };
        let codex_reasoning_effort = match required_string(
            self.codex_reasoning_effort,
            "codex_reasoning_effort",
        ) {
            Ok(effort) => effort,
            Err(error) => {
                return Err(required_within(error, "codex_reasoning_effort", config_path));
            },
        };
        let codex_prompts = match required_codex_prompts(self.codex_prompts) {
            Ok(prompts) => prompts,
            Err(error) => {
                return Err(required_within(error, "codex_prompts", config_path));
            },
        };
        let metrics_bind_address = match self.metrics_bind_address {
            Some(address) => address,
            None => DEFAULT_METRICS_BIND_ADDRESS.to_owned(),
        };
        assert(codex_prompts.operator_mention@ =~= Seq::<char>::empty());
        Ok(
            Settings {
                bot_login,
                master_accounts,
                auto_review_accounts,
                auto_review_public_accounts,
                auto_review_repos,
                git_dir,
                task_limit_per_24h: self.task_limit_per_24h,
                max_concurrent_requests,
                github_api_requests_per_hour,
                github_notification_window,
                codex_home,
                codex_model,
                codex_reasoning_effort,
                codex_prompts,
                github_api_ip: non_empty(self.github_api_ip),
                metrics_bind_address,
            },
        )
    }
}

/// The accounts that are reviewed unasked are masters, whichever file a
/// configuration comes from; and at least one task may be at work.
pub proof fn law_reviewed_accounts_are_masters(
    file: ConfigFile,
    maid_home: Seq<char>,
    config_path: Seq<char>,
    surroundings: Surroundings,
)
    requires
        settings_of(file, maid_home, config_path, surroundings) is Ok,
    ensures
        ({
            let settings = settings_of(file, maid_home, config_path, surroundings)->Ok_0;
            &&& forall|i: int|
                0 <= i < settings.auto_review_accounts.len() ==> settings.master_accounts.contains(
                    #[trigger] settings.auto_review_accounts[i],
                )
            &&& forall|i: int|
                0 <= i < settings.auto_review_public_accounts.len()
                    ==> settings.master_accounts.contains(
                    #[trigger] settings.auto_review_public_accounts[i],
                )
            &&& settings.master_accounts.len() > 0
            &&& settings.max_concurrent_requests >= 1
        }),
{
    let settings = settings_of(file, maid_home, config_path, surroundings)->Ok_0;
    let masters = settings.master_accounts;
    let records = file.master_accounts->0@;
    law_trusted_identities_are_unambiguous(
        records,
        records.len() as int,
        "master_accounts"@,
    );
    let review = optional_logins_of(file.auto_review_accounts, "auto_review_accounts"@)->Ok_0;
    if review is Some {
        law_selected_accounts_are_trusted(
            review->0,
            review->0.len() as int,
            masters,
            "auto_review_accounts"@,
        );
    }
    let public = optional_logins_of(
        file.auto_review_public_accounts,
        "auto_review_public_accounts"@,
    )->Ok_0;
    if public is Some {
        law_selected_accounts_are_trusted(
            public->0,
            public->0.len() as int,
            masters,
            "auto_review_public_accounts"@,
        );
    }
}

// ---------------------------------------------------------------------------
// The rest of the way
// ---------------------------------------------------------------------------
/// The arguments with which `gh` prints the token of an account.
pub fn gh_token_args(login: &str) -> (r: Vec<String>)
    ensures
        text::views(r@) == seq![
            "auth"@,
            "token"@,
            "--hostname"@,
            "github.com"@,
            "--user"@,
            login@,
        ],
{
    let mut args: Vec<String> = Vec::new();
    args.push("auth".to_owned());
    args.push("token".to_owned());
    args.push("--hostname".to_owned());
    args.push("github.com".to_owned());
    args.push("--user".to_owned());
    args.push(login.to_owned());
    assert(text::views(args@) =~= seq![
        "auth"@,
        "token"@,
        "--hostname"@,
        "github.com"@,
        "--user"@,
        login@,
    ]);
    args
}

/// What `gh` came back with.
#[derive(Debug, Eq, PartialEq)]
pub struct GhOutput {
    pub success: bool,
    pub stdout: Vec<u8>,
    pub stderr: Vec<u8>,
}

/// The token that `gh` printed, or what went wrong.
pub open spec fn token_of(login: Seq<char>, output: GhOutput) -> Result<
    Seq<char>,
    Seq<Seq<char>>,
> {
    let token = text::trimmed(vstd::utf8::decode_utf8(output.stdout@));
    if !output.success {
        Err(
            seq![
                "`gh auth token --user "@ + login + "` failed: "@ + text::trimmed(
                    text::lossy_text(output.stderr@),
                ) + "; run `gh auth login` for "@ + login
                    + " or check `gh auth status --hostname github.com`"@,
            ],
        )
    } else if !vstd::utf8::valid_utf8(output.stdout@) {
        Err(seq!["gh returned a token that was not valid UTF-8"@])
    } else if token.len() == 0 {
        Err(seq!["gh returned an empty token for "@ + login])
    } else {
        Ok(token)
    }
}

pub fn token_from_gh(login: &str, output: &GhOutput) -> (r: Result<String, ConfigError>)
    ensures
        match (token_of(login@, *output), r) {
            (Ok(token), Ok(string)) => string@ == token,
            (Err(chain), Err(error)) => error@ == chain,
            _ => false,
        },
{
    if !output.success {
        let stderr = text::trim(text::from_utf8_lossy(&output.stderr).as_str());
        let what = text::cat4("`gh auth token --user ", login, "` failed: ", stderr.as_str());
        return Err(
            ConfigError::new(
                text::cat4(
                    what.as_str(),
                    "; run `gh auth login` for ",
                    login,
                    " or check `gh auth status --hostname github.com`",
                ),
            ),
        );
    }
    match text::from_utf8(&output.stdout) {
        None => Err(
            ConfigError::new("gh returned a token that was not valid UTF-8".to_owned()),
        ),
        Some(stdout) => {
            let token = text::trim(stdout.as_str());
            if token.as_str().is_empty() {
                Err(ConfigError::new(text::cat2("gh returned an empty token for ", login)))
            } else {
                Ok(token)
            }
        },
    }
}

/// Settings whose API address, if there is one, is an IP address.
#[derive(Debug, Eq, PartialEq)]
pub struct AddressedSettings {
    pub settings: Settings,
}

/// Settings together with the bot's token.
#[derive(Debug, Eq, PartialEq)]
pub struct AuthenticatedSettings {
    pub settings: Settings,
    pub github_token: String,
}

impl Settings {
    /// Goes on once it is known whether the API address parses as an IP address.
    pub fn confirm_api_ip(self, parses: bool) -> (r: Result<AddressedSettings, ConfigError>)
        ensures
            match r {
                Ok(addressed) => {
                    (self.github_api_ip is None || parses) && addressed.settings == self
                },
                Err(error) => {
                    &&& self.github_api_ip is Some && !parses
                    &&& error@ == seq!["github_api_ip must be an IPv4 or IPv6 address"@]
                },
            },
    {
        if self.github_api_ip.is_some() && !parses {
            Err(
                ConfigError::new("github_api_ip must be an IPv4 or IPv6 address".to_owned()),
            )
        } else {
            Ok(AddressedSettings { settings: self })
        }
    }
}

impl AddressedSettings {
    /// Goes on with what `gh` came back with.
    pub fn authenticate(self, output: &GhOutput) -> (r: Result<
        AuthenticatedSettings,
        ConfigError,
    >)
        ensures
            match (token_of(self.settings.bot_login@, *output), r) {
                (Ok(token), Ok(authenticated)) => {
                    authenticated.settings == self.settings && authenticated.github_token@
                        == token
                },
                (Err(chain), Err(error)) => error@ == chain,
                _ => false,
            },
    {
        match token_from_gh(self.settings.bot_login.as_str(), output) {
            Ok(github_token) => Ok(
                AuthenticatedSettings { settings: self.settings, github_token },
            ),
            Err(error) => Err(error),
        }
    }
}

/// A complete configuration.
#[derive(Debug, Eq, PartialEq)]
pub struct Config {
    pub github_token: String,
    pub settings: Settings,
    pub daemon_pid_path: String,
    pub task_start_ledger_path: String,
    pub pending_handled_marker_ledger_path: String,
    pub observed_notification_ledger_path: String,
}

impl AuthenticatedSettings {
    /// Goes on once it is known whether the metrics address parses, and whether it
    /// is a loopback address.
    pub fn complete(self, maid_home: &str, parses: bool, is_loopback: bool) -> (r: Result<
        Config,
        ConfigError,
    >)
        ensures
            match r {
                Ok(config) => {
                    &&& parses && is_loopback
                    &&& config.settings == self.settings
                    &&& config.github_token == self.github_token
                    &&& config.daemon_pid_path@ == path::joined_path(maid_home@, "maid.pid"@)
                    &&& config.task_start_ledger_path@ == path::joined_path(
                        maid_home@,
                        "task-starts.json"@,
                    )
                    &&& config.pending_handled_marker_ledger_path@ == path::joined_path(
                        maid_home@,
                        "pending-handled-markers.json"@,
                    )
                    &&& config.observed_notification_ledger_path@ == path::joined_path(
                        maid_home@,
                        "observed-notifications.json"@,
                    )
                },
                Err(error) => {
                    ||| !parses && error@ == seq![
                        "metrics_bind_address must be an IP address and port"@,
                    ]
                    ||| parses && !is_loopback && error@ == seq![
                        "metrics_bind_address must use a loopback IP address"@,
                    ]
                },
            },
    {
        if !parses {
            return Err(
                ConfigError::new(
                    "metrics_bind_address must be an IP address and port".to_owned(),
                ),
            );
        }
        if !is_loopback {
            return Err(
                ConfigError::new(
                    "metrics_bind_address must use a loopback IP address".to_owned(),
                ),
            );
        }
        Ok(
            Config {
                github_token: self.github_token,
                settings: self.settings,
                daemon_pid_path: path::join(maid_home, "maid.pid"),
                task_start_ledger_path: path::join(maid_home, "task-starts.json"),
                pending_handled_marker_ledger_path: path::join(
                    maid_home,
                    "pending-handled-markers.json",
                ),
                observed_notification_ledger_path: path::join(
                    maid_home,
                    "observed-notifications.json",
                ),
            },
        )
    }
}

// ---------------------------------------------------------------------------
// What a configuration comes to
// ---------------------------------------------------------------------------
/// A blank value is as good as none; any other is taken without the white space
/// around it. A value that has to be there is refused where it is not.
pub proof fn law_blank_values_are_none(value: Seq<char>, key: Seq<char>)
    ensures
        text::trimmed(value).len() == 0 ==> non_empty_text(Some(value)) is None && required_text(
            Some(value),
            key,
        ) == Err::<Seq<char>, Seq<Seq<char>>>(seq![key + " must not be empty"@]),
        text::trimmed(value).len() > 0 ==> non_empty_text(Some(value)) == Some(
            text::trimmed(value),
        ) && required_text(Some(value), key) == Ok::<Seq<char>, Seq<Seq<char>>>(
            text::trimmed(value),
        ),
        non_empty_text(None) is None,
        required_text(None, key) is Err,
{
}

/// The accounts of a configuration are those of its records, one for each and in
/// their order: the login trimmed and in small letters, with the record's ID.
pub proof fn law_accounts_are_those_of_the_records(
    records: Seq<TrustedAccountFile>,
    upto: int,
    key: Seq<char>,
)
    requires
        0 <= upto <= records.len(),
        accounts_upto(records, upto, key) is Ok,
    ensures
        ({
            let accounts = accounts_upto(records, upto, key)->Ok_0;
            &&& accounts.len() == upto
            &&& forall|i: int|
                0 <= i < upto ==> #[trigger] accounts[i] == (
                    text::lowered(text::trimmed(records[i].login@)),
                    records[i].id,
                )
        }),
    decreases upto,
{
    if upto > 0 {
        law_accounts_are_those_of_the_records(records, upto - 1, key);
    }
}

/// Records that break no rule are accepted: no login is blank, no ID is zero, and
/// no two share a login, whatever the case of its letters, or an ID.
pub proof fn law_good_records_are_accepted(
    records: Seq<TrustedAccountFile>,
    upto: int,
    key: Seq<char>,
)
    requires
        0 <= upto <= records.len(),
        forall|i: int|
            0 <= i < upto ==> text::trimmed((#[trigger] records[i]).login@).len() > 0
                && records[i].id != 0,
        forall|i: int, j: int|
            0 <= i < j < upto ==> (#[trigger] records[i]).id != (#[trigger] records[j]).id
                && text::lowered(text::trimmed(records[i].login@)) != text::lowered(
                text::trimmed(records[j].login@),
            ),
    ensures
        accounts_upto(records, upto, key) is Ok,
    decreases upto,
{
    if upto > 0 {
        law_good_records_are_accepted(records, upto - 1, key);
        law_accounts_are_those_of_the_records(records, upto - 1, key);
        let accounts = accounts_upto(records, upto - 1, key)->Ok_0;
        let login = text::lowered(text::trimmed(records[upto - 1].login@));
        let id = records[upto - 1].id;
        lemma_first_conflict(accounts, login, id, 0);
        let at = first_conflict(accounts, login, id, 0);
        if at < accounts.len() {
            assert(accounts[at] == (
                text::lowered(text::trimmed(records[at].login@)),
                records[at].id,
            ));
            assert(records[at].id != records[upto - 1].id);
        }
    }
}

/// A list of logins comes to the logins that it holds, trimmed and in small
/// letters, each once; it is refused exactly where one of them is blank.
pub proof fn law_logins_are_those_of_the_list(
    entries: Seq<Seq<char>>,
    upto: int,
    key: Seq<char>,
)
    requires
        0 <= upto <= entries.len(),
    ensures
        logins_upto(entries, upto, key) is Ok <==> forall|i: int|
            0 <= i < upto ==> text::trimmed(#[trigger] entries[i]).len() > 0,
        logins_upto(entries, upto, key) matches Ok(logins) ==> {
            &&& logins.no_duplicates()
            &&& forall|login: Seq<char>| #[trigger]
                logins.contains(login) <==> exists|i: int|
                    0 <= i < upto && login == text::lowered(text::trimmed(#[trigger] entries[i]))
        },
    decreases upto,
{
    if upto > 0 {
        law_logins_are_those_of_the_list(entries, upto - 1, key);
        if let Ok(earlier) = logins_upto(entries, upto - 1, key) {
            let entry = entries[upto - 1];
            let new = text::lowered(text::trimmed(entry));
            if let Ok(logins) = logins_upto(entries, upto, key) {
                assert forall|login: Seq<char>| #[trigger] logins.contains(login) <==> exists|i: int|
                    0 <= i < upto && login == text::lowered(
                        text::trimmed(#[trigger] entries[i]),
                    ) by {
                    if earlier.contains(new) {
                        assert(logins == earlier);
                    } else {
                        assert(logins == earlier.push(new));
                        if earlier.contains(login) {
                            let k = choose|k: int| 0 <= k < earlier.len() && earlier[k] == login;
                            assert(logins[k] == login);
                        }
                        assert(logins[earlier.len() as int] == new);
                        if logins.contains(login) && login != new {
                            let k = choose|k: int| 0 <= k < logins.len() && logins[k] == login;
                            assert(earlier[k] == login);
                        }
                    }
                    if exists|i: int|
                        0 <= i < upto && login == text::lowered(
                            text::trimmed(#[trigger] entries[i]),
                        ) {
                        let i = choose|i: int|
                            0 <= i < upto && login == text::lowered(
                                text::trimmed(#[trigger] entries[i]),
                            );
                        if i < upto - 1 {
                            assert(earlier.contains(login));
                        }
                    }
                    if login == new {
                        assert(login == text::lowered(text::trimmed(entries[upto - 1])));
                    }
                }
                if !earlier.contains(new) {
                    assert forall|i: int, j: int| 0 <= i < logins.len() && 0 <= j < logins.len()
                        && i != j implies logins[i] != logins[j] by {
                        if i < earlier.len() {
                            assert(earlier.contains(earlier[i]));
                        }
                        if j < earlier.len() {
                            assert(earlier.contains(earlier[j]));
                        }
                    }
                }
            }
        }
    }
}

/// Logins select the accounts that have them exactly where each is trusted.
pub proof fn law_trusted_logins_are_selected(
    logins: Seq<Seq<char>>,
    upto: int,
    trusted: Seq<(Seq<char>, u64)>,
    key: Seq<char>,
)
    requires
        0 <= upto <= logins.len(),
    ensures
        selected_upto(logins, upto, trusted, key) is Ok <==> forall|i: int|
            0 <= i < upto ==> exists|k: int|
                0 <= k < trusted.len() && (#[trigger] trusted[k]).0 == #[trigger] logins[i],
    decreases upto,
{
    if upto > 0 {
        law_trusted_logins_are_selected(logins, upto - 1, trusted, key);
        lemma_find_login(trusted, logins[upto - 1], 0);
        let at = find_login(trusted, logins[upto - 1], 0);
        if at < trusted.len() {
            assert(trusted[at].0 == logins[upto - 1]);
        } else {
            assert forall|k: int| 0 <= k < trusted.len() implies (#[trigger] trusted[k]).0
                != logins[upto - 1] by {}
        }
        if forall|i: int|
            0 <= i < upto ==> exists|k: int|
                0 <= k < trusted.len() && (#[trigger] trusted[k]).0 == #[trigger] logins[i] {
            assert(exists|k: int|
                0 <= k < trusted.len() && (#[trigger] trusted[k]).0 == logins[upto - 1]);
        }
    }
}

/// A list of repositories comes to those that it names, each once; it is refused
/// exactly where an entry names none.
pub proof fn law_repositories_are_those_of_the_list(
    entries: Seq<Seq<char>>,
    upto: int,
    key: Seq<char>,
)
    requires
        0 <= upto <= entries.len(),
    ensures
        repos_upto(entries, upto, key) is Ok <==> forall|i: int|
            0 <= i < upto ==> domain::slug_parts(#[trigger] entries[i]) is Ok,
        repos_upto(entries, upto, key) matches Ok(repos) ==> {
            &&& repos.no_duplicates()
            &&& forall|i: int|
                0 <= i < upto ==> repos.contains(domain::slug_parts(#[trigger] entries[i])->Ok_0)
            &&& forall|k: int|
                0 <= k < repos.len() ==> exists|i: int|
                    0 <= i < upto && domain::slug_parts(#[trigger] entries[i])->Ok_0
                        == #[trigger] repos[k]
        },
    decreases upto,
{
    if upto > 0 {
        law_repositories_are_those_of_the_list(entries, upto - 1, key);
        if let Ok(earlier) = repos_upto(entries, upto - 1, key) {
            if let Ok(repos) = repos_upto(entries, upto, key) {
                let new = domain::slug_parts(entries[upto - 1])->Ok_0;
                if !earlier.contains(new) {
                    assert(repos == earlier.push(new));
                    assert(repos[earlier.len() as int] == new);
                    assert forall|i: int, j: int| 0 <= i < repos.len() && 0 <= j < repos.len() && i
                        != j implies repos[i] != repos[j] by {
                        if i < earlier.len() {
                            assert(earlier.contains(earlier[i]));
                        }
                        if j < earlier.len() {
                            assert(earlier.contains(earlier[j]));
                        }
                    }
                }
                assert forall|i: int| 0 <= i < upto implies repos.contains(
                    domain::slug_parts(#[trigger] entries[i])->Ok_0,
                ) by {
                    if i < upto - 1 {
                        let slug = domain::slug_parts(entries[i])->Ok_0;
                        assert(earlier.contains(slug));
                        let k = choose|k: int| 0 <= k < earlier.len() && earlier[k] == slug;
                        assert(repos[k] == slug);
                    }
                }
                assert forall|k: int| 0 <= k < repos.len() implies exists|i: int|
                    0 <= i < upto && domain::slug_parts(#[trigger] entries[i])->Ok_0
                        == #[trigger] repos[k] by {
                    if k < earlier.len() {
                        assert(repos[k] == earlier[k]);
                        let i = choose|i: int|
                            0 <= i < upto - 1 && domain::slug_parts(#[trigger] entries[i])->Ok_0
                                == earlier[k];
                        assert(domain::slug_parts(entries[i])->Ok_0 == repos[k]);
                    } else {
                        assert(domain::slug_parts(entries[upto - 1])->Ok_0 == repos[k]);
                    }
                }
            }
        }
    }
}

/// Both templates have to be there and not to be blank; they are taken without the
/// white space around them, each for its own kind of task.
pub proof fn law_templates_have_to_be_there(prompts: CodexPromptsFile)
    ensures
        ({
            let mention = non_empty_text(text::opt_view(prompts.mention));
            let opened = non_empty_text(text::opt_view(prompts.pull_request_opened));
            &&& prompts_of(None) is Err
            &&& prompts_of(Some(prompts)) is Ok <==> mention is Some && opened is Some
            &&& mention is Some && opened is Some ==> prompts_of(Some(prompts)) == Ok::<
                (Seq<char>, Seq<char>),
                Seq<Seq<char>>,
            >((mention->0, opened->0))
        }),
{
}

/// A tilde at the beginning of a path stands for the home directory; an absolute
/// path is kept, and any other lies in the current directory.
pub proof fn law_where_paths_lead(path: Seq<char>, home: Seq<char>, current: Seq<char>)
    requires
        home.len() > 0 && home[0] == '/' && home.last() != '/',
        current.len() > 0 && current.last() != '/',
    ensures
        expanded(seq!['~'], Some(home)) == Ok::<Seq<char>, Seq<Seq<char>>>(home),
        path.len() > 0 && path[0] != '/' ==> expanded(seq!['~', '/'] + path, Some(home)) == Ok::<
            Seq<char>,
            Seq<Seq<char>>,
        >(home + seq!['/'] + path),
        path.len() > 0 && path[0] != '~' ==> expanded(path, Some(home)) == Ok::<
            Seq<char>,
            Seq<Seq<char>>,
        >(path) && expanded(path, None) == Ok::<Seq<char>, Seq<Seq<char>>>(path),
        expanded(seq!['~'], None) is Err && expanded(seq!['~', '/'] + path, None) is Err,
        path.len() > 0 && path[0] == '/' ==> absolute(path, Some(current)) == Ok::<
            Seq<char>,
            Seq<Seq<char>>,
        >(path) && absolute(path, None) == Ok::<Seq<char>, Seq<Seq<char>>>(path),
        path.len() > 0 && path[0] != '/' ==> absolute(path, Some(current)) == Ok::<
            Seq<char>,
            Seq<Seq<char>>,
        >(current + seq!['/'] + path) && absolute(path, None) is Err,
{
    reveal_strlit("~");
    reveal_strlit("~/");
    assert("~"@ =~= seq!['~']);
    assert("~/"@ =~= seq!['~', '/']);
    let below = seq!['~', '/'] + path;
    assert(below.take(2) =~= seq!['~', '/']);
    assert(below.skip(2) =~= path);
    assert(below.len() >= 2);
    assert(home.push('/') + path =~= home + seq!['/'] + path);
    assert(current.push('/') + path =~= current + seq!['/'] + path);
    if path.len() > 0 && path[0] != '~' {
        if text::has_prefix(path, "~/"@) {
            assert(path.take(2)[0] == '~');
        }
    }
}

/// The bot's directory is the one that is named, where that is not blank, and
/// `.maid` in the home directory otherwise.
pub proof fn law_where_the_bot_lives(
    named: Seq<char>,
    home: Seq<char>,
    surroundings: Surroundings,
)
    requires
        text::opt_view(surroundings.home) == Some(home),
        home.len() > 0 && home[0] == '/' && home.last() != '/',
    ensures
        text::trimmed(named).len() > 0 ==> maid_home_of(Some(named), surroundings) == located(
            named,
            surroundings,
        ),
        text::trimmed(named).len() == 0 ==> maid_home_of(Some(named), surroundings)
            == maid_home_of(None, surroundings),
        maid_home_of(None, surroundings) == Ok::<Seq<char>, Seq<Seq<char>>>(
            home + seq!['/', '.', 'm', 'a', 'i', 'd'],
        ),
{
    reveal_strlit(".maid");
    assert(path::joined_path(home, ".maid"@) =~= home + seq!['/', '.', 'm', 'a', 'i', 'd']);
}

/// A directory that the file names is where it says, a path of the user's; without
/// one it lies in the bot's directory.
pub proof fn law_where_directories_are(
    value: Seq<char>,
    maid_home: Seq<char>,
    name: Seq<char>,
    surroundings: Surroundings,
)
    ensures
        directory_of(None, maid_home, name, surroundings) == Ok::<Seq<char>, Seq<Seq<char>>>(
            path::joined_path(maid_home, name),
        ),
        text::trimmed(value).len() > 0 ==> directory_of(
            Some(value),
            maid_home,
            name,
            surroundings,
        ) == located(text::trimmed(value), surroundings),
        located(value, surroundings) == (match expanded(
            value,
            text::opt_view(surroundings.home),
        ) {
            Ok(path) => absolute(path, text::opt_view(surroundings.current_dir)),
            Err(fault) => Err(fault),
        }),
{
}

/// A file that leaves a setting out gets its default: all masters are reviewed in
/// the given repositories and nobody elsewhere, one task is at work at a time, 1200
/// requests an hour, notifications of four days, no limit of tasks a day, metrics on
/// the local port 9464, and directories in the bot's own.
pub proof fn law_what_is_left_out_has_a_default(
    file: ConfigFile,
    maid_home: Seq<char>,
    config_path: Seq<char>,
    surroundings: Surroundings,
)
    requires
        settings_of(file, maid_home, config_path, surroundings) is Ok,
    ensures
        ({
            let settings = settings_of(file, maid_home, config_path, surroundings)->Ok_0;
            &&& file.auto_review_accounts is None ==> settings.auto_review_accounts
                == settings.master_accounts
            &&& file.auto_review_public_accounts is None
                ==> settings.auto_review_public_accounts.len() == 0
            &&& file.auto_review_repos is None ==> settings.auto_review_repos.len() == 0
            &&& file.max_concurrent_requests is None ==> settings.max_concurrent_requests == 1
            &&& file.github_api_requests_per_hour is None
                ==> settings.github_api_requests_per_hour == 1200
            &&& file.github_notification_window_hours is None
                ==> settings.github_notification_window == 4 * 24
            &&& file.task_limit_per_24h is None ==> settings.task_limit_per_24h is None
            &&& file.metrics_bind_address is None ==> settings.metrics_bind_address
                == "127.0.0.1:9464"@
            &&& file.github_api_ip is None ==> settings.github_api_ip is None
            &&& file.git_dir is None ==> settings.git_dir == path::joined_path(maid_home, "git"@)
            &&& file.codex_home is None ==> settings.codex_home == path::joined_path(
                maid_home,
                "codex"@,
            )
            &&& settings.operator_mention_prompt.len() == 0
        }),
{
}

/// A setting that the file gives is the file's, and no other's.
pub proof fn law_settings_are_those_of_the_file(
    file: ConfigFile,
    maid_home: Seq<char>,
    config_path: Seq<char>,
    surroundings: Surroundings,
)
    requires
        settings_of(file, maid_home, config_path, surroundings) is Ok,
    ensures
        ({
            let settings = settings_of(file, maid_home, config_path, surroundings)->Ok_0;
            &&& file.bot_login matches Some(login) && settings.bot_login == text::trimmed(login@)
            &&& settings.bot_login.len() > 0
            &&& file.codex_model matches Some(model) && settings.codex_model == text::trimmed(
                model@,
            )
            &&& file.codex_reasoning_effort matches Some(effort)
                && settings.codex_reasoning_effort == text::trimmed(effort@)
            &&& file.task_limit_per_24h == settings.task_limit_per_24h
            &&& file.max_concurrent_requests matches Some(n)
                ==> settings.max_concurrent_requests == n
            &&& file.github_api_requests_per_hour matches Some(n)
                ==> settings.github_api_requests_per_hour == n
            &&& file.github_notification_window_hours matches Some(n)
                ==> settings.github_notification_window == n
            &&& file.metrics_bind_address matches Some(address) ==> settings.metrics_bind_address
                == address@
            &&& file.github_api_ip matches Some(ip) ==> settings.github_api_ip == (
            if text::trimmed(ip@).len() > 0 {
                Some(text::trimmed(ip@))
            } else {
                None
            })
            &&& file.codex_prompts matches Some(prompts) && {
                &&& prompts.mention matches Some(mention) && settings.mention_prompt
                    == text::trimmed(mention@)
                &&& prompts.pull_request_opened matches Some(opened)
                    && settings.pull_request_opened_prompt == text::trimmed(opened@)
            }
            &&& settings.github_api_requests_per_hour > 0
            &&& settings.github_notification_window > 0
        }),
{
}

/// One of the accounts has the login.
pub open spec fn has_login(accounts: Seq<(Seq<char>, u64)>, login: Seq<char>) -> bool {
    exists|i: int| 0 <= i < accounts.len() && (#[trigger] accounts[i]).0 == login
}

/// One of the entries is the login, but for white space around it and the case of
/// its letters.
pub open spec fn names_login(entries: Seq<Seq<char>>, login: Seq<char>) -> bool {
    exists|k: int|
        0 <= k < entries.len() && text::lowered(text::trimmed(#[trigger] entries[k])) == login
}

/// The accounts are exactly those whose logins the list names.
pub open spec fn named_by(accounts: Seq<(Seq<char>, u64)>, entries: Seq<Seq<char>>) -> bool {
    &&& forall|i: int|
        0 <= i < accounts.len() ==> names_login(entries, (#[trigger] accounts[i]).0)
    &&& forall|k: int|
        0 <= k < entries.len() ==> has_login(
            accounts,
            text::lowered(text::trimmed(#[trigger] entries[k])),
        )
}

proof fn lemma_chosen_by_login(
    list: Vec<String>,
    masters: Seq<(Seq<char>, u64)>,
    key: Seq<char>,
)
    requires
        optional_logins_of(Some(list), key) is Ok,
        selection_of(optional_logins_of(Some(list), key)->Ok_0, masters, key) is Ok,
    ensures
        named_by(
            selection_of(optional_logins_of(Some(list), key)->Ok_0, masters, key)->Ok_0->0,
            text::views(list@),
        ),
{
    let entries = text::views(list@);
    let logins = logins_upto(entries, list@.len() as int, key)->Ok_0;
    let chosen = selected_upto(logins, logins.len() as int, masters, key)->Ok_0;
    law_logins_are_those_of_the_list(entries, list@.len() as int, key);
    law_selected_accounts_are_trusted(logins, logins.len() as int, masters, key);
    assert forall|i: int| 0 <= i < chosen.len() implies names_login(
        entries,
        (#[trigger] chosen[i]).0,
    ) by {
        assert(logins.contains(logins[i]));
    }
    assert forall|k: int| 0 <= k < entries.len() implies has_login(
        chosen,
        text::lowered(text::trimmed(#[trigger] entries[k])),
    ) by {
        let login = text::lowered(text::trimmed(entries[k]));
        assert(logins.contains(login));
        let i = choose|i: int| 0 <= i < logins.len() && logins[i] == login;
        assert(chosen[i].0 == login);
    }
}

/// The lists of a configuration that is accepted: the masters are the accounts of
/// the file's records; the accounts to review are those of the masters that the
/// file's logins name; the repositories are those that the file names.
pub proof fn law_lists_are_those_of_the_file(
    file: ConfigFile,
    maid_home: Seq<char>,
    config_path: Seq<char>,
    surroundings: Surroundings,
)
    requires
        settings_of(file, maid_home, config_path, surroundings) is Ok,
    ensures
        ({
            let settings = settings_of(file, maid_home, config_path, surroundings)->Ok_0;
            &&& file.master_accounts matches Some(records) && {
                &&& settings.master_accounts.len() == records@.len()
                &&& forall|i: int|
                    0 <= i < records@.len() ==> #[trigger] settings.master_accounts[i] == (
                        text::lowered(text::trimmed(records@[i].login@)),
                        records@[i].id,
                    )
            }
            &&& file.auto_review_accounts matches Some(list) ==> named_by(
                settings.auto_review_accounts,
                text::views(list@),
            )
            &&& file.auto_review_public_accounts matches Some(list) ==> named_by(
                settings.auto_review_public_accounts,
                text::views(list@),
            )
            &&& file.auto_review_repos matches Some(list) ==> forall|k: int|
                0 <= k < list@.len() ==> settings.auto_review_repos.contains(
                    domain::slug_parts(#[trigger] text::views(list@)[k])->Ok_0,
                )
        }),
{
    let settings = settings_of(file, maid_home, config_path, surroundings)->Ok_0;
    let masters = settings.master_accounts;
    let records = file.master_accounts->0@;
    law_accounts_are_those_of_the_records(records, records.len() as int, "master_accounts"@);
    if let Some(list) = file.auto_review_accounts {
        lemma_chosen_by_login(list, masters, "auto_review_accounts"@);
    }
    if let Some(list) = file.auto_review_public_accounts {
        lemma_chosen_by_login(list, masters, "auto_review_public_accounts"@);
    }
    if let Some(list) = file.auto_review_repos {
        law_repositories_are_those_of_the_list(
            text::views(list@),
            list@.len() as int,
            "auto_review_repos"@,
        );
    }
}

/// When a configuration is accepted: the bot's login, the model, the effort and both
/// templates are there, there are masters, every list is in order, the directories
/// can be told, and no bound is zero.
pub proof fn law_when_a_configuration_is_accepted(
    file: ConfigFile,
    maid_home: Seq<char>,
    config_path: Seq<char>,
    surroundings: Surroundings,
)
    ensures
        settings_of(file, maid_home, config_path, surroundings) is Ok <==> {
            let masters = accounts_of(file.master_accounts, "master_accounts"@);
            let review = optional_logins_of(file.auto_review_accounts, "auto_review_accounts"@);
            let public = optional_logins_of(
                file.auto_review_public_accounts,
                "auto_review_public_accounts"@,
            );
            &&& non_empty_text(text::opt_view(file.bot_login)) is Some
            &&& non_empty_text(text::opt_view(file.codex_model)) is Some
            &&& non_empty_text(text::opt_view(file.codex_reasoning_effort)) is Some
            &&& prompts_of(file.codex_prompts) is Ok
            &&& masters is Ok && review is Ok && public is Ok
            &&& selection_of(review->Ok_0, masters->Ok_0, "auto_review_accounts"@) is Ok
            &&& selection_of(public->Ok_0, masters->Ok_0, "auto_review_public_accounts"@) is Ok
            &&& repos_of(file.auto_review_repos, "auto_review_repos"@) is Ok
            &&& directory_of(text::opt_view(file.git_dir), maid_home, "git"@, surroundings) is Ok
            &&& directory_of(
                text::opt_view(file.codex_home),
                maid_home,
                "codex"@,
                surroundings,
            ) is Ok
            &&& file.max_concurrent_requests != Some(0usize)
            &&& file.github_api_requests_per_hour != Some(0u32)
            &&& file.github_notification_window_hours != Some(0u32)
        },
{
}

/// The token is what `gh` printed, without the line end: it has to have succeeded
/// and to have printed something.
pub proof fn law_what_the_token_is(login: Seq<char>, output: GhOutput)
    ensures
        ({
            let printed = text::trimmed(vstd::utf8::decode_utf8(output.stdout@));
            &&& token_of(login, output) is Ok <==> output.success && vstd::utf8::valid_utf8(
                output.stdout@,
            ) && printed.len() > 0
            &&& token_of(login, output) is Ok ==> token_of(login, output)->Ok_0 == printed
        }),
{
}

/// Accounts and repositories are taken with all that tells them apart.
pub proof fn law_identities_are_faithful(
    accounts: Seq<TrustedAccount>,
    repos: Seq<RepoSlug>,
    i: int,
)
    ensures
        identities(accounts).len() == accounts.len(),
        0 <= i < accounts.len() ==> identities(accounts)[i] == (
            accounts[i].login@,
            accounts[i].id.number(),
        ),
        slugs(repos).len() == repos.len(),
        0 <= i < repos.len() ==> slugs(repos)[i] == (repos[i].owner@, repos[i].repo@),
{
}

/// Settings are taken whole.
pub proof fn law_settings_are_taken_whole(settings: Settings)
    ensures
        settings@.bot_login == settings.bot_login@,
        settings@.master_accounts == identities(settings.master_accounts@),
        settings@.auto_review_accounts == identities(settings.auto_review_accounts@),
        settings@.auto_review_public_accounts == identities(
            settings.auto_review_public_accounts@,
        ),
        settings@.auto_review_repos == slugs(settings.auto_review_repos@),
        settings@.git_dir == settings.git_dir@,
        settings@.task_limit_per_24h == settings.task_limit_per_24h,
        settings@.max_concurrent_requests == settings.max_concurrent_requests,
        settings@.github_api_requests_per_hour == settings.github_api_requests_per_hour.rate(),
        settings@.github_notification_window == settings.github_notification_window.length(),
        settings@.codex_home == settings.codex_home@,
        settings@.codex_model == settings.codex_model@,
        settings@.codex_reasoning_effort == settings.codex_reasoning_effort@,
        settings@.mention_prompt == settings.codex_prompts.mention@,
        settings@.pull_request_opened_prompt == settings.codex_prompts.pull_request_opened@,
        settings@.operator_mention_prompt == settings.codex_prompts.operator_mention@,
        settings@.github_api_ip == text::opt_view(settings.github_api_ip),
        settings@.metrics_bind_address == settings.metrics_bind_address@,
{
}

/// Templates are taken each for its own kind, and there is none for operators.
pub proof fn law_templates_keep_their_kind(
    templates: CodexPromptTemplates,
    mention: Seq<char>,
    opened: Seq<char>,
)
    ensures
        are_prompts(templates, (mention, opened)) <==> templates.mention@ == mention
            && templates.pull_request_opened@ == opened && templates.operator_mention@ == Seq::<
            char,
        >::empty(),
{
    if templates.operator_mention@.len() == 0 {
        assert(templates.operator_mention@ =~= Seq::<char>::empty());
    }
}

/// What is wrong with a configuration is said of the first setting that is wrong, and
/// a required one is named together with the file.
pub proof fn law_what_is_wrong_is_named(
    file: ConfigFile,
    maid_home: Seq<char>,
    config_path: Seq<char>,
    surroundings: Surroundings,
)
    ensures
        ({
            let faults = settings_of(file, maid_home, config_path, surroundings);
            let named = non_empty_text(text::opt_view(file.bot_login)) is Some;
            let masters = accounts_of(file.master_accounts, "master_accounts"@);
            let review = optional_logins_of(file.auto_review_accounts, "auto_review_accounts"@);
            let chosen = selection_of(review->Ok_0, masters->Ok_0, "auto_review_accounts"@);
            let public = optional_logins_of(
                file.auto_review_public_accounts,
                "auto_review_public_accounts"@,
            );
            &&& !named ==> faults == Err::<SettingsView, Seq<Seq<char>>>(
                seq!["bot_login is required; run `just init` and fill out "@ + config_path],
            )
            &&& named && masters is Err ==> faults == Err::<SettingsView, Seq<Seq<char>>>(
                seq!["master_accounts"@ + " is required in "@ + config_path] + masters->Err_0,
            )
            &&& named && masters is Ok && review is Err ==> faults == Err::<
                SettingsView,
                Seq<Seq<char>>,
            >(review->Err_0)
            &&& named && masters is Ok && review is Ok && chosen is Err ==> faults == Err::<
                SettingsView,
                Seq<Seq<char>>,
            >(chosen->Err_0)
            &&& named && masters is Ok && review is Ok && chosen is Ok && public is Err ==> faults
                == Err::<SettingsView, Seq<Seq<char>>>(public->Err_0)
        }),
        ({
            let faults = settings_of(file, maid_home, config_path, surroundings);
            let fixed = ConfigFile {
                max_concurrent_requests: None,
                github_api_requests_per_hour: None,
                github_notification_window_hours: None,
                ..file
            };
            let else_good = settings_of(fixed, maid_home, config_path, surroundings) is Ok;
            &&& else_good && file.max_concurrent_requests == Some(0usize) ==> faults == Err::<
                SettingsView,
                Seq<Seq<char>>,
            >(seq!["max_concurrent_requests must be at least 1"@])
            &&& else_good && file.max_concurrent_requests is None
                && file.github_api_requests_per_hour == Some(0u32) ==> faults == Err::<
                SettingsView,
                Seq<Seq<char>>,
            >(seq!["github_api_requests_per_hour must be at least 1"@])
            &&& else_good && file.max_concurrent_requests is None
                && file.github_api_requests_per_hour is None
                && file.github_notification_window_hours == Some(0u32) ==> faults == Err::<
                SettingsView,
                Seq<Seq<char>>,
            >(seq!["github_notification_window_hours must be at least 1"@])
        }),
{
}

/// What is wrong with a list of accounts is said of its first bad record, wherever it
/// stands: a blank login, an ID of zero, or a login or an ID that an earlier record
/// has, which is then named.
pub proof fn law_what_is_wrong_with_accounts(
    records: Seq<TrustedAccountFile>,
    n: int,
    key: Seq<char>,
    k: int,
)
    requires
        0 <= n < records.len(),
        accounts_upto(records, n, key) is Ok,
    ensures
        ({
            let accounts = accounts_upto(records, n, key)->Ok_0;
            let next = accounts_upto(records, n + 1, key);
            let login = text::lowered(text::trimmed(records[n].login@));
            let id = records[n].id;
            &&& text::trimmed(records[n].login@).len() == 0 ==> next == Err::<
                Seq<(Seq<char>, u64)>,
                Seq<Seq<char>>,
            >(seq![key + " cannot contain an empty GitHub login"@])
            &&& text::trimmed(records[n].login@).len() > 0 && id == 0 ==> next == Err::<
                Seq<(Seq<char>, u64)>,
                Seq<Seq<char>>,
            >(seq!["invalid "@ + key + " ID"@])
            &&& text::trimmed(records[n].login@).len() > 0 && id > 0 && 0 <= k < accounts.len()
                && (accounts[k].0 == login || accounts[k].1 == id) && (forall|i: int|
                0 <= i < k ==> (#[trigger] accounts[i]).0 != login && accounts[i].1 != id) ==> next
                == Err::<Seq<(Seq<char>, u64)>, Seq<Seq<char>>>(
                seq![
                    key + " contains a duplicate or conflicting GitHub identity: "@
                        + accounts[k].0 + " ("@ + numeral::decimal(accounts[k].1 as nat) + ")"@,
                ],
            )
        }),
        accounts_of(None, key) == Err::<Seq<(Seq<char>, u64)>, Seq<Seq<char>>>(
            seq![key + " must list at least one { login, id } GitHub identity"@],
        ),
{
    let accounts = accounts_upto(records, n, key)->Ok_0;
    let login = text::lowered(text::trimmed(records[n].login@));
    let id = records[n].id;
    assert(login.len() == text::trimmed(records[n].login@).len());
    if 0 <= k < accounts.len() && (accounts[k].0 == login || accounts[k].1 == id) && (forall|i: int|
        0 <= i < k ==> (#[trigger] accounts[i]).0 != login && accounts[i].1 != id) {
        lemma_first_conflict(accounts, login, id, 0);
    }
}

/// What is wrong with a list of logins or of repositories is said of its first bad
/// entry, wherever it stands: a blank login, a login that is not trusted, or an entry
/// that names no repository.
pub proof fn law_what_is_wrong_with_lists(
    entries: Seq<Seq<char>>,
    n: int,
    accounts: Seq<(Seq<char>, u64)>,
    key: Seq<char>,
    owner: Seq<char>,
    repo: Seq<char>,
)
    requires
        0 <= n < entries.len(),
    ensures
        logins_upto(entries, n, key) is Ok && text::trimmed(entries[n]).len() == 0 ==> logins_upto(
            entries,
            n + 1,
            key,
        ) == Err::<Seq<Seq<char>>, Seq<Seq<char>>>(
            seq![key + " cannot contain empty GitHub logins"@],
        ),
        selected_upto(entries, n, accounts, key) is Ok && (forall|i: int|
            0 <= i < accounts.len() ==> (#[trigger] accounts[i]).0 != entries[n])
            ==> selected_upto(entries, n + 1, accounts, key) == Err::<
            Seq<(Seq<char>, u64)>,
            Seq<Seq<char>>,
        >(seq![key + " must be a subset of master_accounts: "@ + entries[n]]),
        repos_upto(entries, n, key) is Ok ==> {
            let next = repos_upto(entries, n + 1, key);
            let name = text::trimmed(entries[n]);
            &&& !name.contains('/') ==> next == Err::<
                Seq<(Seq<char>, Seq<char>)>,
                Seq<Seq<char>>,
            >(
                seq![
                    "invalid "@ + key + " entry"@,
                    "repository must be formatted as owner/repo: "@ + domain::debug_quoted(name),
                ],
            )
            &&& name == owner + seq!['/'] + repo && !owner.contains('/') && repo.contains('/')
                ==> next == Err::<Seq<(Seq<char>, Seq<char>)>, Seq<Seq<char>>>(
                seq![
                    "invalid "@ + key + " entry"@,
                    "repository must be formatted as owner/repo: "@ + domain::debug_quoted(name),
                ],
            )
            &&& name == owner + seq!['/'] + repo && !owner.contains('/') && !repo.contains('/')
                && !domain::valid_name_part(owner) ==> next == Err::<
                Seq<(Seq<char>, Seq<char>)>,
                Seq<Seq<char>>,
            >(
                seq![
                    "invalid "@ + key + " entry"@,
                    "invalid "@ + "repository owner"@ + ": "@ + domain::debug_quoted(owner),
                ],
            )
            &&& name == owner + seq!['/'] + repo && domain::valid_name_part(owner)
                && !repo.contains('/') && !domain::valid_name_part(repo) ==> next == Err::<
                Seq<(Seq<char>, Seq<char>)>,
                Seq<Seq<char>>,
            >(
                seq![
                    "invalid "@ + key + " entry"@,
                    "invalid "@ + "repository name"@ + ": "@ + domain::debug_quoted(repo),
                ],
            )
        },
{
    lemma_find_login(accounts, entries[n], 0);
    let name = text::trimmed(entries[n]);
    if name == owner + seq!['/'] + repo {
        if domain::valid_name_part(owner) {
            domain::law_name_part_is_one_level(owner);
        }
        if !owner.contains('/') {
            let at = owner.len() as int;
            assert(name[at] == '/');
            assert(name.contains('/'));
            text::lemma_index_of(name, '/', 0);
            let found = text::index_of(name, '/', 0);
            if found < at {
                assert(owner[found] == '/');
            }
            assert(found == at);
            assert(name.take(at) =~= owner);
            assert(name.skip(at + 1) =~= repo);
        }
    }
}

/// What is there of an optional list is taken whole.
pub proof fn law_optional_lists_are_taken_whole(
    names: Vec<String>,
    accounts: Vec<TrustedAccount>,
)
    ensures
        opt_views(Some(names)) == Some(text::views(names@)),
        opt_views(None) is None,
        opt_identities(Some(accounts)) == Some(identities(accounts@)),
        opt_identities(None) is None,
{
}

/// An address for the API has to be an IP address where there is one, and settings
/// without one need none.
pub proof fn law_which_api_addresses_pass(
    settings: Settings,
    parses: bool,
    r: Result<AddressedSettings, ConfigError>,
)
    requires
        call_ensures(Settings::confirm_api_ip, (settings, parses), r),
    ensures
        r is Ok <==> settings.github_api_ip is None || parses,
        r matches Ok(addressed) ==> addressed.settings == settings,
        r matches Err(error) ==> error@ == seq![
            "github_api_ip must be an IPv4 or IPv6 address"@,
        ],
{
}

/// Metrics are served on a loopback address only. What is kept is kept in the bot's
/// home, each kind in a file of its own.
pub proof fn law_when_a_configuration_is_complete(
    settings: AuthenticatedSettings,
    home: &str,
    parses: bool,
    is_loopback: bool,
    r: Result<Config, ConfigError>,
)
    requires
        call_ensures(AuthenticatedSettings::complete, (settings, home, parses, is_loopback), r),
    ensures
        r is Ok <==> parses && is_loopback,
        !parses ==> (r matches Err(error) && error@ == seq![
            "metrics_bind_address must be an IP address and port"@,
        ]),
        parses && !is_loopback ==> (r matches Err(error) && error@ == seq![
            "metrics_bind_address must use a loopback IP address"@,
        ]),
        r matches Ok(config) ==> {
            &&& config.settings == settings.settings
            &&& config.github_token == settings.github_token
            &&& config.daemon_pid_path@ == path::joined_path(home@, "maid.pid"@)
            &&& config.task_start_ledger_path@ == path::joined_path(home@, "task-starts.json"@)
            &&& config.pending_handled_marker_ledger_path@ == path::joined_path(
                home@,
                "pending-handled-markers.json"@,
            )
            &&& config.observed_notification_ledger_path@ == path::joined_path(
                home@,
                "observed-notifications.json"@,
            )
        },
{
}

/// The GitHub CLI is asked for the token of the bot's own login on GitHub.
pub proof fn law_how_the_token_is_asked_for(login: &str, r: Vec<String>)
    requires
        call_ensures(gh_token_args, (login,), r),
    ensures
        r@.len() == 6,
        r@[0]@ == "auth"@,
        r@[1]@ == "token"@,
        r@[2]@ == "--hostname"@,
        r@[3]@ == "github.com"@,
        r@[4]@ == "--user"@,
        r@[5]@ == login@,
{
    let parts = text::views(r@);
    assert(parts.len() == r@.len());
    assert(parts[0] == "auth"@ && parts[1] == "token"@ && parts[2] == "--hostname"@);
    assert(parts[3] == "github.com"@ && parts[4] == "--user"@ && parts[5] == login@);
    assert(forall|i: int| 0 <= i < parts.len() ==> #[trigger] parts[i] == r@[i]@);
}

/// Past the accounts, what is wrong is said of the first wrong one of these, in this
/// order: the repositories, the directory for git, the directory for Codex, the model,
/// the effort, and the prompts. What is required is named together with the file.
pub proof fn law_what_else_is_wrong_is_named(
    file: ConfigFile,
    maid_home: Seq<char>,
    config_path: Seq<char>,
    surroundings: Surroundings,
)
    requires
        non_empty_text(text::opt_view(file.bot_login)) is Some,
        accounts_of(file.master_accounts, "master_accounts"@) is Ok,
        file.auto_review_accounts is None,
        file.auto_review_public_accounts is None,
        file.max_concurrent_requests is None,
        file.github_api_requests_per_hour is None,
        file.github_notification_window_hours is None,
    ensures
        ({
            let faults = settings_of(file, maid_home, config_path, surroundings);
            let repos = repos_of(file.auto_review_repos, "auto_review_repos"@);
            let git = directory_of(text::opt_view(file.git_dir), maid_home, "git"@, surroundings);
            let home = directory_of(
                text::opt_view(file.codex_home),
                maid_home,
                "codex"@,
                surroundings,
            );
            let model = required_text(text::opt_view(file.codex_model), "codex_model"@);
            let effort = required_text(
                text::opt_view(file.codex_reasoning_effort),
                "codex_reasoning_effort"@,
            );
            let prompts = prompts_of(file.codex_prompts);
            &&& repos is Err ==> faults == Err::<SettingsView, Seq<Seq<char>>>(repos->Err_0)
            &&& repos is Ok && git is Err ==> faults == Err::<SettingsView, Seq<Seq<char>>>(
                git->Err_0,
            )
            &&& repos is Ok && git is Ok && home is Err ==> faults == Err::<
                SettingsView,
                Seq<Seq<char>>,
            >(home->Err_0)
            &&& repos is Ok && git is Ok && home is Ok && model is Err ==> faults == Err::<
                SettingsView,
                Seq<Seq<char>>,
            >(seq!["codex_model"@ + " is required in "@ + config_path] + model->Err_0)
            &&& repos is Ok && git is Ok && home is Ok && model is Ok && effort is Err ==> faults
                == Err::<SettingsView, Seq<Seq<char>>>(
                seq!["codex_reasoning_effort"@ + " is required in "@ + config_path]
                    + effort->Err_0,
            )
            &&& repos is Ok && git is Ok && home is Ok && model is Ok && effort is Ok
                && prompts is Err ==> faults == Err::<SettingsView, Seq<Seq<char>>>(
                seq!["codex_prompts"@ + " is required in "@ + config_path] + prompts->Err_0,
            )
            &&& repos is Ok && git is Ok && home is Ok && model is Ok && effort is Ok
                && prompts is Ok ==> faults is Ok
        }),
{
}

} // verus!
