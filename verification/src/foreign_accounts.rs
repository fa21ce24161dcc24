//! The account classifier and the per-key balance ledger.
//!
//! `ForeignAccounts::load` reads every open account of the budget, extracts
//! at most one tag from its name or note, and builds the registry: the set
//! of foreign currencies in use, the role of each account, and the
//! designated difference account of every difference key.  It also seeds
//! the `DifferenceBalances` ledger from the accounts' current balances.

use vstd::prelude::*;
use crate::tags::{
    find_convert_tag, has_convert_tag, scan_currency_tags, scan_difference_tags,
    spec_scan_currency, spec_scan_difference, TagScan,
};
use crate::types::{AccountClass, CurrencyCode, DifferenceKey, Milliunits, YnabAccountId};

verus! {

/// The native kind of an account in the remote ledger.
#[derive(Clone, Copy, Debug, PartialEq, Eq, Structural)]
pub enum AccountKind {
    Checking,
    Savings,
    Cash,
    CreditCard,
    LineOfCredit,
    OtherAsset,
    OtherLiability,
}

/// The account class derived from the native kind: off-budget kinds are
/// tracking accounts, on-budget credit kinds are credit accounts, the rest
/// are debit accounts.
pub open spec fn spec_account_class(kind: AccountKind) -> AccountClass {
    match kind {
        AccountKind::OtherAsset => AccountClass::Tracking,
        AccountKind::OtherLiability => AccountClass::Tracking,
        AccountKind::CreditCard => AccountClass::Credit,
        AccountKind::LineOfCredit => AccountClass::Credit,
        _ => AccountClass::Debit,
    }
}

/// Derives the account class of a native account kind.
pub fn account_class_of(kind: AccountKind) -> (r: AccountClass)
    ensures
        r == spec_account_class(kind),
{
    match kind {
        AccountKind::OtherAsset => AccountClass::Tracking,
        AccountKind::OtherLiability => AccountClass::Tracking,
        AccountKind::CreditCard => AccountClass::Credit,
        AccountKind::LineOfCredit => AccountClass::Credit,
        _ => AccountClass::Debit,
    }
}

/// One account of the remote ledger, as the classifier reads it.
#[derive(Debug)]
pub struct AccountInput {
    pub id: YnabAccountId,
    pub name: String,
    pub note: Option<String>,
    pub kind: AccountKind,
    /// The current balance in milliunits.
    pub balance: i64,
    pub deleted: bool,
    pub closed: bool,
}

/// The role of one account, derived once from its tags.
#[derive(Clone, Copy, Debug, PartialEq, Eq, Structural)]
pub enum AccountData {
    Local { force_convert: bool },
    Foreign { difference_key: DifferenceKey },
    Difference { difference_key: DifferenceKey },
}

/// The view of an optional note.
pub open spec fn opt_str_view(o: &Option<String>) -> Option<Seq<char>> {
    match o {
        Option::Some(s) => Option::Some(s@),
        Option::None => Option::None,
    }
}

/// How extracting one tag pattern from an account's name and note fails.
#[derive(Clone, Copy, Debug, PartialEq, Eq, Structural)]
pub enum TagFieldError {
    /// The name holds more than one tag of the pattern.
    MultipleTagsInName,
    /// The name holds a tag and the note holds one too.
    TagsInNameAndNote,
    /// The note holds more than one tag of the pattern.
    MultipleTagsInNote,
}

/// Extracts at most one bare currency tag from a name and an optional note:
/// a single tag in the name wins, the note may then hold none; otherwise a
/// single tag in the note is taken.
pub open spec fn spec_capture_currency(name: Seq<char>, note: Option<Seq<char>>) -> Result<
    Option<CurrencyCode>,
    TagFieldError,
> {
    match spec_scan_currency(name) {
        TagScan::ManyTags => Err(TagFieldError::MultipleTagsInName),
        TagScan::OneTag(c) => match note {
            Option::Some(t) => if spec_scan_currency(t) is NoTag {
                Ok(Option::Some(c))
            } else {
                Err(TagFieldError::TagsInNameAndNote)
            },
            Option::None => Ok(Option::Some(c)),
        },
        TagScan::NoTag => match note {
            Option::None => Ok(Option::None),
            Option::Some(t) => match spec_scan_currency(t) {
                TagScan::ManyTags => Err(TagFieldError::MultipleTagsInNote),
                TagScan::OneTag(c) => Ok(Option::Some(c)),
                TagScan::NoTag => Ok(Option::None),
            },
        },
    }
}

/// As `spec_capture_currency`, for difference-account tags.
pub open spec fn spec_capture_difference(name: Seq<char>, note: Option<Seq<char>>) -> Result<
    Option<CurrencyCode>,
    TagFieldError,
> {
    match spec_scan_difference(name) {
        TagScan::ManyTags => Err(TagFieldError::MultipleTagsInName),
        TagScan::OneTag(c) => match note {
            Option::Some(t) => if spec_scan_difference(t) is NoTag {
                Ok(Option::Some(c))
            } else {
                Err(TagFieldError::TagsInNameAndNote)
            },
            Option::None => Ok(Option::Some(c)),
        },
        TagScan::NoTag => match note {
            Option::None => Ok(Option::None),
            Option::Some(t) => match spec_scan_difference(t) {
                TagScan::ManyTags => Err(TagFieldError::MultipleTagsInNote),
                TagScan::OneTag(c) => Ok(Option::Some(c)),
                TagScan::NoTag => Ok(Option::None),
            },
        },
    }
}

/// Extracts the bare currency tag of an account.
pub fn capture_currency(name: &String, note: &Option<String>) -> (r: Result<
    Option<CurrencyCode>,
    TagFieldError,
>)
    ensures
        r == spec_capture_currency(name@, opt_str_view(note)),
        r matches Ok(Some(c)) ==> c.wf(),
{
    match scan_currency_tags(name.as_str()) {
        TagScan::ManyTags => Err(TagFieldError::MultipleTagsInName),
        TagScan::OneTag(c) => match note {
            Option::Some(t) => match scan_currency_tags(t.as_str()) {
                TagScan::NoTag => Ok(Some(c)),
                _ => Err(TagFieldError::TagsInNameAndNote),
            },
            Option::None => Ok(Some(c)),
        },
        TagScan::NoTag => match note {
            Option::None => Ok(None),
            Option::Some(t) => match scan_currency_tags(t.as_str()) {
                TagScan::ManyTags => Err(TagFieldError::MultipleTagsInNote),
                TagScan::OneTag(c) => Ok(Some(c)),
                TagScan::NoTag => Ok(None),
            },
        },
    }
}

/// Extracts the difference-account tag of an account.
pub fn capture_difference(name: &String, note: &Option<String>) -> (r: Result<
    Option<CurrencyCode>,
    TagFieldError,
>)
    ensures
        r == spec_capture_difference(name@, opt_str_view(note)),
        r matches Ok(Some(c)) ==> c.wf(),
{
    match scan_difference_tags(name.as_str()) {
        TagScan::ManyTags => Err(TagFieldError::MultipleTagsInName),
        TagScan::OneTag(c) => match note {
            Option::Some(t) => match scan_difference_tags(t.as_str()) {
                TagScan::NoTag => Ok(Some(c)),
                _ => Err(TagFieldError::TagsInNameAndNote),
            },
            Option::None => Ok(Some(c)),
        },
        TagScan::NoTag => match note {
            Option::None => Ok(None),
            Option::Some(t) => match scan_difference_tags(t.as_str()) {
                TagScan::ManyTags => Err(TagFieldError::MultipleTagsInNote),
                TagScan::OneTag(c) => Ok(Some(c)),
                TagScan::NoTag => Ok(None),
            },
        },
    }
}

/// The account carries a force-convert marker in its name or note.
pub open spec fn spec_force_convert(name: Seq<char>, note: Option<Seq<char>>) -> bool {
    has_convert_tag(name) || (note is Some && has_convert_tag(note->0))
}

/// Tests the force-convert marker of an account.
pub fn force_convert_of(name: &String, note: &Option<String>) -> (r: bool)
    ensures
        r == spec_force_convert(name@, opt_str_view(note)),
{
    if find_convert_tag(name.as_str()) {
        true
    } else {
        match note {
            Option::Some(t) => find_convert_tag(t.as_str()),
            Option::None => false,
        }
    }
}

/// How classifying one account fails.
#[derive(Clone, Copy, Debug, PartialEq, Eq, Structural)]
pub enum AccountTagError {
    /// The bare currency tag could not be extracted.
    ForeignField(TagFieldError),
    /// The difference-account tag could not be extracted.
    DifferenceField(TagFieldError),
    /// One account may not carry both a currency and a difference tag.
    BothForeignAndDifference,
    /// The budget may not have a difference account for its local currency.
    DifferenceAccountForLocalCurrency,
}

/// Classifies one open account.  A currency tag naming the local currency
/// makes the account local; a difference tag naming it is an error.
pub open spec fn spec_classify_account(local: CurrencyCode, a: AccountInput) -> Result<
    AccountData,
    AccountTagError,
> {
    let note = opt_str_view(&a.note);
    match spec_capture_currency(a.name@, note) {
        Err(e) => Err(AccountTagError::ForeignField(e)),
        Ok(foreign) => match spec_capture_difference(a.name@, note) {
            Err(e) => Err(AccountTagError::DifferenceField(e)),
            Ok(difference) => match (foreign, difference) {
                (Option::Some(_), Option::Some(_)) => Err(
                    AccountTagError::BothForeignAndDifference,
                ),
                (Option::Some(c), Option::None) => if c == local {
                    Ok(
                        AccountData::Local {
                            force_convert: spec_force_convert(a.name@, note),
                        },
                    )
                } else {
                    Ok(
                        AccountData::Foreign {
                            difference_key: DifferenceKey {
                                currency: c,
                                account_class: spec_account_class(a.kind),
                            },
                        },
                    )
                },
                (Option::None, Option::Some(c)) => if c == local {
                    Err(AccountTagError::DifferenceAccountForLocalCurrency)
                } else {
                    Ok(
                        AccountData::Difference {
                            difference_key: DifferenceKey {
                                currency: c,
                                account_class: spec_account_class(a.kind),
                            },
                        },
                    )
                },
                (Option::None, Option::None) => Ok(
                    AccountData::Local {
                        force_convert: spec_force_convert(a.name@, note),
                    },
                ),
            },
        },
    }
}

/// Classifies one open account.
pub fn classify_account(local: CurrencyCode, a: &AccountInput) -> (r: Result<
    AccountData,
    AccountTagError,
>)
    ensures
        r == spec_classify_account(local, *a),
        r matches Ok(AccountData::Foreign { difference_key }) ==> difference_key.wf(),
        r matches Ok(AccountData::Difference { difference_key }) ==> difference_key.wf(),
{
    let foreign = match capture_currency(&a.name, &a.note) {
        Err(e) => {
            return Err(AccountTagError::ForeignField(e));
        },
        Ok(f) => f,
    };
    let difference = match capture_difference(&a.name, &a.note) {
        Err(e) => {
            return Err(AccountTagError::DifferenceField(e));
        },
        Ok(d) => d,
    };
    match (foreign, difference) {
        (Some(_), Some(_)) => Err(AccountTagError::BothForeignAndDifference),
        (Some(c), None) => {
            if c == local {
                Ok(AccountData::Local { force_convert: force_convert_of(&a.name, &a.note) })
            } else {
                Ok(
                    AccountData::Foreign {
                        difference_key: DifferenceKey {
                            currency: c,
                            account_class: account_class_of(a.kind),
                        },
                    },
                )
            }
        },
        (None, Some(c)) => {
            if c == local {
                Err(AccountTagError::DifferenceAccountForLocalCurrency)
            } else {
                Ok(
                    AccountData::Difference {
                        difference_key: DifferenceKey {
                            currency: c,
                            account_class: account_class_of(a.kind),
                        },
                    },
                )
            }
        },
        (None, None) => Ok(
            AccountData::Local { force_convert: force_convert_of(&a.name, &a.note) },
        ),
    }
}

/// The map denoted by an association list of accounts: later entries win.
pub open spec fn account_map_of(s: Seq<(YnabAccountId, AccountData)>) -> Map<Seq<char>, AccountData>
    decreases s.len(),
{
    if s.len() == 0 {
        Map::empty()
    } else {
        account_map_of(s.drop_last()).insert(s.last().0@, s.last().1)
    }
}

/// The map denoted by an association list of difference accounts.
pub open spec fn diff_map_of(s: Seq<(DifferenceKey, YnabAccountId)>) -> Map<
    DifferenceKey,
    Seq<char>,
>
    decreases s.len(),
{
    if s.len() == 0 {
        Map::empty()
    } else {
        diff_map_of(s.drop_last()).insert(s.last().0, s.last().1@)
    }
}

/// The set denoted by a list of currency codes.
pub open spec fn currency_set_of(s: Seq<CurrencyCode>) -> Set<CurrencyCode>
    decreases s.len(),
{
    if s.len() == 0 {
        Set::empty()
    } else {
        currency_set_of(s.drop_last()).insert(s.last())
    }
}

/// An account id occurs in the list exactly when the denoted map knows it.
pub proof fn lemma_account_map_domain(s: Seq<(YnabAccountId, AccountData)>, id: Seq<char>)
    ensures
        account_map_of(s).contains_key(id) <==> exists|j: int| 0 <= j < s.len() && s[j].0@ == id,
    decreases s.len(),
{
    if s.len() > 0 {
        lemma_account_map_domain(s.drop_last(), id);
        if s.last().0@ == id {
            assert(s[s.len() - 1].0@ == id);
        } else {
            assert(forall|j: int|
                0 <= j < s.len() - 1 ==> s.drop_last()[j] == s[j]);
        }
    }
}

/// The account list has no id twice.
pub open spec fn unique_account_ids(s: Seq<(YnabAccountId, AccountData)>) -> bool {
    forall|j1: int, j2: int| 0 <= j1 < j2 < s.len() ==> s[j1].0@ != s[j2].0@
}

/// Under unique ids, every list entry is what the map holds for its id.
pub proof fn lemma_account_map_value(s: Seq<(YnabAccountId, AccountData)>, j: int)
    requires
        unique_account_ids(s),
        0 <= j < s.len(),
    ensures
        account_map_of(s).contains_key(s[j].0@),
        account_map_of(s)[s[j].0@] == s[j].1,
    decreases s.len(),
{
    if j == s.len() - 1 {
    } else {
        assert(forall|j1: int, j2: int|
            0 <= j1 < j2 < s.len() - 1 ==> s.drop_last()[j1].0@ != s.drop_last()[j2].0@);
        lemma_account_map_value(s.drop_last(), j);
        assert(s.drop_last()[j] == s[j]);
        assert(s[j].0@ != s.last().0@);
    }
}

/// Searches the account list backwards; the last match is what the map of
/// the first `i` entries holds.
fn find_account_data(v: &Vec<(YnabAccountId, AccountData)>, id: &YnabAccountId, i: usize) -> (r:
    Option<usize>)
    requires
        i <= v@.len(),
    ensures
        match r {
            Option::Some(j) => j < i && v@[j as int].0@ == id@ && account_map_of(
                v@.take(i as int),
            ).contains_key(id@) && account_map_of(v@.take(i as int))[id@] == v@[j as int].1,
            Option::None => !account_map_of(v@.take(i as int)).contains_key(id@),
        },
    decreases i,
{
    if i == 0 {
        None
    } else {
        proof {
            assert(v@.take(i as int).drop_last() =~= v@.take(i as int - 1));
            assert(v@.take(i as int).last() == v@[i as int - 1]);
        }
        if v[i - 1].0.eq_id(id) {
            Some(i - 1)
        } else {
            find_account_data(v, id, i - 1)
        }
    }
}

/// Searches the difference-account list backwards.
fn find_diff_account(v: &Vec<(DifferenceKey, YnabAccountId)>, key: DifferenceKey, i: usize) -> (r:
    Option<usize>)
    requires
        i <= v@.len(),
    ensures
        match r {
            Option::Some(j) => j < i && v@[j as int].0 == key && diff_map_of(
                v@.take(i as int),
            ).contains_key(key) && diff_map_of(v@.take(i as int))[key] == v@[j as int].1@,
            Option::None => !diff_map_of(v@.take(i as int)).contains_key(key),
        },
    decreases i,
{
    if i == 0 {
        None
    } else {
        proof {
            assert(v@.take(i as int).drop_last() =~= v@.take(i as int - 1));
            assert(v@.take(i as int).last() == v@[i as int - 1]);
        }
        if v[i - 1].0 == key {
            Some(i - 1)
        } else {
            find_diff_account(v, key, i - 1)
        }
    }
}

/// Whether the first `i` currencies hold `c`.
fn contains_currency(v: &Vec<CurrencyCode>, c: CurrencyCode, i: usize) -> (r: bool)
    requires
        i <= v@.len(),
    ensures
        r == currency_set_of(v@.take(i as int)).contains(c),
    decreases i,
{
    if i == 0 {
        false
    } else {
        proof {
            assert(v@.take(i as int).drop_last() =~= v@.take(i as int - 1));
            assert(v@.take(i as int).last() == v@[i as int - 1]);
        }
        if v[i - 1] == c {
            true
        } else {
            contains_currency(v, c, i - 1)
        }
    }
}

/// Whether one account role carries a well-formed difference key (local
/// roles carry none).
pub open spec fn account_data_wf(d: AccountData) -> bool {
    match d {
        AccountData::Local { .. } => true,
        AccountData::Foreign { difference_key } => difference_key.wf(),
        AccountData::Difference { difference_key } => difference_key.wf(),
    }
}

/// The registry of classified accounts: the foreign currencies in use, the
/// role of every open account, and the difference account of every key.
#[derive(Debug)]
pub struct ForeignAccounts {
    pub all_used_foreign_currencies: Vec<CurrencyCode>,
    pub account_id_data: Vec<(YnabAccountId, AccountData)>,
    pub difference_account_ids: Vec<(DifferenceKey, YnabAccountId)>,
}

impl ForeignAccounts {
    /// The set of foreign currencies in use.
    pub open spec fn currency_set(&self) -> Set<CurrencyCode> {
        currency_set_of(self.all_used_foreign_currencies@)
    }

    /// The role of each account, by id.
    pub open spec fn accounts_map(&self) -> Map<Seq<char>, AccountData> {
        account_map_of(self.account_id_data@)
    }

    /// The difference account of each key, by id.
    pub open spec fn diff_map(&self) -> Map<DifferenceKey, Seq<char>> {
        diff_map_of(self.difference_account_ids@)
    }

    /// Structural soundness: well-formed keys and codes, no id or key
    /// twice, and every foreign account's key has a difference account.
    pub open spec fn wf(&self) -> bool {
        &&& forall|j: int|
            0 <= j < self.account_id_data@.len() ==> account_data_wf(
                #[trigger] self.account_id_data@[j].1,
            )
        &&& forall|j: int|
            0 <= j < self.difference_account_ids@.len() ==> (
            #[trigger] self.difference_account_ids@[j].0).wf()
        &&& forall|j: int|
            0 <= j < self.all_used_foreign_currencies@.len() ==> (
            #[trigger] self.all_used_foreign_currencies@[j]).wf()
        &&& unique_account_ids(self.account_id_data@)
        &&& forall|id: Seq<char>|
            #[trigger] self.accounts_map().contains_key(id) ==> match self.accounts_map()[id] {
                AccountData::Foreign { difference_key } => self.diff_map().contains_key(
                    difference_key,
                ),
                _ => true,
            }
    }

    /// The role of an account, when the registry knows the id.
    pub fn get_account_data(&self, account_id: &YnabAccountId) -> (r: Option<&AccountData>)
        ensures
            r is Some <==> self.accounts_map().contains_key(account_id@),
            r is Some ==> *r->0 == self.accounts_map()[account_id@],
            r is Some && self.wf() ==> account_data_wf(*r->0),
    {
        proof {
            assert(self.account_id_data@.take(self.account_id_data@.len() as int)
                =~= self.account_id_data@);
        }
        match find_account_data(&self.account_id_data, account_id, self.account_id_data.len()) {
            Some(j) => Some(&self.account_id_data[j].1),
            None => None,
        }
    }

    /// The difference account registered for a key.
    pub fn get_difference_account_id(&self, difference_key: DifferenceKey) -> (r: Option<
        &YnabAccountId,
    >)
        ensures
            r is Some <==> self.diff_map().contains_key(difference_key),
            r is Some ==> r->0@ == self.diff_map()[difference_key],
    {
        proof {
            assert(self.difference_account_ids@.take(self.difference_account_ids@.len() as int)
                =~= self.difference_account_ids@);
        }
        match find_diff_account(
            &self.difference_account_ids,
            difference_key,
            self.difference_account_ids.len(),
        ) {
            Some(j) => Some(&self.difference_account_ids[j].1),
            None => None,
        }
    }

    /// All foreign currencies in use, each once.
    pub fn get_all_used_foreign_currencies(&self) -> (r: &Vec<CurrencyCode>)
        ensures
            r@ == self.all_used_foreign_currencies@,
            currency_set_of(r@) == self.currency_set(),
    {
        &self.all_used_foreign_currencies
    }
}

/// The running totals of one difference key: the sum of its foreign
/// accounts' balances and the balance of its difference account.
#[derive(Clone, Copy, Debug, PartialEq, Eq, Structural)]
pub struct ForeignTotalAndDifferenceBalance {
    pub foreign_accounts_total: Milliunits,
    pub difference_account_balance: Milliunits,
}

impl View for ForeignTotalAndDifferenceBalance {
    type V = (int, int);

    open spec fn view(&self) -> (int, int) {
        (self.foreign_accounts_total@, self.difference_account_balance@)
    }
}

/// The map denoted by a balance list.
pub open spec fn bal_map_of(
    s: Seq<(DifferenceKey, ForeignTotalAndDifferenceBalance)>,
) -> Map<DifferenceKey, (int, int)>
    decreases s.len(),
{
    if s.len() == 0 {
        Map::empty()
    } else {
        bal_map_of(s.drop_last()).insert(s.last().0, s.last().1@)
    }
}

/// The balance list has no key twice.
pub open spec fn unique_bal_keys(s: Seq<(DifferenceKey, ForeignTotalAndDifferenceBalance)>) -> bool {
    forall|j1: int, j2: int| 0 <= j1 < j2 < s.len() ==> s[j1].0 != s[j2].0
}

/// A key occurs in the balance list exactly when the denoted map knows it.
pub proof fn lemma_bal_map_domain(
    s: Seq<(DifferenceKey, ForeignTotalAndDifferenceBalance)>,
    key: DifferenceKey,
)
    ensures
        bal_map_of(s).contains_key(key) <==> exists|j: int| 0 <= j < s.len() && s[j].0 == key,
    decreases s.len(),
{
    if s.len() > 0 {
        lemma_bal_map_domain(s.drop_last(), key);
        if s.last().0 == key {
            assert(s[s.len() - 1].0 == key);
        } else {
            assert(forall|j: int|
                0 <= j < s.len() - 1 ==> s.drop_last()[j] == s[j]);
        }
    }
}

/// Under unique keys, every balance entry is what the map holds for its key.
pub proof fn lemma_bal_map_value(
    s: Seq<(DifferenceKey, ForeignTotalAndDifferenceBalance)>,
    j: int,
)
    requires
        unique_bal_keys(s),
        0 <= j < s.len(),
    ensures
        bal_map_of(s).contains_key(s[j].0),
        bal_map_of(s)[s[j].0] == s[j].1@,
    decreases s.len(),
{
    if j == s.len() - 1 {
    } else {
        assert(forall|j1: int, j2: int|
            0 <= j1 < j2 < s.len() - 1 ==> s.drop_last()[j1].0 != s.drop_last()[j2].0);
        lemma_bal_map_value(s.drop_last(), j);
        assert(s.drop_last()[j] == s[j]);
        assert(s[j].0 != s.last().0);
    }
}

/// Under unique keys, replacing one entry's totals is an insert on the map.
pub proof fn lemma_bal_map_set(
    s: Seq<(DifferenceKey, ForeignTotalAndDifferenceBalance)>,
    j: int,
    v: ForeignTotalAndDifferenceBalance,
)
    requires
        unique_bal_keys(s),
        0 <= j < s.len(),
    ensures
        bal_map_of(s.update(j, (s[j].0, v))) == bal_map_of(s).insert(s[j].0, v@),
        unique_bal_keys(s.update(j, (s[j].0, v))),
    decreases s.len(),
{
    let t = s.update(j, (s[j].0, v));
    assert(forall|j1: int| 0 <= j1 < s.len() && j1 != j ==> t[j1] == s[j1]);
    if j == s.len() - 1 {
        assert(t.drop_last() =~= s.drop_last());
        assert(t.last() == (s[j].0, v));
        assert(bal_map_of(t) =~= bal_map_of(s).insert(s[j].0, v@));
    } else {
        assert(forall|j1: int, j2: int|
            0 <= j1 < j2 < s.len() - 1 ==> s.drop_last()[j1].0 != s.drop_last()[j2].0);
        lemma_bal_map_set(s.drop_last(), j, v);
        assert(t.drop_last() =~= s.drop_last().update(j, (s[j].0, v)));
        assert(t.last() == s.last());
        assert(s[j].0 != s.last().0);
        assert(bal_map_of(t) =~= bal_map_of(s).insert(s[j].0, v@));
    }
}

/// Searches the balance list backwards for a key.
fn find_balance(
    v: &Vec<(DifferenceKey, ForeignTotalAndDifferenceBalance)>,
    key: DifferenceKey,
    i: usize,
) -> (r: Option<usize>)
    requires
        i <= v@.len(),
    ensures
        match r {
            Option::Some(j) => j < i && v@[j as int].0 == key && bal_map_of(
                v@.take(i as int),
            ).contains_key(key) && bal_map_of(v@.take(i as int))[key] == v@[j as int].1@,
            Option::None => !bal_map_of(v@.take(i as int)).contains_key(key),
        },
    decreases i,
{
    if i == 0 {
        None
    } else {
        proof {
            assert(v@.take(i as int).drop_last() =~= v@.take(i as int - 1));
            assert(v@.take(i as int).last() == v@[i as int - 1]);
        }
        if v[i - 1].0 == key {
            Some(i - 1)
        } else {
            find_balance(v, key, i - 1)
        }
    }
}

/// How classification of the whole account set fails.
#[derive(Clone, Copy, Debug, PartialEq, Eq, Structural)]
pub enum ClassifyError {
    /// Classifying the account at this position of the input failed.
    AccountTag { index: usize, error: AccountTagError },
    /// A second difference account claimed an already-taken key.
    DuplicateDifferenceAccount { index: usize, key: DifferenceKey },
    /// The same account id occurred twice.
    DuplicateAccount { index: usize },
    /// No foreign-currency account was found at all.
    NoForeignAccounts,
    /// A foreign account's key has no difference account.
    MissingDifferenceAccount { key: DifferenceKey },
    /// Seeding the balances left the representable range.
    BalanceOverflow,
}

/// The state grown by classifying accounts one by one.
#[verifier::ext_equal]
pub ghost struct ClassifyState {
    pub currencies: Set<CurrencyCode>,
    pub accounts: Map<Seq<char>, AccountData>,
    pub diff_ids: Map<DifferenceKey, Seq<char>>,
}

pub open spec fn classify_empty_state() -> ClassifyState {
    ClassifyState { currencies: Set::empty(), accounts: Map::empty(), diff_ids: Map::empty() }
}

/// Folds one account into the state; deleted and closed accounts are
/// skipped.  A second difference account for a key and a repeated account
/// id are errors, in this order.
pub open spec fn spec_classify_step(
    st: ClassifyState,
    local: CurrencyCode,
    a: AccountInput,
    index: usize,
) -> Result<ClassifyState, ClassifyError> {
    if a.deleted || a.closed {
        Ok(st)
    } else {
        match spec_classify_account(local, a) {
            Err(e) => Err(ClassifyError::AccountTag { index, error: e }),
            Ok(data) => match data {
                AccountData::Difference { difference_key } => if st.diff_ids.contains_key(
                    difference_key,
                ) {
                    Err(ClassifyError::DuplicateDifferenceAccount { index, key: difference_key })
                } else if st.accounts.contains_key(a.id@) {
                    Err(ClassifyError::DuplicateAccount { index })
                } else {
                    Ok(
                        ClassifyState {
                            currencies: st.currencies,
                            accounts: st.accounts.insert(a.id@, data),
                            diff_ids: st.diff_ids.insert(difference_key, a.id@),
                        },
                    )
                },
                AccountData::Foreign { difference_key } => if st.accounts.contains_key(a.id@) {
                    Err(ClassifyError::DuplicateAccount { index })
                } else {
                    Ok(
                        ClassifyState {
                            currencies: st.currencies.insert(difference_key.currency),
                            accounts: st.accounts.insert(a.id@, data),
                            diff_ids: st.diff_ids,
                        },
                    )
                },
                AccountData::Local { .. } => if st.accounts.contains_key(a.id@) {
                    Err(ClassifyError::DuplicateAccount { index })
                } else {
                    Ok(
                        ClassifyState {
                            currencies: st.currencies,
                            accounts: st.accounts.insert(a.id@, data),
                            diff_ids: st.diff_ids,
                        },
                    )
                },
            },
        }
    }
}

/// The state after classifying the first `n` accounts.
pub open spec fn spec_classify_upto(
    accounts: Seq<AccountInput>,
    local: CurrencyCode,
    n: int,
) -> Result<ClassifyState, ClassifyError>
    decreases n,
{
    if n <= 0 {
        Ok(classify_empty_state())
    } else {
        match spec_classify_upto(accounts, local, n - 1) {
            Err(e) => Err(e),
            Ok(st) => spec_classify_step(st, local, accounts[n - 1], (n - 1) as usize),
        }
    }
}

/// Every foreign account's key has a difference account.
pub open spec fn spec_registry_covered(st: ClassifyState) -> bool {
    forall|id: Seq<char>|
        #[trigger] st.accounts.contains_key(id) ==> match st.accounts[id] {
            AccountData::Foreign { difference_key } => st.diff_ids.contains_key(difference_key),
            _ => true,
        }
}

/// `key` is the key of some foreign account and has no difference account.
pub open spec fn spec_uncovered_key(st: ClassifyState, key: DifferenceKey) -> bool {
    exists|id: Seq<char>|
        #[trigger] st.accounts.contains_key(id) && st.accounts[id] == (AccountData::Foreign {
            difference_key: key,
        }) && !st.diff_ids.contains_key(key)
}

/// Classifies the whole account set: the fold over all accounts, then the
/// two whole-registry checks, in this order: at least one foreign account
/// exists, and every foreign key has its difference account.
pub open spec fn spec_classify(accounts: Seq<AccountInput>, local: CurrencyCode) -> Result<
    ClassifyState,
    ClassifyError,
> {
    match spec_classify_upto(accounts, local, accounts.len() as int) {
        Err(e) => Err(e),
        Ok(st) => if forall|c: CurrencyCode| !st.currencies.contains(c) {
            Err(ClassifyError::NoForeignAccounts)
        } else if !spec_registry_covered(st) {
            Err(
                ClassifyError::MissingDifferenceAccount {
                    key: choose|k: DifferenceKey| spec_uncovered_key(st, k),
                },
            )
        } else {
            Ok(st)
        },
    }
}

/// A failed prefix stays failed, with the same error.
pub proof fn lemma_classify_stops(
    accounts: Seq<AccountInput>,
    local: CurrencyCode,
    n1: int,
    n2: int,
)
    requires
        0 <= n1 <= n2,
        spec_classify_upto(accounts, local, n1) is Err,
    ensures
        spec_classify_upto(accounts, local, n2) == spec_classify_upto(accounts, local, n1),
    decreases n2,
{
    if n2 > n1 {
        lemma_classify_stops(accounts, local, n1, n2 - 1);
    }
}

/// Every registered account is witnessed by an open account of the input
/// that classified to exactly the registered role.
pub proof fn lemma_classify_witness(accounts: Seq<AccountInput>, local: CurrencyCode, n: int)
    requires
        0 <= n <= accounts.len(),
        spec_classify_upto(accounts, local, n) is Ok,
    ensures
        forall|id: Seq<char>|
            #[trigger] spec_classify_upto(accounts, local, n)->Ok_0.accounts.contains_key(id)
                ==> exists|i: int|
                0 <= i < n && accounts[i].id@ == id && !accounts[i].deleted && !accounts[i].closed
                    && spec_classify_account(local, accounts[i]) == Ok::<
                    AccountData,
                    AccountTagError,
                >(spec_classify_upto(accounts, local, n)->Ok_0.accounts[id]),
    decreases n,
{
    if n > 0 {
        lemma_classify_witness(accounts, local, n - 1);
        let st0 = spec_classify_upto(accounts, local, n - 1)->Ok_0;
        let stn = spec_classify_upto(accounts, local, n)->Ok_0;
        let a = accounts[n - 1];
        assert forall|id: Seq<char>| #[trigger] stn.accounts.contains_key(id) implies exists|
            i: int,
        |
            0 <= i < n && accounts[i].id@ == id && !accounts[i].deleted && !accounts[i].closed
                && spec_classify_account(local, accounts[i]) == Ok::<AccountData, AccountTagError>(
                stn.accounts[id],
            ) by {
            if !a.deleted && !a.closed && id == a.id@ && !st0.accounts.contains_key(id) {
                let i = n - 1;
                assert(0 <= i < n && accounts[i].id@ == id && !accounts[i].deleted
                    && !accounts[i].closed && spec_classify_account(local, accounts[i]) == Ok::<
                    AccountData,
                    AccountTagError,
                >(stn.accounts[id]));
            } else {
                assert(st0.accounts.contains_key(id) && st0.accounts[id] == stn.accounts[id]);
                let i = choose|i: int|
                    0 <= i < n - 1 && accounts[i].id@ == id && !accounts[i].deleted
                        && !accounts[i].closed && spec_classify_account(local, accounts[i]) == Ok::<
                        AccountData,
                        AccountTagError,
                    >(st0.accounts[id]);
                assert(0 <= i < n && accounts[i].id@ == id && !accounts[i].deleted
                    && !accounts[i].closed && spec_classify_account(local, accounts[i]) == Ok::<
                    AccountData,
                    AccountTagError,
                >(stn.accounts[id]));
            }
        }
    }
}

/// Folds one account's balance into the per-key totals: a foreign
/// account's balance joins its key's foreign total, a difference account's
/// balance joins its key's difference balance.  `None` when a sum leaves
/// the representable range.
pub open spec fn spec_seed_step(
    m: Map<DifferenceKey, (int, int)>,
    dmap: Map<Seq<char>, AccountData>,
    a: AccountInput,
) -> Option<Map<DifferenceKey, (int, int)>> {
    if !dmap.contains_key(a.id@) {
        Some(m)
    } else {
        match dmap[a.id@] {
            AccountData::Local { .. } => Some(m),
            AccountData::Foreign { difference_key } => {
                let cur = if m.contains_key(difference_key) {
                    m[difference_key]
                } else {
                    (0int, 0int)
                };
                let nt = cur.0 + a.balance;
                if i64::MIN <= nt <= i64::MAX {
                    Some(m.insert(difference_key, (nt, cur.1)))
                } else {
                    None
                }
            },
            AccountData::Difference { difference_key } => {
                let cur = if m.contains_key(difference_key) {
                    m[difference_key]
                } else {
                    (0int, 0int)
                };
                let nd = cur.1 + a.balance;
                if i64::MIN <= nd <= i64::MAX {
                    Some(m.insert(difference_key, (cur.0, nd)))
                } else {
                    None
                }
            },
        }
    }
}

/// The totals after the first `n` accounts.
pub open spec fn spec_seed_upto(
    accounts: Seq<AccountInput>,
    dmap: Map<Seq<char>, AccountData>,
    n: int,
) -> Option<Map<DifferenceKey, (int, int)>>
    decreases n,
{
    if n <= 0 {
        Some(Map::empty())
    } else {
        match spec_seed_upto(accounts, dmap, n - 1) {
            Option::None => Option::None,
            Option::Some(m) => spec_seed_step(m, dmap, accounts[n - 1]),
        }
    }
}

/// The totals seeded from all accounts' current balances.
pub open spec fn spec_seed_balances(
    accounts: Seq<AccountInput>,
    dmap: Map<Seq<char>, AccountData>,
) -> Option<Map<DifferenceKey, (int, int)>> {
    spec_seed_upto(accounts, dmap, accounts.len() as int)
}

/// A failed seeding stays failed.
pub proof fn lemma_seed_stops(
    accounts: Seq<AccountInput>,
    dmap: Map<Seq<char>, AccountData>,
    n1: int,
    n2: int,
)
    requires
        0 <= n1 <= n2,
        spec_seed_upto(accounts, dmap, n1) is None,
    ensures
        spec_seed_upto(accounts, dmap, n2) is None,
    decreases n2,
{
    if n2 > n1 {
        lemma_seed_stops(accounts, dmap, n1, n2 - 1);
    }
}

/// Every registered foreign or difference account's key is in the seeded
/// totals.
pub proof fn lemma_seed_covers(
    accounts: Seq<AccountInput>,
    dmap: Map<Seq<char>, AccountData>,
    n: int,
)
    requires
        0 <= n <= accounts.len(),
        spec_seed_upto(accounts, dmap, n) is Some,
    ensures
        forall|i: int|
            0 <= i < n && dmap.contains_key(#[trigger] accounts[i].id@) ==> match dmap[accounts[i].id@] {
                AccountData::Foreign { difference_key } => spec_seed_upto(
                    accounts,
                    dmap,
                    n,
                )->0.contains_key(difference_key),
                AccountData::Difference { difference_key } => spec_seed_upto(
                    accounts,
                    dmap,
                    n,
                )->0.contains_key(difference_key),
                _ => true,
            },
    decreases n,
{
    if n > 0 {
        lemma_seed_covers(accounts, dmap, n - 1);
        let m0 = spec_seed_upto(accounts, dmap, n - 1)->0;
        let mn = spec_seed_upto(accounts, dmap, n)->0;
        assert(forall|k: DifferenceKey|
            m0.contains_key(k) ==> #[trigger] mn.contains_key(k));
    }
}

/// The balance update applied per processed transaction: the key's
/// difference balance moves by `delta`; for a transfer counterpart the
/// other key's foreign total moves by the negation.  `None` when a sum
/// leaves the representable range.
pub open spec fn spec_bal_update(
    m: Map<DifferenceKey, (int, int)>,
    key: DifferenceKey,
    transfer_key: Option<DifferenceKey>,
    delta: int,
) -> Option<Map<DifferenceKey, (int, int)>>
    recommends
        m.contains_key(key),
        transfer_key matches Some(t) ==> m.contains_key(t),
{
    let e = m[key];
    let nd = e.1 + delta;
    if !(i64::MIN <= nd <= i64::MAX) {
        Option::None
    } else {
        let m1 = m.insert(key, (e.0, nd));
        match transfer_key {
            Option::None => Option::Some(m1),
            Option::Some(t) => {
                let e2 = m1[t];
                let nf = e2.0 - delta;
                if !(i64::MIN <= nf <= i64::MAX) {
                    Option::None
                } else {
                    Option::Some(m1.insert(t, (nf, e2.1)))
                }
            },
        }
    }
}

/// The error of a balance mutation: a running total left the representable
/// range.
#[derive(Clone, Copy, Debug, PartialEq, Eq, Structural)]
pub enum BalanceUpdateError {
    Overflow,
}

/// The per-key running totals of the batch, seeded from current account
/// balances and mutated by every processed transaction.
#[derive(Debug)]
pub struct DifferenceBalances {
    pub balances: Vec<(DifferenceKey, ForeignTotalAndDifferenceBalance)>,
}

impl DifferenceBalances {
    /// The totals by key.
    pub open spec fn map_view(&self) -> Map<DifferenceKey, (int, int)> {
        bal_map_of(self.balances@)
    }

    /// No key twice, every key well-formed.
    pub open spec fn wf(&self) -> bool {
        &&& unique_bal_keys(self.balances@)
        &&& forall|j: int|
            0 <= j < self.balances@.len() ==> (#[trigger] self.balances@[j].0).wf()
    }

    /// Seeds the totals from the accounts' current balances, under the
    /// given classification.
    pub fn new(
        raw_accounts: &Vec<AccountInput>,
        account_id_data: &Vec<(YnabAccountId, AccountData)>,
    ) -> (r: Result<DifferenceBalances, ClassifyError>)
        requires
            forall|j: int|
                0 <= j < account_id_data@.len() ==> account_data_wf(
                    #[trigger] account_id_data@[j].1,
                ),
        ensures
            r is Ok <==> spec_seed_balances(raw_accounts@, account_map_of(account_id_data@))
                is Some,
            r matches Ok(db) ==> db.map_view() == spec_seed_balances(
                raw_accounts@,
                account_map_of(account_id_data@),
            )->0 && db.wf(),
            r matches Err(e) ==> e == ClassifyError::BalanceOverflow,
    {
        let ghost dmap = account_map_of(account_id_data@);
        let mut balances: Vec<(DifferenceKey, ForeignTotalAndDifferenceBalance)> = Vec::new();
        let mut i: usize = 0;
        while i < raw_accounts.len()
            invariant
                i <= raw_accounts@.len(),
                dmap == account_map_of(account_id_data@),
                forall|j: int|
                    0 <= j < account_id_data@.len() ==> account_data_wf(
                        #[trigger] account_id_data@[j].1,
                    ),
                spec_seed_upto(raw_accounts@, dmap, i as int) is Some,
                spec_seed_upto(raw_accounts@, dmap, i as int)->0 == bal_map_of(balances@),
                unique_bal_keys(balances@),
                forall|j: int|
                    0 <= j < balances@.len() ==> (#[trigger] balances@[j].0).wf(),
            decreases raw_accounts@.len() - i,
        {
            let ghost m_pre = bal_map_of(balances@);
            let a = &raw_accounts[i];
            proof {
                assert(account_id_data@.take(account_id_data@.len() as int) =~= account_id_data@);
            }
            match find_account_data(account_id_data, &a.id, account_id_data.len()) {
                None => {},
                Some(j) => {
                    let entry_data = account_id_data[j].1;
                    match entry_data {
                        AccountData::Local { .. } => {},
                        AccountData::Foreign { difference_key } => {
                            match find_balance(&balances, difference_key, balances.len()) {
                                Some(b) => {
                                    proof {
                                        assert(balances@.take(balances@.len() as int)
                                            =~= balances@);
                                    }
                                    let cur = balances[b].1;
                                    match cur.foreign_accounts_total.checked_add(
                                        Milliunits::from_scaled_i64(a.balance),
                                    ) {
                                        Some(nt) => {
                                            let nv = ForeignTotalAndDifferenceBalance {
                                                foreign_accounts_total: nt,
                                                difference_account_balance:
                                                    cur.difference_account_balance,
                                            };
                                            proof {
                                                lemma_bal_map_set(balances@, b as int, nv);
                                            }
                                            balances[b] = (difference_key, nv);
                                        },
                                        None => {
                                            proof {
                                                lemma_seed_stops(
                                                    raw_accounts@,
                                                    dmap,
                                                    i as int + 1,
                                                    raw_accounts@.len() as int,
                                                );
                                            }
                                            return Err(ClassifyError::BalanceOverflow);
                                        },
                                    }
                                },
                                None => {
                                    proof {
                                        assert(balances@.take(balances@.len() as int)
                                            =~= balances@);
                                        lemma_bal_map_domain(balances@, difference_key);
                                    }
                                    let nv = ForeignTotalAndDifferenceBalance {
                                        foreign_accounts_total: Milliunits::from_scaled_i64(
                                            a.balance,
                                        ),
                                        difference_account_balance: Milliunits::zero(),
                                    };
                                    let ghost pre = balances@;
                                    balances.push((difference_key, nv));
                                    proof {
                                        assert(balances@.drop_last() =~= pre);
                                        assert(bal_map_of(balances@) =~= m_pre.insert(
                                            difference_key,
                                            (a.balance as int, 0int),
                                        ));
                                    }
                                },
                            }
                        },
                        AccountData::Difference { difference_key } => {
                            match find_balance(&balances, difference_key, balances.len()) {
                                Some(b) => {
                                    proof {
                                        assert(balances@.take(balances@.len() as int)
                                            =~= balances@);
                                    }
                                    let cur = balances[b].1;
                                    match cur.difference_account_balance.checked_add(
                                        Milliunits::from_scaled_i64(a.balance),
                                    ) {
                                        Some(nd) => {
                                            let nv = ForeignTotalAndDifferenceBalance {
                                                foreign_accounts_total: cur.foreign_accounts_total,
                                                difference_account_balance: nd,
                                            };
                                            proof {
                                                lemma_bal_map_set(balances@, b as int, nv);
                                            }
                                            balances[b] = (difference_key, nv);
                                        },
                                        None => {
                                            proof {
                                                lemma_seed_stops(
                                                    raw_accounts@,
                                                    dmap,
                                                    i as int + 1,
                                                    raw_accounts@.len() as int,
                                                );
                                            }
                                            return Err(ClassifyError::BalanceOverflow);
                                        },
                                    }
                                },
                                None => {
                                    proof {
                                        assert(balances@.take(balances@.len() as int)
                                            =~= balances@);
                                        lemma_bal_map_domain(balances@, difference_key);
                                    }
                                    let nv = ForeignTotalAndDifferenceBalance {
                                        foreign_accounts_total: Milliunits::zero(),
                                        difference_account_balance: Milliunits::from_scaled_i64(
                                            a.balance,
                                        ),
                                    };
                                    let ghost pre = balances@;
                                    balances.push((difference_key, nv));
                                    proof {
                                        assert(balances@.drop_last() =~= pre);
                                        assert(bal_map_of(balances@) =~= m_pre.insert(
                                            difference_key,
                                            (0int, a.balance as int),
                                        ));
                                    }
                                },
                            }
                        },
                    }
                },
            }
            proof {
                assert(spec_seed_upto(raw_accounts@, dmap, i as int + 1)
                    matches Some(m) && m =~= bal_map_of(balances@));
            }
            i = i + 1;
        }
        proof {
            assert(spec_seed_upto(raw_accounts@, dmap, raw_accounts@.len() as int)->0
                == bal_map_of(balances@));
        }
        Ok(DifferenceBalances { balances })
    }

    /// Applies a processed transaction's delta.  The keys must be known;
    /// fails, changing nothing, when a total would leave the representable
    /// range.
    pub fn update(
        &mut self,
        difference_key: DifferenceKey,
        transfer_difference_key: Option<DifferenceKey>,
        delta_amount: Milliunits,
    ) -> (r: Result<(), BalanceUpdateError>)
        requires
            old(self).wf(),
            old(self).map_view().contains_key(difference_key),
            transfer_difference_key matches Some(t) ==> old(self).map_view().contains_key(t),
        ensures
            final(self).wf(),
            r is Ok <==> spec_bal_update(
                old(self).map_view(),
                difference_key,
                transfer_difference_key,
                delta_amount@,
            ) is Some,
            r is Ok ==> final(self).map_view() == spec_bal_update(
                old(self).map_view(),
                difference_key,
                transfer_difference_key,
                delta_amount@,
            )->0,
            r is Err ==> final(self).balances@ == old(self).balances@,
    {
        proof {
            assert(self.balances@.take(self.balances@.len() as int) =~= self.balances@);
            lemma_bal_map_domain(self.balances@, difference_key);
        }
        let ghost m0 = self.map_view();
        let i1 = match find_balance(&self.balances, difference_key, self.balances.len()) {
            Some(i1) => i1,
            None => {
                return Err(BalanceUpdateError::Overflow);  // unreachable under the precondition
            },
        };
        proof {
            lemma_bal_map_value(self.balances@, i1 as int);
        }
        let e1 = self.balances[i1].1;
        let nd = match e1.difference_account_balance.checked_add(delta_amount) {
            Some(nd) => nd,
            None => {
                return Err(BalanceUpdateError::Overflow);
            },
        };
        let ghost m1 = m0.insert(difference_key, (m0[difference_key].0, m0[difference_key].1 + delta_amount@));
        match transfer_difference_key {
            None => {
                let nv = ForeignTotalAndDifferenceBalance {
                    foreign_accounts_total: e1.foreign_accounts_total,
                    difference_account_balance: nd,
                };
                proof {
                    lemma_bal_map_set(self.balances@, i1 as int, nv);
                    assert(m0.insert(difference_key, nv@) =~= m1);
                }
                self.balances[i1] = (difference_key, nv);
                Ok(())
            },
            Some(t) => {
                proof {
                    lemma_bal_map_domain(self.balances@, t);
                }
                let i2 = match find_balance(&self.balances, t, self.balances.len()) {
                    Some(i2) => i2,
                    None => {
                        return Err(BalanceUpdateError::Overflow);  // unreachable under the precondition
                    },
                };
                proof {
                    lemma_bal_map_value(self.balances@, i2 as int);
                    if t == difference_key {
                        assert(i1 == i2) by {
                            if i1 < i2 {
                                assert(self.balances@[i1 as int].0 != self.balances@[
                                    i2 as int].0);
                            } else if i2 < i1 {
                                assert(self.balances@[i2 as int].0 != self.balances@[
                                    i1 as int].0);
                            }
                        }
                    }
                    assert(self.balances@[i2 as int].1.foreign_accounts_total@ == m1[t].0);
                }
                let e2 = self.balances[i2].1;
                let nf = match e2.foreign_accounts_total.checked_sub(delta_amount) {
                    Some(nf) => nf,
                    None => {
                        return Err(BalanceUpdateError::Overflow);
                    },
                };
                let nv1 = ForeignTotalAndDifferenceBalance {
                    foreign_accounts_total: e1.foreign_accounts_total,
                    difference_account_balance: nd,
                };
                proof {
                    lemma_bal_map_set(self.balances@, i1 as int, nv1);
                    assert(m0.insert(difference_key, nv1@) =~= m1);
                }
                self.balances[i1] = (difference_key, nv1);
                proof {
                    assert(bal_map_of(self.balances@) == m1);
                    assert(self.balances@[i2 as int].0 == t);
                    assert(self.balances@[i2 as int].1.difference_account_balance@ == m1[t].1);
                }
                let cur2 = self.balances[i2].1;
                let nv2 = ForeignTotalAndDifferenceBalance {
                    foreign_accounts_total: nf,
                    difference_account_balance: cur2.difference_account_balance,
                };
                proof {
                    lemma_bal_map_set(self.balances@, i2 as int, nv2);
                }
                self.balances[i2] = (t, nv2);
                proof {
                    assert(bal_map_of(self.balances@) =~= spec_bal_update(
                        m0,
                        difference_key,
                        transfer_difference_key,
                        delta_amount@,
                    )->0);
                }
                Ok(())
            },
        }
    }

    /// The balance entries, each key once.
    pub fn iter(&self) -> (r: Vec<(DifferenceKey, ForeignTotalAndDifferenceBalance)>)
        ensures
            r@ == self.balances@,
    {
        let mut r: Vec<(DifferenceKey, ForeignTotalAndDifferenceBalance)> = Vec::new();
        let mut i: usize = 0;
        while i < self.balances.len()
            invariant
                i <= self.balances@.len(),
                r@ == self.balances@.take(i as int),
            decreases self.balances@.len() - i,
        {
            let ghost pre = r@;
            r.push(self.balances[i]);
            proof {
                assert(r@ =~= self.balances@.take(i as int + 1));
            }
            i = i + 1;
        }
        proof {
            assert(self.balances@.take(self.balances@.len() as int) =~= self.balances@);
        }
        r
    }
}

/// Every registered foreign or difference account's key has an entry in
/// the balance ledger.
pub open spec fn balances_cover_registry(fa: &ForeignAccounts, db: &DifferenceBalances) -> bool {
    forall|id: Seq<char>|
        #[trigger] fa.accounts_map().contains_key(id) ==> match fa.accounts_map()[id] {
            AccountData::Foreign { difference_key } => db.map_view().contains_key(difference_key),
            AccountData::Difference { difference_key } => db.map_view().contains_key(
                difference_key,
            ),
            _ => true,
        }
}

impl ForeignAccounts {
    /// Classifies the accounts of the budget and seeds the balance ledger.
    ///
    /// Succeeds exactly when classification of every open account succeeds,
    /// the whole-registry checks pass, and seeding stays in range; the
    /// registry and ledger then carry exactly the classified state.
    pub fn load(accounts: &Vec<AccountInput>, local_currency: CurrencyCode) -> (r: Result<
        (ForeignAccounts, DifferenceBalances),
        ClassifyError,
    >)
        ensures
            r is Ok <==> (spec_classify(accounts@, local_currency) matches Ok(st)
                && spec_seed_balances(accounts@, st.accounts) is Some),
            r matches Ok((fa, db)) ==> {
                &&& spec_classify(accounts@, local_currency) matches Ok(st) && {
                    &&& fa.currency_set() == st.currencies
                    &&& fa.accounts_map() == st.accounts
                    &&& fa.diff_map() == st.diff_ids
                    &&& db.map_view() == spec_seed_balances(accounts@, st.accounts)->0
                }
                &&& fa.wf()
                &&& db.wf()
                &&& balances_cover_registry(&fa, &db)
            },
            r matches Err(e) ==> match spec_classify(accounts@, local_currency) {
                Result::Err(se) => match (e, se) {
                    (
                        ClassifyError::MissingDifferenceAccount { key },
                        ClassifyError::MissingDifferenceAccount { .. },
                    ) => spec_uncovered_key(
                        spec_classify_upto(accounts@, local_currency, accounts@.len() as int)->Ok_0,
                        key,
                    ),
                    _ => e == se,
                },
                Result::Ok(st) => e == ClassifyError::BalanceOverflow && spec_seed_balances(
                    accounts@,
                    st.accounts,
                ) is None,
            },
    {
        let mut currencies: Vec<CurrencyCode> = Vec::new();
        let mut data_vec: Vec<(YnabAccountId, AccountData)> = Vec::new();
        let mut diff_vec: Vec<(DifferenceKey, YnabAccountId)> = Vec::new();
        let mut i: usize = 0;
        while i < accounts.len()
            invariant
                i <= accounts@.len(),
                spec_classify_upto(accounts@, local_currency, i as int) is Ok,
                spec_classify_upto(accounts@, local_currency, i as int)->Ok_0.currencies
                    == currency_set_of(currencies@),
                spec_classify_upto(accounts@, local_currency, i as int)->Ok_0.accounts
                    == account_map_of(data_vec@),
                spec_classify_upto(accounts@, local_currency, i as int)->Ok_0.diff_ids
                    == diff_map_of(diff_vec@),
                unique_account_ids(data_vec@),
                forall|j: int|
                    0 <= j < data_vec@.len() ==> account_data_wf(#[trigger] data_vec@[j].1),
                forall|j: int|
                    0 <= j < diff_vec@.len() ==> (#[trigger] diff_vec@[j].0).wf(),
                forall|j: int|
                    0 <= j < currencies@.len() ==> (#[trigger] currencies@[j]).wf(),
            decreases accounts@.len() - i,
        {
            let ghost st_pre = spec_classify_upto(accounts@, local_currency, i as int)->Ok_0;
            let a = &accounts[i];
            if !a.deleted && !a.closed {
                match classify_account(local_currency, a) {
                    Err(e) => {
                        proof {
                            lemma_classify_stops(
                                accounts@,
                                local_currency,
                                i as int + 1,
                                accounts@.len() as int,
                            );
                        }
                        return Err(ClassifyError::AccountTag { index: i, error: e });
                    },
                    Ok(data) => {
                        match data {
                            AccountData::Difference { difference_key } => {
                                proof {
                                    assert(diff_vec@.take(diff_vec@.len() as int) =~= diff_vec@);
                                }
                                if find_diff_account(
                                    &diff_vec,
                                    difference_key,
                                    diff_vec.len(),
                                ).is_some() {
                                    proof {
                                        lemma_classify_stops(
                                            accounts@,
                                            local_currency,
                                            i as int + 1,
                                            accounts@.len() as int,
                                        );
                                    }
                                    return Err(
                                        ClassifyError::DuplicateDifferenceAccount {
                                            index: i,
                                            key: difference_key,
                                        },
                                    );
                                }
                                proof {
                                    assert(data_vec@.take(data_vec@.len() as int) =~= data_vec@);
                                }
                                if find_account_data(&data_vec, &a.id, data_vec.len()).is_some() {
                                    proof {
                                        lemma_classify_stops(
                                            accounts@,
                                            local_currency,
                                            i as int + 1,
                                            accounts@.len() as int,
                                        );
                                    }
                                    return Err(ClassifyError::DuplicateAccount { index: i });
                                }
                                proof {
                                    lemma_account_map_domain(data_vec@, a.id@);
                                }
                                let ghost pre_data = data_vec@;
                                let ghost pre_diff = diff_vec@;
                                data_vec.push((a.id.clone_id(), data));
                                diff_vec.push((difference_key, a.id.clone_id()));
                                proof {
                                    assert(data_vec@.drop_last() =~= pre_data);
                                    assert(diff_vec@.drop_last() =~= pre_diff);
                                    assert(account_map_of(data_vec@) =~= account_map_of(
                                        pre_data,
                                    ).insert(a.id@, data));
                                    assert(diff_map_of(diff_vec@) =~= diff_map_of(
                                        pre_diff,
                                    ).insert(difference_key, a.id@));
                                }
                            },
                            AccountData::Foreign { difference_key } => {
                                proof {
                                    assert(data_vec@.take(data_vec@.len() as int) =~= data_vec@);
                                }
                                if find_account_data(&data_vec, &a.id, data_vec.len()).is_some() {
                                    proof {
                                        lemma_classify_stops(
                                            accounts@,
                                            local_currency,
                                            i as int + 1,
                                            accounts@.len() as int,
                                        );
                                    }
                                    return Err(ClassifyError::DuplicateAccount { index: i });
                                }
                                proof {
                                    lemma_account_map_domain(data_vec@, a.id@);
                                    assert(currencies@.take(currencies@.len() as int)
                                        =~= currencies@);
                                }
                                let ghost pre_data = data_vec@;
                                let ghost pre_cur = currencies@;
                                data_vec.push((a.id.clone_id(), data));
                                if !contains_currency(&currencies, difference_key.currency,
                                    currencies.len()) {
                                    currencies.push(difference_key.currency);
                                    proof {
                                        assert(currencies@.drop_last() =~= pre_cur);
                                        assert(currency_set_of(currencies@) =~= currency_set_of(
                                            pre_cur,
                                        ).insert(difference_key.currency));
                                    }
                                } else {
                                    proof {
                                        assert(currency_set_of(currencies@)
                                            =~= currency_set_of(pre_cur).insert(
                                            difference_key.currency,
                                        ));
                                    }
                                }
                                proof {
                                    assert(data_vec@.drop_last() =~= pre_data);
                                    assert(account_map_of(data_vec@) =~= account_map_of(
                                        pre_data,
                                    ).insert(a.id@, data));
                                }
                            },
                            AccountData::Local { .. } => {
                                proof {
                                    assert(data_vec@.take(data_vec@.len() as int) =~= data_vec@);
                                }
                                if find_account_data(&data_vec, &a.id, data_vec.len()).is_some() {
                                    proof {
                                        lemma_classify_stops(
                                            accounts@,
                                            local_currency,
                                            i as int + 1,
                                            accounts@.len() as int,
                                        );
                                    }
                                    return Err(ClassifyError::DuplicateAccount { index: i });
                                }
                                proof {
                                    lemma_account_map_domain(data_vec@, a.id@);
                                }
                                let ghost pre_data = data_vec@;
                                data_vec.push((a.id.clone_id(), data));
                                proof {
                                    assert(data_vec@.drop_last() =~= pre_data);
                                    assert(account_map_of(data_vec@) =~= account_map_of(
                                        pre_data,
                                    ).insert(a.id@, data));
                                }
                            },
                        }
                    },
                }
            }
            i = i + 1;
        }
        let ghost st = spec_classify_upto(accounts@, local_currency, accounts@.len() as int)->Ok_0;
        if currencies.len() == 0 {
            proof {
                assert(currencies@ =~= Seq::<CurrencyCode>::empty());
                assert(forall|c: CurrencyCode| !st.currencies.contains(c));
            }
            return Err(ClassifyError::NoForeignAccounts);
        }
        proof {
            assert(currencies@[currencies@.len() - 1] == currencies@.last());
            assert(st.currencies.contains(currencies@.last()));
        }
        // every registered foreign key must have a difference account
        let mut j: usize = 0;
        while j < data_vec.len()
            invariant
                j <= data_vec@.len(),
                spec_classify_upto(accounts@, local_currency, accounts@.len() as int) == Ok::<
                    ClassifyState,
                    ClassifyError,
                >(st),
                exists|c: CurrencyCode| st.currencies.contains(c),
                st.accounts == account_map_of(data_vec@),
                st.diff_ids == diff_map_of(diff_vec@),
                unique_account_ids(data_vec@),
                forall|jj: int|
                    0 <= jj < j ==> match #[trigger] data_vec@[jj].1 {
                        AccountData::Foreign { difference_key } => st.diff_ids.contains_key(
                            difference_key,
                        ),
                        _ => true,
                    },
            decreases data_vec@.len() - j,
        {
            match data_vec[j].1 {
                AccountData::Foreign { difference_key } => {
                    proof {
                        assert(diff_vec@.take(diff_vec@.len() as int) =~= diff_vec@);
                    }
                    if find_diff_account(&diff_vec, difference_key, diff_vec.len()).is_none() {
                        proof {
                            lemma_account_map_value(data_vec@, j as int);
                            assert(spec_uncovered_key(st, difference_key));
                        }
                        return Err(
                            ClassifyError::MissingDifferenceAccount { key: difference_key },
                        );
                    }
                },
                _ => {},
            }
            j = j + 1;
        }
        proof {
            assert forall|id: Seq<char>| #[trigger] st.accounts.contains_key(id) implies match st
                .accounts[id] {
                AccountData::Foreign { difference_key } => st.diff_ids.contains_key(
                    difference_key,
                ),
                _ => true,
            } by {
                lemma_account_map_domain(data_vec@, id);
                let jj = choose|jj: int| 0 <= jj < data_vec@.len() && data_vec@[jj].0@ == id;
                lemma_account_map_value(data_vec@, jj);
            }
            assert(spec_registry_covered(st));
        }
        let balances = match DifferenceBalances::new(accounts, &data_vec) {
            Ok(b) => b,
            Err(e) => {
                return Err(e);
            },
        };
        let fa = ForeignAccounts {
            all_used_foreign_currencies: currencies,
            account_id_data: data_vec,
            difference_account_ids: diff_vec,
        };
        proof {
            lemma_classify_witness(accounts@, local_currency, accounts@.len() as int);
            lemma_seed_covers(accounts@, st.accounts, accounts@.len() as int);
            assert forall|id: Seq<char>| #[trigger] fa.accounts_map().contains_key(id)
                implies match fa.accounts_map()[id] {
                AccountData::Foreign { difference_key } => balances.map_view().contains_key(
                    difference_key,
                ),
                AccountData::Difference { difference_key } => balances.map_view().contains_key(
                    difference_key,
                ),
                _ => true,
            } by {
                let w = choose|w: int|
                    0 <= w < accounts@.len() && accounts@[w].id@ == id && !accounts@[w].deleted
                        && !accounts@[w].closed && spec_classify_account(
                        local_currency,
                        accounts@[w],
                    ) == Ok::<AccountData, AccountTagError>(st.accounts[id]);
                assert(st.accounts.contains_key(accounts@[w].id@));
            }
        }
        Ok((fa, balances))
    }
}

/// Classification totality: whenever classification succeeds, every
/// foreign account's difference key has exactly one registered difference
/// account (the registry maps each key to a single id), and at least one
/// foreign currency is in use.  Any violated invariant makes
/// `spec_classify` an error instead, so no intents are ever computed from
/// an unsound registry.
pub proof fn lemma_classification_totality(accounts: Seq<AccountInput>, local: CurrencyCode)
    requires
        spec_classify(accounts, local) is Ok,
    ensures
        spec_registry_covered(spec_classify(accounts, local)->Ok_0),
        exists|c: CurrencyCode| spec_classify(accounts, local)->Ok_0.currencies.contains(c),
{
    let st = spec_classify(accounts, local)->Ok_0;
    assert(!(forall|c: CurrencyCode| !st.currencies.contains(c)));
}

} // verus!
