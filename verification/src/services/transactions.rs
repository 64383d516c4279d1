//! Transaction domain data: accounts, categories, ledger transactions,
//! and the direction a transaction moves an account balance. Amounts are
//! integer cents.

use vstd::prelude::*;

verus! {

/// An account as shown to callers.
#[derive(Debug, Clone)]
pub struct AccountDto {
    pub id: String,
    pub name: String,
    pub account_type: String,
    pub currency: String,
    pub balance_cents: i64,
    pub available_balance_cents: Option<i64>,
    pub color_token: Option<String>,
}

/// A category as shown to callers.
#[derive(Debug, Clone)]
pub struct CategoryDto {
    pub id: String,
    pub name: String,
    pub category_type: String,
}

/// A ledger transaction as shown to callers.
#[derive(Debug, Clone)]
pub struct TransactionDto {
    pub id: String,
    pub account_id: String,
    pub account_name: String,
    pub category_id: Option<String>,
    pub category_name: Option<String>,
    pub kind: TransactionKind,
    pub amount_cents: i64,
    pub currency: String,
    pub occurred_on: String,
    pub cleared: bool,
    pub notes: Option<String>,
    pub tags: Vec<String>,
    pub goal_id: Option<String>,
}

/// The mathematical content of a ledger transaction.
pub struct TransactionView {
    pub id: Seq<char>,
    pub account_id: Seq<char>,
    pub account_name: Seq<char>,
    pub category_id: Option<Seq<char>>,
    pub category_name: Option<Seq<char>>,
    pub kind: TransactionKind,
    pub amount_cents: i64,
    pub currency: Seq<char>,
    pub occurred_on: Seq<char>,
    pub cleared: bool,
    pub notes: Option<Seq<char>>,
    pub tags: Seq<Seq<char>>,
    pub goal_id: Option<Seq<char>>,
}

impl View for TransactionDto {
    type V = TransactionView;

    open spec fn view(&self) -> TransactionView {
        TransactionView {
            id: self.id@,
            account_id: self.account_id@,
            account_name: self.account_name@,
            category_id: crate::strutil::view_opt_str(self.category_id),
            category_name: crate::strutil::view_opt_str(self.category_name),
            kind: self.kind,
            amount_cents: self.amount_cents,
            currency: self.currency@,
            occurred_on: self.occurred_on@,
            cleared: self.cleared,
            notes: crate::strutil::view_opt_str(self.notes),
            tags: self.tags@.map_values(|t: String| t@),
            goal_id: crate::strutil::view_opt_str(self.goal_id),
        }
    }
}

/// Paging and filter options for listing transactions.
#[derive(Debug, Clone)]
pub struct TransactionQuery {
    pub limit: Option<i64>,
    pub offset: Option<i64>,
    pub account_id: Option<String>,
    pub category_id: Option<String>,
    pub search: Option<String>,
}

impl Default for TransactionQuery {
    /// The default query: the first fifty transactions, unfiltered.
    fn default() -> (r: Self)
        ensures
            r.limit == Some(50i64),
            r.offset == Some(0i64),
            r.account_id is None,
            r.category_id is None,
            r.search is None,
    {
        Self { limit: Some(50), offset: Some(0), account_id: None, category_id: None, search: None }
    }
}

/// Input for creating a ledger transaction.
#[derive(Debug, Clone)]
pub struct CreateTransactionInput {
    pub id: Option<String>,
    pub account_id: String,
    pub category_id: Option<String>,
    pub kind: TransactionKind,
    pub amount_cents: i64,
    pub currency: String,
    pub occurred_on: String,
    pub notes: Option<String>,
    pub tags: Option<Vec<String>>,
    pub cleared: bool,
    pub goal_id: Option<String>,
}

/// Input for updating a ledger transaction.
#[derive(Debug, Clone)]
pub struct UpdateTransactionInput {
    pub id: String,
    pub account_id: String,
    pub category_id: Option<String>,
    pub kind: TransactionKind,
    pub amount_cents: i64,
    pub currency: String,
    pub occurred_on: String,
    pub notes: Option<String>,
    pub tags: Option<Vec<String>>,
    pub cleared: bool,
    pub goal_id: Option<String>,
}

/// Input for importing a batch of transactions.
#[derive(Debug, Clone)]
pub struct ImportTransactionsInput {
    pub items: Vec<CreateTransactionInput>,
}

/// The direction of a ledger transaction.
#[derive(Debug, Clone, Copy, PartialEq, Eq, Structural)]
pub enum TransactionKind {
    Income,
    Expense,
    Transfer,
}

impl TransactionKind {
    /// The canonical encoding used in storage.
    pub open spec fn spec_as_str(self) -> Seq<char> {
        match self {
            TransactionKind::Income => "income"@,
            TransactionKind::Expense => "expense"@,
            TransactionKind::Transfer => "transfer"@,
        }
    }

    pub fn as_str(&self) -> (r: &'static str)
        ensures
            r@ == self.spec_as_str(),
    {
        match self {
            TransactionKind::Income => "income",
            TransactionKind::Expense => "expense",
            TransactionKind::Transfer => "transfer",
        }
    }

    /// How a transaction of this kind and amount moves an account
    /// balance: income adds, expense subtracts, a transfer leaves the
    /// balance alone.
    pub fn balance_delta(&self, amount: i64) -> (r: i64)
        requires
            amount > i64::MIN,
        ensures
            self is Income ==> r == amount,
            self is Expense ==> r == -amount,
            self is Transfer ==> r == 0,
    {
        match self {
            TransactionKind::Income => amount,
            TransactionKind::Expense => -amount,
            TransactionKind::Transfer => 0,
        }
    }
}

/// Errors of the transaction service.
#[derive(Debug)]
pub enum TransactionServiceError {
    Database(String),
    NotFound(String),
    Validation(String),
    Internal(String),
}


/// Whether `c` is the whitespace the tag codec strips: space, tab,
/// newline or carriage return.
pub open spec fn is_tag_space(c: char) -> bool {
    c == ' ' || c == '\t' || c == '\n' || c == '\r'
}

/// `s` without leading tag whitespace.
pub open spec fn spec_trim_start(s: Seq<char>) -> Seq<char>
    decreases s.len(),
{
    if s.len() > 0 && is_tag_space(s[0]) {
        spec_trim_start(s.subrange(1, s.len() as int))
    } else {
        s
    }
}

/// `s` without trailing tag whitespace.
pub open spec fn spec_trim_end(s: Seq<char>) -> Seq<char>
    decreases s.len(),
{
    if s.len() > 0 && is_tag_space(s.last()) {
        spec_trim_end(s.drop_last())
    } else {
        s
    }
}

/// `s` without leading or trailing tag whitespace.
pub open spec fn spec_trim(s: Seq<char>) -> Seq<char> {
    spec_trim_end(spec_trim_start(s))
}

/// `s` cut at every comma: always one more token than commas, with
/// empty tokens where commas touch.
pub open spec fn spec_split_commas(s: Seq<char>) -> Seq<Seq<char>>
    decreases s.len(),
{
    if s.len() == 0 {
        seq![Seq::<char>::empty()]
    } else if s.last() == ',' {
        spec_split_commas(s.drop_last()).push(Seq::<char>::empty())
    } else {
        let r = spec_split_commas(s.drop_last());
        r.update(r.len() - 1, r.last().push(s.last()))
    }
}

/// The tag list a stored tag text denotes: split at commas, trimmed,
/// with empty tokens dropped.
pub open spec fn spec_split_tags(s: Seq<char>) -> Seq<Seq<char>> {
    spec_split_commas(s).map_values(|t: Seq<char>| spec_trim(t)).filter(
        |t: Seq<char>| t.len() > 0,
    )
}

/// The stored tag text of a tag list: the tags joined with commas.
pub open spec fn spec_join_commas(ts: Seq<Seq<char>>) -> Seq<char>
    decreases ts.len(),
{
    if ts.len() == 0 {
        Seq::empty()
    } else if ts.len() == 1 {
        ts[0]
    } else {
        spec_join_commas(ts.drop_last()) + seq![','] + ts.last()
    }
}

/// Strip leading and trailing tag whitespace.
fn trim_str(s: &str) -> (r: String)
    ensures
        r@ == spec_trim(s@),
{
    let n = s.unicode_len();
    let mut start: usize = 0;
    proof {
        assert(s@.subrange(0, n as int) =~= s@);
    }
    while start < n && is_tag_space_exec(s.get_char(start))
        invariant
            start <= n,
            n == s@.len(),
            spec_trim_start(s@) == spec_trim_start(s@.subrange(start as int, n as int)),
        decreases n - start,
    {
        proof {
            let rest = s@.subrange(start as int, n as int);
            assert(rest[0] == s@[start as int]);
            assert(rest.subrange(1, rest.len() as int) =~= s@.subrange(
                start as int + 1,
                n as int,
            ));
        }
        start += 1;
    }
    proof {
        let rest = s@.subrange(start as int, n as int);
        if start < n {
            assert(rest[0] == s@[start as int]);
        }
        assert(spec_trim_start(s@) == rest);
    }
    let mut end: usize = n;
    while end > start && is_tag_space_exec(s.get_char(end - 1))
        invariant
            start <= end <= n,
            n == s@.len(),
            spec_trim_start(s@) == s@.subrange(start as int, n as int),
            spec_trim_end(s@.subrange(start as int, n as int)) == spec_trim_end(
                s@.subrange(start as int, end as int),
            ),
        decreases end,
    {
        proof {
            let cur = s@.subrange(start as int, end as int);
            assert(cur.last() == s@[end - 1]);
            assert(cur.drop_last() =~= s@.subrange(start as int, end as int - 1));
        }
        end -= 1;
    }
    proof {
        let cur = s@.subrange(start as int, end as int);
        if end > start {
            assert(cur.last() == s@[end - 1]);
        }
        assert(spec_trim_end(s@.subrange(start as int, n as int)) == cur);
    }
    let mut r = String::new();
    let mut i: usize = start;
    while i < end
        invariant
            start <= i <= end <= n,
            n == s@.len(),
            r@ =~= s@.subrange(start as int, i as int),
        decreases end - i,
    {
        r.push(s.get_char(i));
        i += 1;
        proof {
            assert(r@ =~= s@.subrange(start as int, i as int));
        }
    }
    proof {
        assert(r@ =~= spec_trim(s@));
    }
    r
}

/// Whether `c` is the whitespace the tag codec strips.
fn is_tag_space_exec(c: char) -> (r: bool)
    ensures
        r == is_tag_space(c),
{
    c == ' ' || c == '\t' || c == '\n' || c == '\r'
}

/// The transaction service, scoped to one user.
pub struct SqliteTransactionService {
    user_id: String,
}

impl SqliteTransactionService {
    /// The user whose ledger this service manages.
    pub closed spec fn spec_user_id(&self) -> Seq<char> {
        self.user_id@
    }

    pub fn new(user_id: Option<String>) -> (r: Result<Self, TransactionServiceError>)
        ensures
            r is Ok,
            user_id is Some ==> r->Ok_0.spec_user_id() == user_id->Some_0@,
            user_id is None ==> r->Ok_0.spec_user_id() == "seed-user"@,
    {
        match user_id {
            Some(id) => Ok(Self { user_id: id }),
            None => Ok(Self { user_id: String::from_str("seed-user") }),
        }
    }

    /// Encode a tag list for storage: absent or empty lists encode to
    /// nothing, anything else to the tags joined with commas.
    pub fn parse_tags(tags: Option<Vec<String>>) -> (r: Option<String>)
        ensures
            r is Some <==> (tags matches Some(list) && list@.len() > 0),
            r matches Some(text) ==> text@ == spec_join_commas(
                tags->Some_0@.map_values(|t: String| t@),
            ),
    {
        let list = match tags {
            Some(list) => list,
            None => {
                return None;
            },
        };
        if list.len() == 0 {
            return None;
        }
        let ghost views = list@.map_values(|t: String| t@);
        let mut text = String::new();
        let mut i: usize = 0;
        while i < list.len()
            invariant
                i <= list@.len(),
                views == list@.map_values(|t: String| t@),
                i > 0 ==> text@ == spec_join_commas(views.subrange(0, i as int)),
                i == 0 ==> text@ =~= Seq::<char>::empty(),
            decreases list@.len() - i,
        {
            let ghost prefix = views.subrange(0, i as int);
            let ghost prefix_next = views.subrange(0, i as int + 1);
            proof {
                assert(prefix_next.drop_last() =~= prefix);
                assert(prefix_next.last() == views[i as int]);
            }
            if i > 0 {
                text.push(',');
            }
            text.append(list[i].as_str());
            proof {
                if i == 0 {
                    assert(prefix_next.len() == 1);
                    assert(text@ =~= prefix_next[0]);
                    assert(spec_join_commas(prefix_next) == prefix_next[0]);
                } else {
                    assert(spec_join_commas(prefix_next) == spec_join_commas(prefix) + seq![',']
                        + prefix_next.last());
                    assert(text@ =~= spec_join_commas(prefix) + seq![','] + prefix_next.last());
                }
            }
            i += 1;
        }
        proof {
            assert(views.subrange(0, views.len() as int) =~= views);
        }
        Some(text)
    }

    /// Decode a stored tag text: split at commas, trim each token, and
    /// drop the empty ones. Nothing decodes to no tags.
    pub fn split_tags(tags: Option<String>) -> (r: Vec<String>)
        ensures
            ({
                let text = (
                match tags {
                    Option::Some(t) => t@,
                    Option::None => Seq::<char>::empty(),
                });
                r@.map_values(|t: String| t@) == spec_split_tags(text)
            }),
    {
        let text = match &tags {
            Some(t) => t.as_str(),
            None => "",
        };
        let ghost whole = text@;
        proof {
            if tags is None {
                reveal_strlit("");
                assert(whole =~= Seq::<char>::empty());
            }
        }
        let n = text.unicode_len();
        let ghost trim_of = |t: Seq<char>| spec_trim(t);
        let ghost nonempty = |t: Seq<char>| t.len() > 0;
        let mut result: Vec<String> = Vec::new();
        let mut current = String::new();
        let ghost mut finished: Seq<Seq<char>> = Seq::empty();
        let mut i: usize = 0;
        proof {
            reveal(Seq::filter);
            assert(whole.subrange(0, 0) =~= Seq::<char>::empty());
            assert(spec_split_commas(Seq::<char>::empty()) =~= seq![Seq::<char>::empty()]);
            assert(finished.push(current@) =~= spec_split_commas(whole.subrange(0, 0)));
            assert(finished.map_values(trim_of).filter(nonempty) =~= Seq::<Seq<char>>::empty());
            assert(result@.map_values(|t: String| t@) =~= Seq::<Seq<char>>::empty());
        }
        while i < n
            invariant
                i <= n,
                n == whole.len(),
                whole == text@,
                trim_of == (|t: Seq<char>| spec_trim(t)),
                nonempty == (|t: Seq<char>| t.len() > 0),
                spec_split_commas(whole.subrange(0, i as int)) == finished.push(current@),
                result@.map_values(|t: String| t@) == finished.map_values(trim_of).filter(
                    nonempty,
                ),
            decreases n - i,
        {
            let ghost prefix = whole.subrange(0, i as int);
            let ghost prefix_next = whole.subrange(0, i as int + 1);
            proof {
                reveal(Seq::filter);
                assert(prefix_next.drop_last() =~= prefix);
                assert(prefix_next.last() == whole[i as int]);
            }
            let c = text.get_char(i);
            if c == ',' {
                let token = trim_str(current.as_str());
                let ghost finished_before = finished;
                let ghost current_before = current@;
                if token.as_str().unicode_len() > 0 {
                    result.push(token);
                } else {
                }
                proof {
                    finished = finished.push(current_before);
                    assert(spec_split_commas(prefix_next) =~= finished.push(
                        Seq::<char>::empty(),
                    ));
                    assert(finished.map_values(trim_of) =~= finished_before.map_values(
                        trim_of,
                    ).push(spec_trim(current_before)));
                    assert(finished.map_values(trim_of).drop_last() =~= finished_before.map_values(
                        trim_of,
                    ));
                    if spec_trim(current_before).len() > 0 {
                        assert(finished.map_values(trim_of).filter(nonempty)
                            =~= finished_before.map_values(trim_of).filter(nonempty).push(
                            spec_trim(current_before),
                        ));
                        assert(result@.map_values(|t: String| t@) =~= finished.map_values(
                            trim_of,
                        ).filter(nonempty));
                    } else {
                        assert(finished.map_values(trim_of).filter(nonempty)
                            =~= finished_before.map_values(trim_of).filter(nonempty));
                    }
                }
                current = String::new();
                proof {
                    assert(current@ =~= Seq::<char>::empty());
                }
            } else {
                let ghost current_before = current@;
                current.push(c);
                proof {
                    let r0 = spec_split_commas(prefix);
                    assert(r0 == finished.push(current_before));
                    assert(r0.len() > 0);
                    assert(spec_split_commas(prefix_next) =~= r0.update(
                        r0.len() - 1,
                        r0.last().push(whole[i as int]),
                    ));
                    assert(r0.update(r0.len() - 1, r0.last().push(whole[i as int]))
                        =~= finished.push(current@));
                }
            }
            i += 1;
        }
        let token = trim_str(current.as_str());
        let ghost finished_before = finished;
        let ghost current_before = current@;
        if token.as_str().unicode_len() > 0 {
            result.push(token);
        }
        proof {
            reveal(Seq::filter);
            finished = finished.push(current_before);
            assert(whole.subrange(0, n as int) =~= whole);
            assert(spec_split_commas(whole) == finished_before.push(current_before));
            assert(finished.map_values(trim_of) =~= finished_before.map_values(trim_of).push(
                spec_trim(current_before),
            ));
            assert(finished.map_values(trim_of).drop_last() =~= finished_before.map_values(
                trim_of,
            ));
            if spec_trim(current_before).len() > 0 {
                assert(finished.map_values(trim_of).filter(nonempty)
                    =~= finished_before.map_values(trim_of).filter(nonempty).push(
                    spec_trim(current_before),
                ));
            } else {
                assert(finished.map_values(trim_of).filter(nonempty)
                    =~= finished_before.map_values(trim_of).filter(nonempty));
            }
            assert(result@.map_values(|t: String| t@) =~= spec_split_commas(whole).map_values(
                trim_of,
            ).filter(nonempty));
            assert(spec_split_commas(whole).map_values(trim_of).filter(nonempty)
                == spec_split_tags(whole));
        }
        result
    }
}

} // verus!
