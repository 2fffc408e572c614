//! The tables that take part in cross-device sync and the foreign keys
//! between them.

use vstd::prelude::*;
use vstd::string::*;
use crate::text::str_eq;

verus! {

/// The synced tables, parents before children (every foreign key points to a
/// table earlier in the list).
pub open spec fn sync_tables_spec() -> Seq<Seq<char>> {
    seq![
        "accounts"@,
        "equity_holdings"@,
        "mf_holdings"@,
        "sip_schedules"@,
        "fd_holdings"@,
        "ppf_epf_holdings"@,
        "real_estate_holdings"@,
        "gold_holdings"@,
        "crypto_holdings"@,
        "insurance_holdings"@,
        "bond_holdings"@,
        "loans"@,
        "credit_cards"@,
        "transactions"@,
        "budgets"@,
        "net_worth_snapshots"@,
        "import_log"@,
        "goals"@,
        "bills"@,
        "recurring_transactions"@,
        "milestones"@
    ]
}

/// The synced table names, in `sync_tables_spec` order.
pub fn sync_tables() -> (v: Vec<&'static str>)
    ensures
        v@.len() == sync_tables_spec().len(),
        forall|i: int| 0 <= i < v@.len() ==> #[trigger] v@[i]@ == sync_tables_spec()[i],
{
    vec![
        "accounts",
        "equity_holdings",
        "mf_holdings",
        "sip_schedules",
        "fd_holdings",
        "ppf_epf_holdings",
        "real_estate_holdings",
        "gold_holdings",
        "crypto_holdings",
        "insurance_holdings",
        "bond_holdings",
        "loans",
        "credit_cards",
        "transactions",
        "budgets",
        "net_worth_snapshots",
        "import_log",
        "goals",
        "bills",
        "recurring_transactions",
        "milestones",
    ]
}

/// Whether `table` names a synced table. Table names from an imported
/// payload are checked with this before they are ever put into SQL.
pub fn is_valid_sync_table(table: &str) -> (r: bool)
    ensures
        r == sync_tables_spec().contains(table@),
{
    let tables = sync_tables();
    let n = tables.len();
    let mut i: usize = 0;
    while i < n
        invariant
            n == tables@.len(),
            tables@.len() == sync_tables_spec().len(),
            forall|k: int| 0 <= k < tables@.len() ==> #[trigger] tables@[k]@ == sync_tables_spec()[k],
            i <= n,
            forall|k: int| 0 <= k < i ==> sync_tables_spec()[k] != table@,
        decreases n - i,
    {
        if str_eq(tables[i], table) {
            assert(sync_tables_spec()[i as int] == table@);
            return true;
        }
        i = i + 1;
    }
    assert forall|k: int| 0 <= k < sync_tables_spec().len() implies sync_tables_spec()[k] != table@ by {}
    false
}

/// A foreign-key column of a synced table: the column, the synced table it
/// points into, and whether a row without its parent must be dropped (rather
/// than have the column set to null).
pub struct FkColumn {
    pub column: &'static str,
    pub references: &'static str,
    pub required: bool,
}

/// View of a foreign-key column as plain values.
pub open spec fn fk_view(f: FkColumn) -> (Seq<char>, Seq<char>, bool) {
    (f.column@, f.references@, f.required)
}

/// The foreign-key columns that each synced table carries. The polymorphic
/// `transactions.holding_id` is not listed (see `holding_table_for_asset_class`).
pub open spec fn fk_columns_spec(table: Seq<char>) -> Seq<(Seq<char>, Seq<char>, bool)> {
    if table == "equity_holdings"@ || table == "mf_holdings"@ {
        seq![("account_id"@, "accounts"@, true)]
    } else if table == "sip_schedules"@ {
        seq![("account_id"@, "accounts"@, true), ("mf_holding_id"@, "mf_holdings"@, false)]
    } else if table == "fd_holdings"@ || table == "gold_holdings"@ || table == "crypto_holdings"@
        || table == "bond_holdings"@ {
        seq![("account_id"@, "accounts"@, false)]
    } else if table == "transactions"@ {
        seq![("account_id"@, "accounts"@, false)]
    } else {
        seq![]
    }
}

/// The foreign-key columns of `table`.
pub fn fk_columns(table: &str) -> (v: Vec<FkColumn>)
    ensures
        v@.map_values(|f: FkColumn| fk_view(f)) == fk_columns_spec(table@),
{
    let v = if str_eq(table, "equity_holdings") || str_eq(table, "mf_holdings") {
        vec![FkColumn { column: "account_id", references: "accounts", required: true }]
    } else if str_eq(table, "sip_schedules") {
        vec![
            FkColumn { column: "account_id", references: "accounts", required: true },
            FkColumn { column: "mf_holding_id", references: "mf_holdings", required: false },
        ]
    } else if str_eq(table, "fd_holdings") || str_eq(table, "gold_holdings") || str_eq(
        table,
        "crypto_holdings",
    ) || str_eq(table, "bond_holdings") {
        vec![FkColumn { column: "account_id", references: "accounts", required: false }]
    } else if str_eq(table, "transactions") {
        vec![FkColumn { column: "account_id", references: "accounts", required: false }]
    } else {
        Vec::new()
    };
    assert(v@.map_values(|f: FkColumn| fk_view(f)) =~= fk_columns_spec(table@));
    v
}

/// The synced table that `transactions.holding_id` points into, by the row's
/// `asset_class`.
pub open spec fn holding_table_spec(asset_class: Seq<char>) -> Option<Seq<char>> {
    if asset_class == "equity"@ {
        Some("equity_holdings"@)
    } else if asset_class == "mf"@ {
        Some("mf_holdings"@)
    } else if asset_class == "fd"@ {
        Some("fd_holdings"@)
    } else if asset_class == "ppf_epf"@ {
        Some("ppf_epf_holdings"@)
    } else if asset_class == "real_estate"@ {
        Some("real_estate_holdings"@)
    } else if asset_class == "gold"@ {
        Some("gold_holdings"@)
    } else if asset_class == "crypto"@ {
        Some("crypto_holdings"@)
    } else if asset_class == "insurance"@ {
        Some("insurance_holdings"@)
    } else if asset_class == "loan"@ {
        Some("loans"@)
    } else if asset_class == "credit_card"@ {
        Some("credit_cards"@)
    } else {
        None
    }
}

/// The table behind `transactions.holding_id` for an asset class.
pub fn holding_table_for_asset_class(asset_class: &str) -> (r: Option<&'static str>)
    ensures
        match r {
            Some(t) => holding_table_spec(asset_class@) == Some(t@),
            None => holding_table_spec(asset_class@) is None,
        },
{
    if str_eq(asset_class, "equity") {
        Some("equity_holdings")
    } else if str_eq(asset_class, "mf") {
        Some("mf_holdings")
    } else if str_eq(asset_class, "fd") {
        Some("fd_holdings")
    } else if str_eq(asset_class, "ppf_epf") {
        Some("ppf_epf_holdings")
    } else if str_eq(asset_class, "real_estate") {
        Some("real_estate_holdings")
    } else if str_eq(asset_class, "gold") {
        Some("gold_holdings")
    } else if str_eq(asset_class, "crypto") {
        Some("crypto_holdings")
    } else if str_eq(asset_class, "insurance") {
        Some("insurance_holdings")
    } else if str_eq(asset_class, "loan") {
        Some("loans")
    } else if str_eq(asset_class, "credit_card") {
        Some("credit_cards")
    } else {
        None
    }
}

/// The synced table that holds the holdings (or liabilities) of an asset
/// class: `<class>_holdings` among the synced tables (bonds are not linked
/// from transactions), `loans` for a loan, `credit_cards` for a credit card.
pub open spec fn class_table(c: Seq<char>, t: Seq<char>) -> bool {
    ||| (sync_tables_spec().contains(t) && t == c + "_holdings"@ && c != "bond"@)
    ||| (c == "loan"@ && t == "loans"@)
    ||| (c == "credit_card"@ && t == "credit_cards"@)
}

/// Every asset class whose holdings live in a synced table has that table
/// behind `transactions.holding_id`, and every table given for an asset class
/// is its table: a synced table that comes before `transactions` (its rows
/// are merged first, so their local ids are known when transactions merge).
pub proof fn law_holding_table_is_the_class_table(c: Seq<char>, t: Seq<char>)
    ensures
        class_table(c, t) ==> holding_table_spec(c) == Some(t),
        holding_table_spec(c) == Some(t) ==> class_table(c, t) && sync_tables_spec().subrange(0, 13).contains(t),
{
    reveal_strlit("_holdings");
    reveal_strlit("bond");
    reveal_strlit("equity");
    reveal_strlit("mf");
    reveal_strlit("fd");
    reveal_strlit("ppf_epf");
    reveal_strlit("real_estate");
    reveal_strlit("gold");
    reveal_strlit("crypto");
    reveal_strlit("insurance");
    reveal_strlit("loan");
    reveal_strlit("credit_card");
    reveal_strlit("accounts");
    reveal_strlit("equity_holdings");
    reveal_strlit("mf_holdings");
    reveal_strlit("sip_schedules");
    reveal_strlit("fd_holdings");
    reveal_strlit("ppf_epf_holdings");
    reveal_strlit("real_estate_holdings");
    reveal_strlit("gold_holdings");
    reveal_strlit("crypto_holdings");
    reveal_strlit("insurance_holdings");
    reveal_strlit("bond_holdings");
    reveal_strlit("loans");
    reveal_strlit("credit_cards");
    reveal_strlit("transactions");
    reveal_strlit("budgets");
    reveal_strlit("net_worth_snapshots");
    reveal_strlit("import_log");
    reveal_strlit("goals");
    reveal_strlit("bills");
    reveal_strlit("recurring_transactions");
    reveal_strlit("milestones");
    assert("equity"@.len() == 6 && "mf"@.len() == 2 && "fd"@.len() == 2 && "ppf_epf"@.len() == 7
        && "real_estate"@.len() == 11 && "gold"@.len() == 4 && "crypto"@.len() == 6 && "insurance"@.len() == 9
        && "loan"@.len() == 4 && "credit_card"@.len() == 11 && "bond"@.len() == 4);
    assert("gold"@[0] == 'g' && "loan"@[0] == 'l' && "bond"@[0] == 'b' && "real_estate"@[0] == 'r'
        && "credit_card"@[0] == 'c' && "equity"@[0] == 'e' && "crypto"@[0] == 'c' && "crypto"@[1] == 'r'
        && "equity"@[1] == 'q' && "mf"@[0] == 'm' && "fd"@[0] == 'f');
    let st = sync_tables_spec();
    if sync_tables_spec().contains(t) && t == c + "_holdings"@ && c != "bond"@ {
        let i = choose|i: int| 0 <= i < st.len() && st[i] == t;
        let n = t.len() - 9;
        assert(c =~= t.subrange(0, n));
        assert(t[n] == '_' && t[n + 1] == 'h');
        if i == 0 || i == 11 {
            assert(st[i].len() < 9);
        } else if i == 3 || i == 12 || i == 13 || i == 14 || i == 15 || i == 16 || i == 17 || i == 18 || i == 19
            || i == 20 {
            assert(st[i].len() >= 9);
            assert(st[i][st[i].len() - 9] != '_' || st[i][st[i].len() - 8] != 'h');
        } else if i == 1 {
            assert(c =~= "equity"@);
        } else if i == 2 {
            assert(c =~= "mf"@);
        } else if i == 4 {
            assert(c =~= "fd"@);
        } else if i == 5 {
            assert(c =~= "ppf_epf"@);
        } else if i == 6 {
            assert(c =~= "real_estate"@);
        } else if i == 7 {
            assert(c =~= "gold"@);
        } else if i == 8 {
            assert(c =~= "crypto"@);
        } else if i == 9 {
            assert(c =~= "insurance"@);
        } else if i == 10 {
            assert(c =~= "bond"@);
        }
    }
    if c == "loan"@ {
        assert(c != "equity"@ && c != "mf"@ && c != "fd"@ && c != "ppf_epf"@ && c != "real_estate"@ && c != "crypto"@
            && c != "insurance"@);
        assert(c != "gold"@) by {
            assert(c[0] != "gold"@[0]);
        }
        assert(holding_table_spec(c) == Some("loans"@));
        assert(st[11] == "loans"@);
        assert(st.subrange(0, 13)[11] == "loans"@);
    }
    if c == "credit_card"@ {
        assert(c != "equity"@ && c != "mf"@ && c != "fd"@ && c != "ppf_epf"@ && c != "gold"@ && c != "crypto"@
            && c != "insurance"@ && c != "loan"@);
        assert(c != "real_estate"@) by {
            assert(c[0] != "real_estate"@[0]);
        }
        assert(holding_table_spec(c) == Some("credit_cards"@));
        assert(st.subrange(0, 13)[12] == "credit_cards"@);
    }
    if holding_table_spec(c) == Some(t) {
        let pre = st.subrange(0, 13);
        if c == "equity"@ {
            assert(t =~= c + "_holdings"@ && pre[1] == t && st[1] == t);
        } else if c == "mf"@ {
            assert(t =~= c + "_holdings"@ && pre[2] == t && st[2] == t);
        } else if c == "fd"@ {
            assert(t =~= c + "_holdings"@ && pre[4] == t && st[4] == t);
        } else if c == "ppf_epf"@ {
            assert(t =~= c + "_holdings"@ && pre[5] == t && st[5] == t);
        } else if c == "real_estate"@ {
            assert(t =~= c + "_holdings"@ && pre[6] == t && st[6] == t);
        } else if c == "gold"@ {
            assert(t =~= c + "_holdings"@ && pre[7] == t && st[7] == t);
        } else if c == "crypto"@ {
            assert(t =~= c + "_holdings"@ && pre[8] == t && st[8] == t);
        } else if c == "insurance"@ {
            assert(t =~= c + "_holdings"@ && pre[9] == t && st[9] == t);
        } else if c == "loan"@ {
        } else {
            assert(c == "credit_card"@);
        }
        assert(c != "bond"@) by {
            if c == "bond"@ {
                assert(c != "equity"@ && c != "mf"@ && c != "fd"@ && c != "ppf_epf"@ && c != "real_estate"@
                    && c != "crypto"@ && c != "insurance"@ && c != "credit_card"@);
                assert(c[0] != "gold"@[0] && c[0] != "loan"@[0]);
            }
        }
    }
}

/// Every foreign key of a synced table points to a synced table listed
/// before it, so a parent's rows are merged, and their ids mapped, before its
/// children's. The keys are `account_id` into `accounts` on the equity and
/// mutual fund holdings and the SIP schedules (required there) and on the
/// fixed deposit, gold, crypto and bond holdings and the transactions
/// (optional there), and `mf_holding_id` into `mf_holdings` (optional) on
/// the SIP schedules; no other synced table has one.
pub proof fn law_foreign_keys_point_to_earlier_tables(i: int)
    requires
        0 <= i < sync_tables_spec().len(),
    ensures
        forall|k: int|
            0 <= k < fk_columns_spec(sync_tables_spec()[i]).len() ==> sync_tables_spec().subrange(0, i).contains(
                (#[trigger] fk_columns_spec(sync_tables_spec()[i])[k]).1,
            ),
        fk_columns_spec(sync_tables_spec()[i]) == (if i == 1 || i == 2 {
            seq![("account_id"@, "accounts"@, true)]
        } else if i == 3 {
            seq![("account_id"@, "accounts"@, true), ("mf_holding_id"@, "mf_holdings"@, false)]
        } else if i == 4 || i == 7 || i == 8 || i == 10 || i == 13 {
            seq![("account_id"@, "accounts"@, false)]
        } else {
            Seq::empty()
        }),
{
    reveal_strlit("accounts");
    reveal_strlit("equity_holdings");
    reveal_strlit("mf_holdings");
    reveal_strlit("sip_schedules");
    reveal_strlit("fd_holdings");
    reveal_strlit("ppf_epf_holdings");
    reveal_strlit("real_estate_holdings");
    reveal_strlit("gold_holdings");
    reveal_strlit("crypto_holdings");
    reveal_strlit("insurance_holdings");
    reveal_strlit("bond_holdings");
    reveal_strlit("loans");
    reveal_strlit("credit_cards");
    reveal_strlit("transactions");
    reveal_strlit("budgets");
    reveal_strlit("net_worth_snapshots");
    reveal_strlit("import_log");
    reveal_strlit("goals");
    reveal_strlit("bills");
    reveal_strlit("recurring_transactions");
    reveal_strlit("milestones");
    let st = sync_tables_spec();
    let t = st[i];
    assert("accounts"@.len() == 8 && "equity_holdings"@.len() == 15 && "mf_holdings"@.len() == 11
        && "sip_schedules"@.len() == 13 && "fd_holdings"@.len() == 11 && "ppf_epf_holdings"@.len() == 16
        && "real_estate_holdings"@.len() == 20 && "gold_holdings"@.len() == 13 && "crypto_holdings"@.len() == 15
        && "insurance_holdings"@.len() == 18 && "bond_holdings"@.len() == 13 && "loans"@.len() == 5
        && "credit_cards"@.len() == 12 && "transactions"@.len() == 12 && "budgets"@.len() == 7
        && "net_worth_snapshots"@.len() == 19 && "import_log"@.len() == 10 && "goals"@.len() == 5
        && "bills"@.len() == 5 && "recurring_transactions"@.len() == 22 && "milestones"@.len() == 10);
    assert("equity_holdings"@[0] == 'e' && "crypto_holdings"@[0] == 'c' && "mf_holdings"@[0] == 'm'
        && "fd_holdings"@[0] == 'f' && "gold_holdings"@[0] == 'g' && "bond_holdings"@[0] == 'b'
        && "sip_schedules"@[0] == 's' && "credit_cards"@[0] == 'c' && "transactions"@[0] == 't'
        && "import_log"@[0] == 'i' && "milestones"@[0] == 'm' && "loans"@[0] == 'l' && "goals"@[0] == 'g'
        && "bills"@[0] == 'b');
    assert(st[0] == "accounts"@ && st[2] == "mf_holdings"@);
    if i > 0 {
        assert(st.subrange(0, i)[0] == st[0]);
    }
    if i == 3 {
        assert(st.subrange(0, i)[2] == st[2]);
    }
}

} // verus!
